use mcping::icon::{
    decode_png, decode_rgba, half_block, pixel, render, render_rgba, resize_fits, resize_nearest,
    DEFAULT_SIZE,
};

fn png_bytes(width: u32, height: u32, color: png::ColorType, data: &[u8]) -> Vec<u8> {
    let mut out = Vec::new();
    {
        let mut encoder = png::Encoder::new(&mut out, width, height);
        encoder.set_color(color);
        encoder.set_depth(png::BitDepth::Eight);
        let mut writer = encoder.write_header().unwrap();
        writer.write_image_data(data).unwrap();
        writer.finish().unwrap();
    }
    out
}

#[test]
fn half_blocks() {
    assert_eq!(half_block([1, 2, 3, 0], [4, 5, 6, 15]), " ");
    assert_eq!(half_block([1, 2, 3, 0], [4, 5, 6, 16]), "\x1b[38;2;4;5;6m▄\x1b[0m");
    assert_eq!(half_block([1, 2, 3, 255], [4, 5, 6, 0]), "\x1b[38;2;1;2;3m▀\x1b[0m");
    assert_eq!(
        half_block([255, 0, 10, 255], [0, 128, 99, 200]),
        "\x1b[38;2;255;0;10m\x1b[48;2;0;128;99m▀\x1b[0m"
    );
}

#[test]
fn pixels() {
    let img: Vec<u8> = (0..16).collect();
    assert_eq!(pixel(&img, 2, 0, 0), [0, 1, 2, 3]);
    assert_eq!(pixel(&img, 2, 1, 0), [4, 5, 6, 7]);
    assert_eq!(pixel(&img, 2, 0, 1), [8, 9, 10, 11]);
    assert_eq!(pixel(&img, 2, 1, 1), [12, 13, 14, 15]);
}

#[test]
fn nearest_neighbour_scaling() {
    let src = vec![1, 1, 1, 1, 2, 2, 2, 2];
    assert_eq!(
        resize_nearest(&src, 2, 1, 4, 1),
        vec![1, 1, 1, 1, 1, 1, 1, 1, 2, 2, 2, 2, 2, 2, 2, 2]
    );
    let src: Vec<u8> = (0..16).collect();
    assert_eq!(resize_nearest(&src, 2, 2, 1, 1), vec![0, 1, 2, 3]);
    assert_eq!(resize_nearest(&src, 2, 2, 0, 0), Vec::<u8>::new());
    assert!(resize_fits(16, 2, 2, 32, 32));
    assert!(!resize_fits(15, 2, 2, 32, 32));
    assert!(!resize_fits(16, 2, 2, 40000, 40000));
}

#[test]
fn grid_drawing() {
    let img = vec![255, 0, 0, 255, 0, 255, 0, 255, 0, 0, 255, 255, 0, 0, 0, 0];
    let expected = "\x1b[38;2;255;0;0m\x1b[48;2;0;0;255m▀\x1b[0m\x1b[38;2;0;255;0m▀\x1b[0m\x1b[0m\n\x1b[0m";
    assert_eq!(render_rgba(&img, 2, 2, 2), expected);
}

#[test]
fn odd_height_grid() {
    let img = vec![9, 8, 7, 255];
    let cell = "\x1b[38;2;9;8;7m";
    let full = format!("{cell}\x1b[48;2;9;8;7m▀\x1b[0m");
    let half = format!("{cell}▀\x1b[0m");
    let expected = format!(
        "{full}{full}{full}\x1b[0m\n{half}{half}{half}\x1b[0m\n\x1b[0m"
    );
    assert_eq!(render_rgba(&img, 1, 1, 3), expected);
}

#[test]
fn render_png_rgba() {
    let data = [255, 0, 0, 255, 0, 255, 0, 255, 0, 0, 255, 255, 0, 0, 0, 0];
    let bytes = png_bytes(2, 2, png::ColorType::Rgba, &data);
    assert_eq!(decode_rgba(&bytes), Ok((2, 2, data.to_vec())));
    let expected = "\x1b[38;2;255;0;0m\x1b[48;2;0;0;255m▀\x1b[0m\x1b[38;2;0;255;0m▀\x1b[0m\x1b[0m\n\x1b[0m";
    assert_eq!(render(&bytes, 2), Ok(expected.to_string()));
}

#[test]
fn render_png_rgb_and_gray() {
    let bytes = png_bytes(1, 1, png::ColorType::Rgb, &[10, 20, 30]);
    assert_eq!(decode_rgba(&bytes), Ok((1, 1, vec![10, 20, 30, 255])));
    assert_eq!(render(&bytes, 1), Ok("\x1b[38;2;10;20;30m▀\x1b[0m\x1b[0m\n\x1b[0m".to_string()));
    let bytes = png_bytes(2, 1, png::ColorType::Grayscale, &[7, 200]);
    assert_eq!(decode_rgba(&bytes), Ok((2, 1, vec![7, 7, 7, 255, 200, 200, 200, 255])));
    let bytes = png_bytes(1, 1, png::ColorType::GrayscaleAlpha, &[50, 3]);
    assert_eq!(decode_rgba(&bytes), Ok((1, 1, vec![50, 50, 50, 3])));
    assert_eq!(render(&bytes, 1), Ok(" \x1b[0m\n\x1b[0m".to_string()));
}

#[test]
fn render_full_size_icon() {
    let data: Vec<u8> = (0..64 * 64).flat_map(|i| [(i % 256) as u8, 0, 0, 255]).collect();
    let bytes = png_bytes(64, 64, png::ColorType::Rgba, &data);
    let s = render(&bytes, DEFAULT_SIZE).unwrap();
    assert_eq!(s.matches('\n').count(), 16);
    assert_eq!(s.matches('▀').count(), 32 * 16);
}

#[test]
fn render_rejects_non_png() {
    assert_eq!(render(&[1, 2, 3], 32), Err(()));
    assert_eq!(decode_rgba(&[]), Err(()));
}

#[test]
fn png_data_urls() {
    assert_eq!(decode_png("data:image/png;base64,AAEC"), Ok(vec![0, 1, 2]));
    assert_eq!(decode_png("data:image/png;base64,"), Ok(vec![]));
    assert_eq!(decode_png("AAEC"), Err(()));
    assert_eq!(decode_png("data:image/png;base64,A"), Err(()));
}

#[test]
fn cells_end_with_reset() {
    for top in [[1, 2, 3, 0], [1, 2, 3, 16], [200, 100, 0, 255]] {
        for bottom in [[4, 5, 6, 15], [4, 5, 6, 16], [0, 0, 0, 255]] {
            let cell = half_block(top, bottom);
            assert!(cell == " " || cell.ends_with("\x1b[0m"), "{cell:?}");
        }
    }
}

#[test]
fn same_size_scaling_is_identity() {
    let src: Vec<u8> = (0..24).collect();
    assert_eq!(resize_nearest(&src, 3, 2, 3, 2), src);
}

#[test]
fn cell_shape() {
    for top in [[1, 2, 3, 0], [1, 2, 3, 15], [1, 2, 3, 16], [200, 100, 0, 255]] {
        for bottom in [[4, 5, 6, 0], [4, 5, 6, 16], [0, 0, 0, 255]] {
            let cell = half_block(top, bottom);
            let invisible = top[3] < 16 && bottom[3] < 16;
            assert_eq!(cell == " ", invisible);
            if !invisible {
                assert_eq!(cell.matches(|c| c == '▀' || c == '▄').count(), 1);
                assert!(!cell.contains('\n'));
                assert!(cell.ends_with("▀\x1b[0m") || cell.ends_with("▄\x1b[0m"));
            }
        }
    }
    // The colors of an invisible pixel do not matter.
    assert_eq!(half_block([9, 9, 9, 3], [4, 5, 6, 200]), half_block([0, 0, 0, 0], [4, 5, 6, 200]));
    assert_eq!(half_block([4, 5, 6, 200], [9, 9, 9, 3]), half_block([4, 5, 6, 200], [1, 1, 1, 15]));
}
