# mcping

Ping a Minecraft **Java** (Server List Ping over TCP, with `_minecraft._tcp`
SRV lookup) or **Bedrock** (RakNet unconnected ping over UDP) server, with
output in the style of `ping`.

```text
mcping <TARGET> [-c COUNT] [-s|--show] [--java|--bedrock]
```

## Layout

- `src/` — the library, with its contracts and proofs:
  - `varint.rs` — the Java protocol VarInt, with its round-trip law;
  - `java.rs` — packet framing, handshake / status / ping packets, reading
    packets and the status response;
  - `chat.rs` — JSON chat components flattened to `§`-coded text;
  - `motd.rs` — `§` / `&` codes to ANSI, and stripping;
  - `icon.rs` — favicon `data:` URL → PNG → RGBA → nearest-neighbour scaling →
    half-block art;
  - `bedrock.rs` — unconnected ping/pong and the server ID string;
  - `target.rs` — `host`, `host:port`, IP and `[ipv6]:port` targets;
  - `ping.rs` — edition choice, probe order, reply-line details;
  - `dns.rs` — SRV record choice and default ports;
  - `text.rs`, `wire.rs` — character, decimal and byte helpers.
- `app/` — the command-line program: sockets, DNS lookups, timing, JSON
  parsing with serde, and printing.
- `tests/` — tests of the library on concrete values.
