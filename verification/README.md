# screenshare

Zero-configuration LAN screen and terminal sharing, with its core verified
in Verus.

- `src/` is the verified library:
  - `protocol`: constants and the length-prefixed frame format of the
    stream port (big-endian `u32` length, then the body), with the law that
    a written frame reads back as its body;
  - `sharers`: the table of peers, keyed by IP address, that announcements
    update and the stale timeout prunes;
  - `discovery`: the announcement a sharer broadcasts, which announcements a
    listener passes on, which Tailscale peers are probed;
  - `tui`: the terminal interface's state machine, key bytes and labels;
  - `terminal`: pending shell input and output, and output frames;
  - `capture`, `viewer`, `desktop`: screen-sharing sources, window lists,
    labels, frame encoding, pacing and decoding;
  - `codec`: the trusted JPEG (`image`) and Base64 (`base64`) calls;
  - `launch`, `text`: interface choice and text comparison.
- `app/` is the program: sockets, threads, the pseudo-terminal and the
  terminal interface drawn with `ratatui`.
- `tests/` runs the library on concrete values.
