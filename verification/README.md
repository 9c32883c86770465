# zecwallet-cli

A command-line client for a light Zcash wallet, with its logic verified by Verus.

- `src/` — the verified library:
  - `text`, `number`: trimming, searching, ASCII case-blind comparison, and
    reading and writing decimal numbers, proved against spec functions over
    `Seq<char>`.
  - `codec`: the trusted wrappers of the `base64` and `json` crates and of
    lossy UTF-8 decoding, with what their sources show stated as contracts.
  - `document`: JSON values as the library's own type, their compact text,
    and the members and elements the RPC logic reads.
  - `config`: the wallet's settings and the reading of the `key=value` file.
  - `http`, `client`, `server`: building and reading the JSON-RPC-over-HTTP
    messages exchanged with a running wallet daemon.
  - `launch`: what an invocation asks for, from its arguments and the file.
  - `laws`: properties that tie client and server together.
- `app/` — the program: argument parsing, files, sockets and threads.
- `tests/` — tests of the library on concrete values.
