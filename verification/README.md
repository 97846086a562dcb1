# flowcase_upload_server

A small HTTPS server that accepts chunked, Dropzone-style uploads behind HTTP
Basic authentication. The decisions of the server are a verified
library; the binary around it does the networking and file system work.

## Layout

- `src/` — the verified library
  - `auth.rs` — the verdict on an `Authorization` header (Basic scheme,
    base64 credentials compared byte for character with the token)
  - `cli.rs` — the command-line grammar (`--ssl`, `--auth-token`, `--port`,
    `--upload-dir`, help and version) that the binary reads its arguments
    with; `tests/cli_agreement.rs` holds it against clap's own reading
  - `upload.rs` — file name sanitizing, multipart form fields, free space
  - `flow.rs` — the decisions of one chunk upload as a state machine, with
    laws about every run of it
  - `tls.rs` — the self-signed TLS configuration for `localhost`
  - `text.rs`, `unicode.rs`, `reply.rs` — decimal numbers, character
    classes, HTTP answers
- `app/` — the binary: axum, tokio, the file system and `statvfs`; clap
  prints help, the version and usage errors
- `tests/` — tests of the library

## Endpoint

`POST /upload`, multipart fields `file`, `dzchunkindex`,
`dzchunkbyteoffset`, `dztotalfilesize`, `dztotalchunkcount`. Answers:
`200 uploaded Chunk`, `400 File already exists`, `400 No Space available`,
`403 Access Denied!`, `403 Failed to decode auth 1`, `500 Size mismatch`.
