# quectel_webui

The logic of a web control panel for Quectel 5G modules, verified with Verus, and the server
around it.

## Layout

- `src/` is the library. Every function in it is verified against its contract.
  - `text`, `number`, `big`: text, and numbers of machine size and of any size.
  - `double`, `shortest`: double-precision arithmetic in integers, and how it is shown.
  - `at`: AT commands and responses. `at::laws` relates the functions to each other.
  - `backend`: the driver as scripts. A script is given the replies so far and says what to send
    next, or ends with a result.
  - `actor`: what a request does with the modem, and how polls are merged into the snapshot that
    the clients see.
  - `atcmd`: how the serial tool tells the end of an answer and the message prompt.
  - `auth`, `web`: tokens, nonces, the login, the pages and the commands of the web socket.
  - `config`, `device`, `logger`, `sys`, `tls`: settings, module profiles, the log in memory, the
    host's readings and certificates.
- `tests/` runs the library with the crates it is linked to.
- `app/` is the server and the serial tool: processes, files, sockets and JSON.

## What is not proved

Digests, tags, base64, the quoting of JSON strings, media types, upper case and lossy UTF-8 decoding come from
other crates and from the standard library. Each stands behind one function whose comment names
what it calls and what is taken for granted of it.
