# iced-dev-automation

Debug-only local automation for native Iced applications, over two private Unix sockets:

- **Screenshot**: returns the rendered viewport as a PNG image.
- **Automation**: dispatches selected application message variants.

`src/` is the verified library. It decides and computes; it opens no file, starts no thread
and waits for nothing. A conversation with the system is a step function: it takes where the
work stands and what has happened, and says what is asked of the system next.

| module       | what it decides                                                          |
|--------------|--------------------------------------------------------------------------|
| `options`    | what a command line asks for, and when two paths are the same            |
| `socket`     | how the file of a socket is claimed, made private and removed            |
| `server`     | which clients are served, and when a server stops                        |
| `automation` | how an automation client is served, and which requests wait              |
| `screenshot` | how a screenshot client is served, and how pixels become an image        |
| `json`       | the JSON replies and the lines they are sent as                          |
| `relay`      | how requests reach the application                                       |
| `expansion`  | the code that `derive(DevAutomation)` generates                          |
| `text`       | lines, UTF-8 and decimal numbers                                         |

The proof functions whose names begin with `law_` state what holds of the library as a whole,
such as that a cancelled request is never dispatched, that no more than four clients are served
at once, or that a start removes no file but a stale socket or its own.

What is believed without proof is what the functions marked `external_body` say of `serde_json`,
`png`, `syn`, `proc_macro2` and `String::from_utf8_lossy`.

`app/` is the other side: the command line, files, threads, channels and Iced.

## Protocols

The automation socket accepts one JSON value and a line feed, at most 8192 bytes together, and
returns one JSON object and a line feed. `{"op":"describe"}` asks for the schema; anything else
is dispatched. Replies are `{"status":"ok","result":...}` or
`{"status":"error","code":"...","message":"..."}`.

The screenshot socket accepts the line `screenshot` and returns a PNG image, or the line
`ERR reason`.
