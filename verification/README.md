# clipygo-plugin-relay

A [clipygo](https://github.com/it-atelier-gn/clipygo) plugin that shares the clipboard through a
relay, encrypted end to end. The library is verified with Verus; the program around it does the
input and output.

| Module | What it holds |
|---|---|
| `crypto`, `encoding`, `text`, `json` | the primitives, and the outside functions behind them |
| `clock`, `paths` | the time of day, and where the files stand |
| `token` | routing tokens: the rotating names under which the relay holds messages |
| `padding` | the frame that hides the length of a message |
| `envelope` | encrypting a message for a recipient, and reading it |
| `identity`, `config`, `schema` | the user's keys, the settings, and the settings page |
| `protocol` | the requests of clipygo and their answers |
| `session` | a session with the relay: the challenge, and what comes in |

`app/` reads and writes the files, standard input and output, and the network. The
requests, the two files and the messages of the relay are parsed there and handed to the library as
plain values.

Proof functions named `law_*` state what holds of several functions together: that a recipient reads
what was encrypted for them, that a message meets its reader under the same token, that nobody is
connected who has not answered a challenge, and more.
