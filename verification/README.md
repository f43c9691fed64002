# myx

A terminal Spotify player whose logic is verified with Verus: browsing, playing,
scrubbing, session resume, the listening room and its Ogg streams, the external
audio source, lyrics, and the layout of the sidebar and the Room view.

- `src/` is the library. Every function states in its contract what it returns
  or changes; public proof functions named `law_…` state what holds across
  functions.
- `app/` is the program around it: the terminal, HTTP, files, processes, the
  audio output.
- `tests/` runs the library on concrete values.

## Layout of the library

| module | what it holds |
|---|---|
| `text`, `hex`, `order`, `assoc`, `json`, `util` | text, digits, stable sorting, a map keyed by text, JSON documents, small helpers |
| `library`, `persist`, `playback`, `frame`, `engine` | rows and sections, the saved session, the playhead, the frame clock, playback events |
| `app` | the application state and what acts on it: selection, playing, engine events, media keys, replies, the frame tick |
| `api` | Web API documents as rows, pages, the library fetch, the action menu and its writes |
| `room` | the listening room: host, resolver, guest, download, cache, Ogg pages, stream reader, player |
| `external` | playing what a helper program writes to its standard output |
| `lyrics` | time-stamped lyrics |
| `ui` | the sidebar and the Room view as lines of styled text |
| `cover`, `liblog`, `startup`, `shared` | graphics protocol, log lines, start-up order, shared values |

## Running

    myx [--source <program>]
    myx roomguest <host:port> <token> <spotify:track:...>

`MYX_LOG` turns on the log in `~/.cache/myx/myx.log`. `MYX_BACKEND` and
`MYX_DEVICE` name the audio output.
