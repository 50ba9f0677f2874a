# rmlx_server

The verified core of a model server for a single GPU.

`src/` holds the decisions, each with its contract:

- `state`, `load`, `lifecycle_laws`: which models are resident, which one leaves for
  another, and what a keep-alive timer that fires may do;
- `keep_alive`, `timers`, `registry`, `session_cache`: the tables that those rest on;
- `serve_config`, `cli`, `gates`: what flags and their defaults resolve to;
- `http`, `content`, `messages`, `tools`, `tool_parser`, `sampling`, `stream`, `metrics`,
  `errors`, `counters`: how a request is read and answered, and how errors are counted;
- `ssd_tier`: the numbers of the SSD prompt-cache tier;
- `text`, `json`: text, whole numbers and JSON values.

`app/` is the program around it: the command line, the HTTP routes, the timers and the
disk. `tests/` runs the library.
