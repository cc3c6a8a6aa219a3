# drift

The core of a peer-to-peer file transfer application, verified with Verus: what is sent over the
wire, which files may be sent, where files may be received to, how a transfer goes from its start to
its end, and what a user is shown of it.

- `src/` is the library. Every function in it has a contract. Verus proves the contracts, but for
  those of what other code does, which it takes on trust: the five wrappers `quote`, `decode_lossy`,
  `random_id`, `id_text` and `now_seconds`, the specification of `String::push`, and the names
  `quoted` and `lossy_text` for two of the wrappers' results.
  - `wire/`: frames and messages as bytes, decoding of a byte stream, and the order of messages.
  - `session`, `progress`, `manifest`, `path`, `chunks`, `resume`, `ident`: the values that transfers
    are made of.
  - `backend`, `croc`, `croc_text`, `native`: the backends that move bytes, and what they print.
  - `source_scan`, `source_walk`, `source_walk_laws`: the walk over the files to send.
  - `destination`, `staging`, `finalize`: from received output to published files.
  - `resume_store`, `settings`: what is kept between runs.
  - `transfer`, `transfer_model`, `transfer_laws`: all transfers together.
  - `presentation`, `commands`, `screen`, `describe`: what a user asks for and is shown.
- `app/` performs the input and output that the library asks for: files, processes, sockets, time.
- `tests/` runs the library on concrete values.

Where the library needs something looked at or done, it gives out a question or a step and takes the
outcome back as a value. Public proof functions named `law_...` state what holds of several functions
together, such as that every encoded frame decodes to the message that went in.
