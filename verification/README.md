# drv-thru

Remote Nix builds over Iroh, with a verified core.

A builder lets in clients that it trusts or that hold a ticket, takes the inputs
that it lacks, builds, and hands the outputs back through a signed binary cache.

## Layout

- `src/` is the library: the rules of the protocol, written in Verus. It decides;
  it reads no file and opens no connection.
  - `server/`: who is let in (`auth`, `connection`), what is built (`builds`,
    `queued`), what a client may read of the cache (`output_cache`), and what is
    known of all builds (`status`).
  - `client/`, `client_cache/`, `client_status`: a build as the client sees it, the
    import of its outputs, and the line that shows how far it is.
  - `ticket`, `access`, `keys`, `endpoint`, `config`: who is who, and what each may do.
  - `nix/`, `import_helper`: the command lines of Nix, what its answers mean, and
    what the import helper accepts.
  - `protocol/`, `proto`, `cache`: messages, their frames, and names of cache files.
  - `cli/`: what the command line asks for and prints.
  - `agreement/`: client and builder understand each other.
- `app/` is the program around it: files, processes, connections, the terminal.
- `tests/` runs the library.

The connection, the build and the import are machines: a step takes what happened
and gives what is to be done. `app/` does it and comes back with what happened
next. What a machine does is stated in its `*_step` function; the functions whose
names begin with `law_` state what follows from that for every course of events.
