# plexus-core

A hub routes calls to the activations that are registered with it, and a runtime turns each call
into a turn: updates, callbacks, and exactly one terminal. The rules of both are verified with
Verus; the tasks, sockets and wire decoding around them are ordinary Rust.

## Layout

- `src/` is the verified library.
  - `text`, `json`, `table`, `digest` are what the rest is built of.
  - `ir` holds documents that describe activations, with their content hashes. The documents name
    their hash algorithm `CONNECTOME-HASH/1`; the digest behind that name is the library's own, so
    hashes are comparable among documents of this library only. The hashes of the hub's own methods
    are the library's own in the same way.
  - `auth` and `request` say who calls and with what.
  - `plexus/` is the hub: errors, the scope gate, credentials in answers, forwarding policies,
    schemas and their wire forms, the registry of plugins, tenant mounts, the hub itself, routing,
    served documents, and what a server registers for a hub.
  - `runtime/` is the turn: identifiers, events, errors, handlers, callbacks, cancellation, opening
    and running a turn, and an activation made of handlers.
  - `outside` holds every contract that is trusted rather than proved, one for each function of
    another crate or of the standard library that the logic calls.
- `tests/` runs the library.
- `app/` makes a server of it: the traits that activations implement, the JSON-RPC module, audit
  records, and turns as tasks.

## Reading the contracts

Each type has a view, and each function says in its `ensures` what it returns in terms of views and
of named specification functions. What relates several functions stands in proof functions whose
names begin with `law_`.
