# grpc_php_rs

The core of a gRPC extension for PHP, verified with Verus. It offers what the
classes `Grpc\Channel`, `Grpc\Call`, `Grpc\ChannelCredentials`,
`Grpc\CallCredentials` and `Grpc\Timeval` do, on top of tonic.

The library decides and computes; it does no I/O. What it needs from the
outside world it asks for as a step, and goes on when it is told the answer.

- `src/` is the library. Every function has a contract.
  - `value`, `text`, `clock`, `wire`: PHP values, text, the clock, and what the
    library takes from bytes, http and tonic.
  - `timeval`, `credentials`, `error`: the small classes and the exceptions.
  - `endpoint`, `channel`: channel arguments, endpoints, sharing, connectivity.
  - `metadata`, `status`, `request`, `plugin`, `codec`: what goes over the wire
    and what PHP sees of it.
  - `batch`, `call`, `stream`: batches of operations, the state machine of a
    call, and that of the task that drives a stream.
  - `laws`, `streaming`, `sharing`: what holds of calls whatever batches they
    run, of streams from end to end, and of the transports that channels share.
  - `constants`, `runtime`, `compat`: the tables of the extension.
- `app/` is the extension: PHP classes, transports, stream tasks and runtimes.
- `tests/` runs the library, over a local socket where the wire matters.

What is taken on trust of other crates stands in `wire`, `endpoint`,
`credentials`, `codec`, `error`, `clock` and `text`, with a doc comment each
that says what is claimed.
