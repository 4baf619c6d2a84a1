# tonic_grpc

An adapter that lets HTTP requests be answered by gRPC calls, with two companions: the generator of
the clients that use it, and a test environment for the load-balancing policies beneath it.

The library under `src/` is verified with Verus. Functions state what they return or change, and the
laws that hold between functions are proof functions beside them.

- `framing`, `framing_laws`: messages become length-prefixed frames, and frames become messages again,
  however the bytes are cut.
- `request_pump`: takes the messages of a request out of its body. Compressed data is refused.
- `response_body`: puts the messages of a response into a body.
- `client`: the headers of a call, and the answer to a request.
- `tokens`, `client_grpc`: the source of a client, token by token.
- `load_balancing`, `test_utils`, `stub_policy`: a fake channel that reports what a policy does, and a
  policy that does what a test tells it to.

What is not proved is what other crates do: `bytes`, `proc_macro2`, `tonic` and a few functions of the
standard library. Each of those calls stands alone in a function marked `external_body`, whose comment
says what is relied on.

`app/` puts the library to work with Tower, `http`, Tokio and serde. `tests/` runs it.
