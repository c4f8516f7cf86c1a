# api_client

An HTTP API client whose request logic is verified with Verus.

`src/` is the verified library:

- `headers.rs`: the header collection, modelled as the sequence of
  (canonical name, value bytes) entries that `http::HeaderMap` holds, with
  read-after-write and overwrite laws.
- `method.rs`, `status.rs`: HTTP methods (wire names, case-insensitive
  parsing) and status codes.
- `endpoint.rs`: joining the base URL and the URI, and appending query pairs.
- `shell.rs`, `curl.rs`: POSIX shell quoting and the `curl` command that
  reproduces a request, with the proof that a shell splits that command back
  into exactly the request's arguments.
- `audit_types.rs`, `audit.rs`: audit configuration, audit file paths, the
  rendering of response bodies, and where each audit record goes.
- `retry.rs`: which outcomes are retried, and the bound on attempts.
- `builder.rs`: the client settings.

`app/` holds what runs around it: the `reqwest` transport, the Tower audit
middleware, the cookie store and the asynchronous request loop, which act on
the library's decisions.

`tests/` exercises the library on concrete values.
