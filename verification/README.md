# flint_nfs

The protocol core of an NFSv4.1/4.2 server, written and verified with Verus.

`src/` is the library. It decides; it does no I/O.

| module | what it holds |
|---|---|
| `xdr`, `octets`, `segment`, `text` | wire representation, buffers, strings |
| `protocol`, `rpc`, `sec_policy` | operation codes, statuses, identifiers, security levels |
| `compound` | COMPOUND requests and replies: grammar, decoding, encoding, the running context |
| `dispatcher` | which compounds run, what each operation asks of its handler, what its answer becomes, layouts |
| `cb_compound`, `back_channel` | callbacks to clients and the records they travel in |
| `deleg_recall` | batching, the recall ladder and its timings |
| `fh_kernel` | authenticated filehandles and finding inodes again |
| `authz`, `change_counter` | permission bits, change values |

Each function states its result in its `ensures`; properties that span several
functions stand as public proof functions with their statement in words above
them. What is believed rather than proved is marked
`#[verifier::external_body]` or `assume_specification` and says so in its
comment: calls into `bytes`, `dashmap` and `hmac`, and a few of the standard
library.

`app/` drives the library: it owns the sockets, the clock, the environment, the
system calls and the files. `tests/` runs the library on concrete values.
