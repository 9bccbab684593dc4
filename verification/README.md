# localbase

Three HTTP services over ScyllaDB, with MinIO holding the bytes of stored files:

- `scylladb-api`: a PostgREST-style REST interface over the tables of one keyspace
  (filters `col=op.value`, projection, ordering, limits and cursor paging);
- `scylladb-meta`: keyspaces, tables, columns and rows, and a CQL console;
- `storage`: buckets, folders and files.

`src/` is the library, verified with Verus: every decision an endpoint makes (which
identifiers it accepts, the CQL it runs, the errors and messages it answers with, the
writes it makes, in order) is a function with a contract, and the laws the services keep are
proof functions (`law_*`), among them what the storage writes do to the tables they write.
`app/` is the program around it: configuration, the database reads and the execution of the
planned writes, the object-store calls, and HTTP. `tests/` runs the library on concrete requests.
