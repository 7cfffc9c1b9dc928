# zaino-e2e

End-to-end harness for Zaino: it starts a Zebra validator and a Zaino
indexer in Docker containers and waits for each to report readiness in its
log.

- `src/` is the library, verified with Verus: container requests for Zebra,
  Zaino and zcashd, the text of IP addresses, Zaino's configuration file,
  the log watch that decides when a service is ready, and what happens when
  a watch ends.
- `app/` is the program around it: it turns the library's container
  requests into `testcontainers` requests, starts the containers, reads
  their logs with `tokio` and hands each line to the library's watch.
- `tests/` runs the library on concrete values.
