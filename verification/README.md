# etl_destinations

Destinations for replicated Postgres tables, verified with Verus.

- `src/batch`: rows as columns of Apache Arrow.
- `src/config`: the configuration of destinations, with its secrets encrypted.
- `src/delta`: a destination that writes encoded rows to Delta tables.
- `src/deltalake`: a destination that merges changes into Delta tables, with their maintenance.
- `src/iceberg_errors.rs`: errors of Iceberg and of Arrow as errors of a destination.
- `src/kernel.rs`: the types of Delta tables.
- `src/replicator.rs`: which destination a replicator writes to.
- `src/types`: tables, rows and events as they come from Postgres.

What reads, writes and waits stands in `app`. It performs the actions that the library decides on
and hands back what happened.
