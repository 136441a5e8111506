# influxdb3_distributed

The decision logic of a distributed InfluxDB 3 cluster, with its behaviour
stated in `requires` / `ensures` contracts and proved by Verus.

- `src/` is the verified library: identifiers and partition ranges, the
  metadata service's region and node registries, line-protocol table
  extraction and write routing, plan analysis, optimisation and
  distribution, result merging (the steps a final operation takes and the
  combining of partial aggregates per group), the byte framing of serialized
  plans and query tickets, filter rendering as SQL, and the wire messages of
  the gRPC services with their conversions. Public `law_*` proof functions
  state the properties that tie several operations together (what a read
  gives back after a write, what a round trip preserves, how regions are
  spread over nodes).
- `tests/` exercises the library on concrete values.
- `app/` holds the async runtime around it: the metadata service interface
  and its in-process implementation, the client's retry loop, the write
  router's and the coordinator's I/O loops, the application of the merge
  steps to result rows, the datanode heartbeat, and the serde forms of the
  wire types.
