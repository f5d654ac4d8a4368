# svdp

A collector of cloud monitoring readings and the query service over them.

Round after round (five minutes each) the collector asks the Aliyun monitoring API
for the readings of ECS instances, load balancers, relational and document
databases, key-value stores and memcache instances, files them into a timeline of
snapshots per kind, writes the snapshots to PostgreSQL and keeps those on the cache
interval in memory. The query service answers JSON-RPC style requests over TCP and
HTTP with a time series of one reading of one instance, or with its sum, average,
minimum and maximum, taking the points from the cache, the database, or both.

## Layout

- `src/` is the library, verified with Verus:
  - `sv::aliyun`: timelines, the cache, and per kind (`ecs`, `slb`, `rds`, `redis`,
    `memcache`, `mongodb`) the readings, the query parameters and the intake of
    datapoints; `sign` builds signed request URLs; `schedule` decides where
    collection starts, the tables and partitions it writes, the cache preload and
    when a round is due;
  - `serv`: request routing and answer frames; `serv::sv` plans and answers queries;
  - `ecs`: the per-instance ECS collector and its round report;
  - `inventory`, `tools`: the inventory command and the TCP client's arguments;
  - `json`: the JSON value that answers and requests are read into, and the reads
    over it (members, elements up to the first null, texts, unsigned numbers);
  - `strmap`, `textbuf`: a map keyed by text and the text helpers.
- `tests/` runs the library on concrete values.
- `app/` is the program around it: configuration, database connections, HTTP and
  TCP servers, the provider's API and command-line client, and the float scaling of
  readings.
