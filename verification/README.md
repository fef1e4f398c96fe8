# dataframe_api

A small web service around polars data frames — endpoints that serve users
as JSON, a data-frame to JSON renderer, an Oracle query to data-frame
loader — and a load-testing client for those endpoints.

The library under `src/` is verified with Verus:

- `json` — the JSON documents the library builds.
- `frame_json` — column-wise JSON rendering of a frame's columns.
- `frame` — polars frames built from text columns, and their row-wise JSON
  rendering through the polars JSON writer.
- `oracle_query` — turning the rows of a query result into a frame.
- `api_errors` — the HTTP status and JSON body of each endpoint error.
- `users` — the data behind the `/user`, `/users` and `/users-df-json`
  endpoints.
- `text` — decimal parsing and printing, splitting and trimming.
- `bench_config`, `bench_plan`, `bench_results` — the load tester's settings,
  its batch and warm-up planning, endpoint probing, and result counting.

`app/` holds the programs: the actix server (the default) and the load
tester (`bench` as first argument), the Oracle connection, and the parts that
work on floating-point numbers (the aggregation pipeline, latency statistics).
