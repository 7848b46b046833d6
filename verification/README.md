# mpe-plugin-grpc

A gRPC sidecar plugin for MPE: the `grpc:connect`, `grpc:call` and `grpc:close`
nodes, and the design-time queries of their configuration panel.

The decisions of the plugin are a library verified with Verus (`src/`):

- `json`, `text`: the JSON document model and the text helpers everything is built on;
- `schema`, `proto_parser`, `definitions`, `validation`: the compiled proto schema,
  service listing, request skeletons, request validation and message definitions
  (with circular references marked);
- `config`, `plugin`, `describe`: node configurations, validation of a node, node
  descriptions in the user's language;
- `pool`, `keyed`, `services`, `connect`: the connection pool keyed by execution and
  connection, and what a connection reports;
- `call`, `stream`, `helpers`, `error_detail`: call planning, retries and backoff,
  streamed response collection, metadata, method paths, compression, error details
  and the reports of a call;
- `reflection`: what each Server Reflection reply means, dependency resolution;
- `scan`, `ui`: proto directory scans and the answers of the panel's queries;
- `tls`: which kind of channel the TLS settings call for;
- `laws`: properties that relate several operations.

`app/` is the process around it: the plugin SDK, sockets, TLS handshakes, files and
the protobuf runtime. It hands the library plain values and sends back what the
library answers.
