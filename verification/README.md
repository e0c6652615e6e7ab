# dd-localstack

A local stand-in for a tracing agent. It accepts trace, RUM span and profile
uploads, files each request in the directory `requests` + route + `/` +
request id (a `headers` file and a `body` file, or one file per upload
part; trace uploads use the route `/v0.4/traces`). The spans of each
accepted trace upload are also printed to the console and written as JSON to
`traces/<timestamp>.json`. It echoes
requests on `/httpbin/get` and `/httpbin/post`.

- `src/` is the verified library: query-string parsing, the
  last-value-wins field map, the headers file text, request-id choice, gzip
  detection and decoding of bodies, the trace content-type gate, upload part
  planning, and the paths that exporters and writers use.
- `app/` is the server: actix-web handlers, file and console output,
  MessagePack/JSON conversion of spans.
- `tests/` runs the library on concrete requests.
