# cloudevents_sdk_warp

CloudEvents over HTTP for the warp web server: reading an event from a request
and sending an event back as a response, in the binary and structured modes of
the CloudEvents HTTP binding.

- `src/` is the verified library. `server_request` reads request headers and a
  body as a binary or structured message, `server_response` turns what an
  event hands a serializer into response headers and a body, `response_builder`
  models http's response builder with its error state, `reply` and
  `filter` are the public entry points, `headers` and `spec_version` hold the
  header and version rules (with the calls into `http`, the CloudEvents SDK and
  std behind trusted wrappers), and `roundtrip` proves that a response reads
  back as the event it was made of.
- `app/` connects the library to warp and to the CloudEvents SDK's `Event`.
- `tests/` runs the library on concrete requests and events.
