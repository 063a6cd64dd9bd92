# minimax_client

A client for the MiniMax chat API (its Anthropic-compatible messages
endpoint), written in Verus.

- `src/` is the verified library: the configuration read from the
  environment's values, the framing of requests (URL, headers, JSON body),
  the reading of answers (status, reply text or the whole reply as JSON),
  the extraction of shell commands from a reply, the messages of a dialogue,
  and the models offered for each feature.
- `app/` sends the requests with `reqwest`, reads the environment and parses
  answers with `serde_json`, handing plain values to the library.
- `tests/` runs the library on concrete inputs.
