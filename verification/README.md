# OpenAI and Azure OpenAI backends

Ten backends for the MCPG gateway share one protocol: chat completions,
embeddings, image generation, text-to-speech and speech-to-text, each with the
public OpenAI API and with an Azure deployment.

* `src/` is a library that is verified with Verus.  It holds what the backends
  decide and compute: what a request carries, what a reply means, how a streamed
  reply is put together, which errors there are, and what is reported of a call.
  It does no input or output.
* `app/` is ordinary Rust around it: the HTTP transport, the backends as the
  host calls them, and a bridge for callers that do not await.
* `tests/` holds the tests of the library.

Contracts are stated over mathematical views: a document is a `JsonView`, a text
a sequence of characters, a stream a `StreamState`.  What holds of several
functions at once is stated by the public proof functions whose names begin with
`law_`.

Floating-point numbers stay JSON numbers in the library; `app/` reads and makes
them.  What `serde_json`, `reqwest`, `base64` and the standard library do is
trusted where a function is marked so, and its doc comment says what is claimed.
