# wyrtloom-provider-nous

A [Wyrtloom](https://github.com/codepilots/wyrtloom) `LlmProvider` for the **Nous Portal** hosted
inference API ([Nous Research](https://nousresearch.com), Hermes-4 models), with its decisions
verified in [Verus](https://github.com/verus-lang/verus).

- `src/` is the library: which endpoints may be talked to, what a request says, how a reply, a
  status and a model catalog are read, what a call costs, and what is stripped from model output.
  It does no I/O. Each function states what it returns; the public proof functions named `law_...`
  state what holds of the library as a whole.
- `app/` carries the steps out over HTTP and offers them to a Wyrtloom host. It needs
  `wyrtloom-core` beside the crates of `Cargo.toml`.
- `tests/` runs the library on concrete values.

## Calls

A call is a run of steps. `NousProvider::generate` and `NousProvider::models` take what has
happened so far (nothing yet, a response head, a body) and say what to do next: send a request,
read a body up to a limit, or finish.

## Money

Amounts are whole microdollars. Prices of the built-in table are microdollars per million tokens
(`Hermes-4-405B` 90,000 in / 370,000 out, `Hermes-4-70B` 50,000 / 200,000), and a cost is the exact
amount rounded to the nearest microdollar. Catalog prices are read from their decimal text the same
way; one that rounds to nothing is left out.

## What is trusted

- `serde_json` decodes response bodies (`src/json.rs`).
- `url` parses base URLs (`src/base_url.rs`).
- `str::to_lowercase` and `String::push` of the standard library (`src/text.rs`).
