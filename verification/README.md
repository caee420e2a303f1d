# openai_agents_rust

Agent orchestration for OpenAI-compatible models, with its decision logic
written and proved in Verus.

- `src/` is the verified library: the run protocol of the runner as a state
  machine (`agent::runner::RunMachine`) with its laws, request payloads and
  response readers of each model backend (`model::*`), the tool and plugin
  registries, the configuration overlay of provider variables, the
  event-stream line reader, session storage and small text helpers. Every
  public function states its result in `ensures`; the laws are public proof
  functions next to the functions they speak of.
- `app/` is the program around it: HTTP calls, the async agent runtime, the
  MCP server, plugin loading from shared libraries, command-line parsing, and
  the serde copies of the library's types used on the wire.
- `tests/` runs the library on concrete values.
