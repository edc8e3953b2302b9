# vikar

A playbook runner that mixes LLM calls, shell commands and loops, declared
as YAML, verified with Verus.

- `src/` is the verified library: the playbook schema and its validation
  (`config`), the shared context and its JSON view (`context`, `value`),
  the bridge to the template engine (`template`), the built-in model
  providers' pure parts (`models`), the compiler from configuration to
  runnable tasks (`runner`), the engine that walks a plan one transition at
  a time (`exec`), the measure that shows every run ends (`progress`), and
  the text of `vikar plan` (`plan`).
- `app/` is the `vikar` binary: command line, YAML loading, `.env`
  loading, workspace scaffolding, HTTP calls to model providers, running
  shell commands, and the loop that feeds their outcomes to the engine.
- `tests/` exercises the library on concrete values.
