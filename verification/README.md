# agent-m

A coding agent in a terminal, with its logic verified by Verus.

- `src/` is the library. Every function states what it returns or changes, and Verus
  proves it. What needs the world outside (a model, a user, a tool, a file) is a state
  machine there: it says what is to be done next and takes what came of it.
  - `ai`: requests to language models, their replies, providers and keys.
  - `agent`: the turns of a conversation, tools, risk, trust, compaction.
  - `flow`: flows of steps and their runs.
  - `mcp`: tool servers, their messages and their settings.
  - `cli`: what the program shows and decides, from commands to tickets.
- `app/` is the program around it: files, processes, sockets, HTTP, the terminal.
- `tests/` runs the library on concrete values.

Laws that hold of several functions together are the public proof functions named
`law_…`; each says in its doc comment what holds.

The library knows the order of instruction files and the models of well-known
providers. Anthropic's own names are settings: `anthropicInstructionFile` is the name
of its instruction file, `anthropicModels` lists its models.
