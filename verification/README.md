# auto-harness

The decision logic of a coding agent that chats, uses tools, looks back on its sessions and rewrites
itself, written in Rust and verified with Verus.

Apart from the clock, the library under `src/` never touches the outside. Each activity is a machine: it hands out an
`Effect` (read this file, run that command, ask the model), and goes on when it is given the
`Event` that answers it. What each machine does next is stated as a function from its state and the
event, and the executable step is proved to compute just that.

| Module | What it holds |
|---|---|
| `text`, `number` | characters, lines, trimming, decimal numbers |
| `json` | JSON values, and the calls into `serde_json` |
| `clock` | the time of day |
| `tool` | how a tool call is found in a reply, ranges, excerpts, patches |
| `run` | a tool call as a machine: shell, write and build, read, delete, sub-agents |
| `agents`, `subagent` | the registry of sub-agents, and a sub-agent as a machine |
| `effect` | effects, events, conversations, log data |
| `paths` | where files lie, what may evolve or be deleted, how backups are named |
| `memory` | the index of the memory notes |
| `trajectory` | log lines, and the summary of a session |
| `llm`, `config` | requests to the model, its answers, settings |
| `reflect` | looking back on sessions |
| `evolve`, `evolution` | evolution: its steps and laws, and the machine |
| `chat` | the chat of a session |

Functions named `law_...` state what holds of the whole: that evolution writes only where it may,
that a failed build is taken back, that a backup holds the text before the change, that the documents
are updated only after a passed check, that the watermark only moves on, that the history stays
bounded.

`app/` is the program: it carries out the effects with files, processes, threads and the network.
It reads `OPENROUTER_API_KEY`, `INFERENCE_BASE_URL` and `MODEL_NAME`; `DEFAULT_MODEL` is used where
`MODEL_NAME` is not set, and `GUIDE_FILE` names the document that guides coding agents on the
project, `src/AGENTS.md` by default.
