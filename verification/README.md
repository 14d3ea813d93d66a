# PairLLM

A desktop chat that talks to a local model through Ollama and lets it use tools: a web search, three
file tools and shell commands. What decides is a library that is verified with Verus; a thin program
around it draws the window, sends the requests and runs the tools.

## The library (`src/`)

| Module | What it holds |
|--------|---------------|
| `text` | Trimming, splitting, cutting and writing numbers, on sequences of characters |
| `json` | JSON values as plain data, and their exchange with `serde_json` |
| `path` | Paths by their components, and what is known of the file system |
| `permissions` | Rules on directories: the most specific one that covers a file decides |
| `platform`, `tools` | The surroundings, the tools that can be had, and what the model is told of them |
| `requests`, `arguments` | How a tool request is found in an answer, and what its arguments say |
| `commands`, `search`, `results` | What a tool runs or asks for, and what it answers |
| `metrics`, `settings` | What the server reports, and how the client is set up |
| `messages`, `stream` | What is sent to the server, and how its answer is put together |
| `chat` | The steps of a chat, each ending in an action for the surroundings |
| `protocol` | What holds of every chat |
| `conversation`, `display` | The conversation in the window, and how it is shown |

Each executable function states what it returns as a function of its inputs. What holds across
functions is stated by public proof functions beside them: a file tool runs only where the rules
allow the path that it is called for, `ls` with the flag `R` only where they allow everything beneath
that path too, a command only runs after approval, the model is asked at most eight times, and a chat
never takes back what it has said.

A chat runs in steps. `ChatSession::start` gives the first, and every step carries the events to show
and an action: ask the model, ask the user, look at the rules, run a tool, or stop. The program
performs the action and calls the method for what came of it.

What the library takes on trust is small: `String::push`, and in `json` the calls into `serde_json`.

## The program (`app/`)

`main.rs` is the window, `worker.rs` performs the actions of a chat, `surroundings.rs` asks the
machine, `storage.rs` keeps the settings under `~/.config/pairllm/settings.json`, `wire.rs` holds what
goes over the network and to disk, and `figures.rs` writes the fractions among the metrics.
