# scaffold

A verified interpreter for scaffold programs: tools, prompts, agents and pipelines that call
shell commands, foreign functions and language models.

The library in `src/` is a function of a program and of the replies that its host has given so
far. Where a run needs a reply that is not there, it stops with a request; the host performs it
and runs again with one reply more. `replay` proves that this is sound: what a run made of its
replies, it makes of them again.

- `value`, `number`, `dict`, `json`, `text`, `fence`: values, numbers, dictionaries, JSON documents
  and texts
- `ir`: the intermediate representation of a program
- `expr`, `shell`, `run`: expressions, commands and tools
- `schema`, `prompt`, `agent`, `pipeline`: what models are told, and how prompts, agents and
  pipelines run
- `executor`: what is registered, and the entry points
- `session`, `replay`, `fuel`: how a run talks to its host, why it can be taken up again, and
  when its fuel is enough
- `chat`, `llm`, `completions`: chats, queries and the chat completions API
- `trace`, `jsonl`: traces and how they are written

`app/` is the host: it reads files, calls models over the network, keeps the clock and writes
traces. Floating-point arithmetic is the host's too; the library holds such numbers by their bit
patterns.
