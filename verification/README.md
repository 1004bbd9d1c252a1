# cli-agent

An agent for the command line. `ai-run` takes a literal command or a prompt. A prompt is
sent to a sidecar over a Unix socket, whose answer is not trusted: the template that it
names is read from the local database, its slots are bound against the schema of the
template, paths are held to the workspace, and the command is audited against a policy.
Nothing is run before the user has seen it and agreed. A prompt that nothing matches is
observed, and the command that the user runs instead can be learned.

The library under `src/` decides all of this and is verified with Verus. What it decides
between two looks at the outside world is a step: a function from a state and what was
found to the next state. The program under `app/` performs the steps: it owns the
database, the files, the sockets, the processes and the terminal, and it reads the answers
of the sidecar off the wire. Paths are those of Unix, as text.

| Modules | What they hold |
| --- | --- |
| `text`, `number`, `text_map`, `ids` | text, decimal and octal notation, ordered maps, random ids |
| `json`, `members`, `shell` | what `serde_json` and `shell_words` make of texts |
| `formats`, `validate` | slot rules, slot binding, template compilation |
| `paths`, `path_validate` | paths as components and as texts, the workspace boundary, terminal previews |
| `policy` | the audit of argument lists and environments |
| `storage`, `schema`, `runtime_dir` | records and their states, the tables, private files |
| `sidecar`, `ipc`, `sidecar_signal` | what goes over the socket |
| `learn`, `pipeline`, `ai_run`, `ai_learn`, `cli` | the flows from words to a command |
| `environment`, `execute`, `signals` | the session, child processes, interruption |

Proof functions whose names begin with `law_` state what holds of the library as a whole.
What is believed of outside crates stands in functions marked `external_body`, each with a
comment that says so.
