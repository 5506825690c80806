# jinn_domain

Domain logic of an LLM chat client, verified with Verus.

- `src/` is the library. Its functions carry contracts that Verus proves; laws
  that relate several functions are public proof functions next to what they
  speak of.
- `app/` is the client around it: actors, the file system, wire formats and
  the drawing of what the library lays out.
- `tests/` runs the library with the crates it is linked to.

## Modules

| Module | What it holds |
| --- | --- |
| `chat_entry`, `history` | history entries, their context rules, changes to a history |
| `auto_prune_worker` | strategies that take stale entries out of the prompt |
| `compaction_worker` | where a history is cut and what is summarised |
| `context` | token estimates, tool prompts, templates, scans, prompt snapshots |
| `session`, `app_state`, `focus` | the chat log, the sessions and the screen's focus |
| `chat_input` | the input box, its popups, its drawing and its intents |
| `chat_entry_selection`, `global` | intents on the selected entry, and their validators |
| `cwd_input`, `line_input`, `file_lister` | the working-directory popup and the file popup |
| `endpoint` | the endpoint picker |
| `text` | texts as sequences of characters and grapheme clusters |

## What is trusted

Calls into other crates stand behind small functions marked
`external_body`, each with a comment that says what is claimed of the call:
grapheme clusters and display width, white space and lower case, JSON string
members, token counts and random identifiers.
