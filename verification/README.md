# clew

A verified library for semantic edits of a repository and for what is retained of the threads
that they are made on. The functions under `src/` are proved against their contracts by Verus,
but for the few that call an outside crate, which are named at the end.

| modules | what they hold |
| --- | --- |
| `text`, `words`, `json`, `unambiguous`, `measure`, `canonical`, `record` | texts, canonical JSON, that its bytes tell values apart and how many they are, its digests, records |
| `table`, `order`, `fair`, `closure`, `cas`, `retained` | ordered tables, fair turns, closures of objects, what was retained |
| `thread`, `thread_callables`, `identity` | threads, the facts on their callables, symbols |
| `thread_impact`, `thread_impact_service` | what a change of a callable may reach |
| `thread_change_set`, `thread_change_set_service` | what changed between two impacts, and what covers it |
| `thread_flow`, `thread_flow_cfg`, `thread_flow_service` | the flow of calls from a declaration |
| `thread_flow_order`, `thread_flow_depth` | what graphs change of a flow, and what its depths mean |
| `thread_context` | what the members of a thread have for an intent, within budgets |
| `edit`, `owner_identity`, `model_input`, `read_set`, `transaction` | edits, their targets, what they rest on, and their previews |
| `history`, `commit`, `ledger`, `worktree` | commits of transactions, their recovery, and the builds of worktrees |

Previews, commits, inspections and builds are functions from a state and an event to the next
state and an action. `app/` carries the actions out: it runs processes, reads and writes files
and the database of the ledger, and parses what was retained.

Functions without a body under `src/` name what an outside function returns. The functions
that are marked as external state what is taken on trust of the crates `serde_json`, `sha2`,
`similar`, `unicode-normalization` and `uuid`, and of std.
