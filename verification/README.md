# aionui_db

The data rules of a chat application's repositories, as a verified library: how
turns of a conversation are queued and turned into memories, how accounts are
managed, how channels let people in, how resources are shared, leased, ordered
and paid for. Every operation works on tables held as vectors of rows; its
contract says which rows it reads, what becomes of them and what it returns.

- `src/` is the library. `table.rs` holds the operations on rows that the others
  are made of: selecting, ordering, changing, deleting. `memory/`, `admin/`,
  `channel/`, `project/`, `development/`, `operations/` and the single files
  beside them hold one area each: its rows, its operations, and the laws that
  hold of them. `json.rs` and `hash.rs` call `serde_json` and `sha2`.
- `app/` is the SQLite side: it brings the rows that an operation is about into
  the library's tables inside a transaction, lets the library decide, and writes
  back what changed.
- `tests/` run the library.

An operation that returns an error leaves its tables as they were, with one
exception: `MemoryStore::update_conversation_policy` stores the policy before
it asks what the policy comes to, and keeps it where the user of the
conversation is not among the users. Times and new ids come in as arguments.
Where the storage engine can turn a write down for reasons of its own, the
operation takes its verdict as an argument too.
