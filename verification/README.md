# bsky_sdk

A Bluesky client toolkit whose core is verified with Verus.

- `src/` is the verified library:
  - `moderation/`: label interpretation, moderation decisions for accounts,
    profiles, posts, feed generators, lists and notifications, muted words,
    and the UI summary of a decision (filters, blurs, alerts, informs);
  - `rich_text/`: rich text with byte-indexed facets, insertion, deletion,
    segmentation and detection of mentions, links and tags;
  - `preference.rs`, `agent/`, `record.rs`, `identity.rs`, `feed.rs`:
    preferences, agent configuration and headers, record URIs and keys,
    identifiers, and the post record builder;
  - `codegen/`: the decisions of the lexicon code generator (type mapping,
    field order, XRPC methods, modules and services);
  - `text.rs`, `keyed.rs`: string and map helpers shared by the above.
  Calls into outside crates go through small trusted wrappers whose
  contracts are stated next to them.
- `app/` holds what is not verified: the async agent, file and network I/O,
  serde copies of configuration types, and rendering of generated code.
- `tests/` runs the library on concrete inputs.
