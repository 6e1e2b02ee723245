# newsroom_agent

The command logic of a terminal assistant for reporters: desk assignments,
coverage claims, FOIA requests, serialized stories, follow-ups, notes and
contacts, news and wire searches, RSS feeds, press releases, legal terms,
public-data lookups (BIG KINDS, DART, the National Assembly), git and pull
request helpers, and project tools.

- `src/` is the library, written and proved with Verus. Each command's
  decisions (reading arguments, validating input, parsing service replies,
  ordering lists, laying out what is printed, the steps of `/pr create`) are
  functions with contracts over `Seq<char>` models of the texts involved;
  laws that relate several of them are public proof functions.
- `tests/` runs the library on concrete values.
- `app/` is the unverified shell around it: the command handlers that read and
  write files, run `curl`, `git`, `gh` and the assistant command
  (`NEWSROOM_ASSISTANT_CMD`), and print what the library returns.
