# scodex

A switcher for Codex accounts: it keeps a pool of subscription and API accounts, asks the
service how much of each quota is left, and puts the credentials of the best account in
place before a session starts.

- `src/` is the verified library. What it does with files, the network, the terminal and
  other programs it decides but does not do: such work is written as steps, from what has
  happened to what is to be done next. The calls into other crates stand in `json.rs` and
  `outside.rs`.
- `app/` is the command-line program around it, which does the work the library asks for.
- `tests/` holds the tests of the library.

The properties that hold of the library as a whole are the proof functions whose names
begin with `law_`.

| module | subject |
| --- | --- |
| `text`, `paths`, `json`, `outside` | text, paths, JSON values, and calls into other crates |
| `state`, `storage` | the pool of accounts and where it is kept |
| `auth`, `account` | credentials of subscriptions, and API accounts |
| `usage`, `fetch` | quotas, and how they are fetched |
| `policy`, `engine` | which account is best, and how one is selected |
| `pool` | importing, finding, removing and switching accounts |
| `login`, `session`, `programs`, `deploy` | other programs and other machines |
| `cli` | what each command does |
| `ui`, `wording`, `help`, `table`, `listing` | what is shown, in two languages |
