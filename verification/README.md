# oneagentgraph

Compose agents into a graph over oneharness and onejudge, and merge their outputs
into one NDJSON event stream.

The library under `src/` holds the rules of a graph, each with a contract that
Verus proves:

- **Documents** — `config`, `validation`, `judge_sides`, `graph_laws`: what a graph
  document may say, each refusal in the words its author reads, and what the
  checks promise together.
- **Launches** — `invoke`, `provider`, `stamp`, `toml`, `task`, `persona`, `anchor`:
  what a member is started with, and the config files it is started from.
- **Members** — `member`, `liveness`, `harness`, `judge`, `location`, `control`: how
  a member is watched, what its engine's observations and answers become on the
  stream, and where its turn can be redirected.
- **The stream** — `event`, `emitter`, `payload`, `glob`, `bound`, `session`,
  `clock`, `clock_laws`: envelopes, their filters, their numbering and their labels.
- **Commands** — `cli`, `verbs`, `preflight`, `history`, `health`, `catalog`,
  `error`: what each verb decides between what it reads and what it writes, and what
  it exits with.
- **Stand-ins** — `fake_harness`, `fake_llmlint`, `fake_provider`, `fake_view`: the
  programs a test suite spawns in place of paid ones.
- **Texts** — `text`, `search`, `keyed`, `json`, `json_read`, `json_laws`: what the
  others are written with.

Paths are texts, and every rule about one is the rule of a Unix host: `/` is the one
separator, a path that begins with it carries a root, and nothing else does. A path
spelled for Windows — with a drive, a share, or `\\?\` — is read as a relative one. The
separator a base directory is already spelled with is kept, whichever it is.

`app/` is the program around it: arguments, files, processes and threads. What an
installation supplies — process groups, the runner of a whole graph, scratch — is
its `Host`.

`tests/` runs the library against the outside crates it is composed over.
