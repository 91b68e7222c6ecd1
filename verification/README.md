# strobes

A terminal client for Strobes agents: a chat in the terminal, single messages
and scans from the command line, and the tools that an agent runs on the user's
machine.

- `src/` is the library. It holds everything the client decides or computes, and
  all of it is verified with Verus: the state of a chat session and what each
  key, event and reply does to it, the message editor, the Markdown renderer, the
  readers of dependency manifests, severities and SARIF reports, workflows, the
  network policy and the proxy that enforces it.
- `app/` is the program around it: arguments, terminal, network, files,
  processes. Before it calls a function of the library that has a precondition it
  tests that precondition.
- `tests/` runs the library.

Nothing in `src/` reads a clock, a file, the environment or the network. The
program hands such things in as values and carries out what comes back.

## What is trusted

Calls into other crates stand behind small wrappers whose contracts are believed:
`serde_json` in `json`, `pulldown_cmark` in `markdown`, `base64` in `codec`,
`sha2` in `pack`, `glob` in `scan`, `url` in `weburl`, and a few functions of the
standard library in `text`, `codec` and `egress_proxy`. Where such a result would
take pages to state it has a name, and the contracts above it speak of that name.

## What is left to the packaging

The wire to a thread (`app/link.rs`) and the runner of local workflows
(`app/flows.rs`) are traits; an implementation of each is installed at start-up.

The labels of the models are data: `models.txt` in the configuration directory
holds one to a line, an id and then the label. A model without a line is shown by
its id.
