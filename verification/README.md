# navi

The decision logic of Navi, a deployment tool for NixOS fleets, written in
Verus and proved against its contracts.

## Layout

- `src/`: the verified library. Each module states its behaviour over
  mathematical views (`Seq<char>` for strings, `Set`s and `Seq`s for
  collections):
  - hive and node configuration (`hive`, `nix`, `cli`), node selection with
    `--on` (`node_filter`), deployment targets, activation order, key upload
    and chunked evaluation (`deployment`), SSH hosts and their command lines
    (`ssh`, `local`, `copy`, `host`, `commands`);
  - provisioning, installation, facts and Terraform recovery (`provision`,
    `install`, `facts`, `terraform`), registrar accounts (`registrants`,
    `registrant_tree`);
  - the dashboard: the node hierarchy (`tree`), selection (`selection`),
    keys and navigation (`input`, `navigation`), events (`events`), logs
    (`logview`), inspector, diff, boot screen, game of life, menu model and
    rendering text (`inspector`, `diff`, `boot`, `life`, `model`, `view`),
    demo data (`demo`), the host table of `navi list` (`list`);
  - the daemon's decisions (`daemon`) and string helpers (`text`).
- `tests/`: tests of the library.
- `app/`: the `navi` command line: argument parsing, evaluating the hive with
  `nix eval`, and running `ssh`, `gcloud` and `nix` for the `list`, `ssh`,
  `serial`, `disk-unlock`, `facts derive` and `daemon status` commands.

The laws of the library (toggling twice restores a tree or a selection,
filters with more rules select more, chunks join back to the nodes,
highlighted pieces join back to the line, and others) are public proof
functions next to the code they speak of.
