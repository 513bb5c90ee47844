# susshi

A terminal SSH connection manager: servers are described in a YAML file
(`~/.susshi.yml`) as groups, environments and servers that inherit their
settings from the levels above, and are reached directly, through a jump
host, or through a Wallix bastion whose menu entry is chosen automatically.

The crate has two parts.

- `src/` is the library, verified with Verus: the configuration model and
  its inheritance rules, included files, key validation, variables, sorting,
  the search, the server tree and its cache, favorites and recent
  connections, tunnel overrides, the SSH / SCP / tunnel / diagnosis command
  lines, the parsers of what `ssh`, `scp` and the Wallix bastion print, the
  Wallix menu selection, the `ssh_config` import, the command line's one-shot
  server, and every decision the interface takes on a key. Each public
  function states its result in its contract; the laws of the library are
  public proof functions.
- `app/` is the program around it: reading files, the terminal, processes,
  threads, the network (SFTP), and drawing with ratatui.

```
susshi                                   # interface
susshi --direct admin@10.0.1.10          # one-shot connection
susshi --validate                        # check the configuration
susshi --import-ssh-config --dry-run     # ~/.ssh/config as YAML
```
