# mane

Sync directories from local and remote machines.

The crate is split in two:

- `src/` is the verified library. It holds what the tool decides:
  - `path`: paths compared by their components, with `parent`, `starts_with`
    and `join` as Unix path handling defines them;
  - `addr`: remote socket addresses and their text form;
  - `config`: the sync parameters, the configuration, and where the
    configuration file is found from the command line;
  - `events`, `config_watch`, `task_watch`: what a filesystem event means to a
    watcher, and the state machines that decide what the configuration watcher
    (which reads the file as soon as its directory is watched) and each sync
    task's watcher (which syncs once changes settle, and stops on abort in any
    phase) do next;
  - `task`: the pool of running sync tasks and how an update with a new
    configuration takes out stale tasks and plans the missing ones to start;
  - `pool_laws`: what every such update guarantees (only configured tasks
    remain, every startable sync is served, no task runs twice, a repeated
    update changes nothing);
  - `rsync`: the arguments of the copy command; `text`: numbers as text.
- `app/` runs the library: logging, the tokio runtime, the `notify` watchers,
  reading and parsing the TOML configuration file, and the abort channels of
  the tasks.

## Configuration

```toml
[[syncs]]
local_path = "/home/user/notes"
remote_path = "/backup/notes"
remote_addr = "192.168.1.20:22"
```

The file is `~/.config/mane/config.toml`, or the path given with `-c` or
`--config`.
