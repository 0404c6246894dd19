# celestia

A manager for Paper Minecraft servers, written in Verus.

`src/` is the verified library. It holds what the program decides and computes:

- `paper`: Minecraft versions and Paper build numbers (reading, printing, ordering), the
  addresses of the Paper API and how its answers are chosen among.
- `manifest`: the manifest of a package, `Celestia.toml`, with case-insensitive plugin names
  that never repeat.
- `package`: the layout of a package directory, `server.properties` lookups, the `--version`
  output of a server JAR and the accepted EULA.
- `tmux`, `watcher`: the tmux commands that run a server, and the watch of its log that tells
  how a start or a stop went.
- `commands`: the decisions of each subcommand; `varint` and `commands::status` the Server List
  Ping packets.
- `modrinth`, `plugins`: Modrinth requests and the choice of the plugin version and file.

`app/` is the program around it: the command line, HTTP requests, files, processes and the
terminal.
