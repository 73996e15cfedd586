# minecraft_bedrock_hibernation

A proxy that keeps a Minecraft Bedrock Dedicated Server asleep while nobody
plays, and starts it when a player connects.

- `src/` is the verified library: the decisions and the text formats.
  - `text`: whitespace, trimming, lines, `;`-separated fields, decimal numbers
    and `str::parse` for integers, stated over `Seq<char>`.
  - `properties`: setting `server-port` in `server.properties`, with the laws
    that the port reads back, that other lines are kept, and that doing so
    twice changes nothing where no kept line ends in a lone carriage return.
  - `motd`: reading a server's message of the day, and choosing the versions
    the proxy advertises.
  - `lifecycle`: the server process, the idle timer that puts an empty server
    to sleep (with its laws), ping answers and how often pings are tried,
    and the banner notifier.
  - `console`: the `mbh` console commands.
  - `config`, `config_manager`: the configurations and their defaults, and the
    server-list advertisement of the BDS manager.
  - `startup`: the start-up banner.
- `app/` is the program: files, processes, the network (`rust-raknet`), the
  terminal (`crossterm`), `serde` copies of the configurations, and the
  `tokio` tasks that feed the library's decisions.
- `tests/` runs the library on concrete values.
