# tc

Encrypted voice chat: a server that relays voice without reading it, a terminal
client, a desktop client and a load generator.

`src/` is the library. It holds the protocol, the server's state and sessions,
the voice pipeline, and the logic of the clients, with contracts that Verus
proves. Each module states what its values mean in a view, what an operation
does in a spec function over that view, and what follows from it in public
proof functions.

| Part | Modules |
|------|---------|
| Protocol | `protocol`, `messages`, `wire`, `invite`, `config` |
| Server | `server_model`, `server_laws`, `state`, `session`, `relay`, `rate_limit`, `metrics` |
| Voice | `voice_crypto`, `jitter`, `quality`, `receiver`, `sender`, `audio`, `peer_gain` |
| Terminal client | `terminal`, `commands`, `screen`, `rain`, `names`, `network`, `tls`, `identity`, `settings` |
| Desktop client | `desktop`, `events`, `voice_actor`, `deeplink`, `dm`, `server_registry`, `history`, `hotkeys`, `overlay`, `dev_log`, `update_check` |
| Load generator | `loadtest` |
| Groundwork | `text`, `table`, `addr`, `digest`, `random` |

`app/` is the programs around the library: sockets, TLS, files, windows, audio
devices and codecs. Samples and levels are floating-point numbers there and
integers in the library: percent for volumes, thousandths for levels, bytes per
second for rates, nanoseconds or milliseconds for times.
