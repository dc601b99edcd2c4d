# Kraken

The logic of a Minecraft server, written in Rust and proved with Verus: the wire
codec and the proxy's login handoff, the sessions of players, the console and
its operators, and the generation, storage and encoding of the world.

## Layout

- `src/` is the library. Every function states its behaviour in `requires` and
  `ensures`, and Verus proves it. Properties of several functions together are
  public proof functions whose names start with `law_`.
- `app/` is the server around it: sockets, files, threads, the noise fields and
  the registries of the game.
- `tests/` runs the library on concrete values, with the outside crates linked.

## Modules

| Module | Content |
| --- | --- |
| `viakraken::utils`, `viakraken::java` | packets, handshake, status, login, configuration and handoff |
| `viakraken::java::backend` | what a play session does with every packet and event |
| `viakraken::bedrock`, `viakraken::listener` | Bedrock clients and the search for a free port |
| `world`, `record` | terrain, trees, chunk packets, caches and what is stored of chunks and players |
| `console`, `operator_store`, `config` | commands, operators and the server's files |
| `systems`, `chunk`, `test_events` | the rules of the first, ECS based server |

Positions, angles and health are IEEE 754 bit patterns in the library; where a
sum or a product of them is needed, it is computed in `app/` and handed in.
