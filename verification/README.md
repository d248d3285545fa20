# robotctl

One binary for robot identity, WiFi, status and experiment stacks. Its decisions are a Verus
library: executable Rust whose behaviour is stated in contracts and proved.

## Layout

- `src/` is the library. It does no I/O: it takes what was read or what came of a command as plain
  values, and gives back what to write, run or print.
  - `text`, `order`, `log`, `command`: strings as sequences of characters, sorting, log lines,
    commands to run.
  - `conf`, `config`, `profile`: `KEY=value` files, the environment, and the defaults an image is
    built with.
  - `id`, `cli`: the robot's ID and ROS domain ID, and the files derived from them.
  - `experiments`: which `docker compose` stacks to act on, and how to start, stop and list them.
  - `wifi`: client mode, the fallback access point, and the supervisor that switches between them.
  - `status`: the report, as text and as JSON.
  - `systemd`: units and their states.
- `app/` is the program around it: arguments, files, processes, sockets.
- `tests/` runs the library on concrete values.

## What is proved

Every public function says exactly what it returns, for every input that its `requires` admits; only
five have one, against overflow or a slice out of bounds. Beside them stand laws that relate several
functions, as public proof functions: for instance that an ID which was set is the one that is loaded
next (`id`), that naming experiments is all or nothing
(`experiments::select`), that no value of `fallback-ap.conf` adds a directive to what hostapd reads
(`wifi::config_gen`), and that the supervisor never holds a client connection and the access point
at once, announces readiness once, and never stalls (`wifi::supervise`).

What is taken on trust is marked `external_body` or `assume_specification`: appending a character to
a `String`, how the standard library writes a string literal, and how `serde_json` writes a string.
