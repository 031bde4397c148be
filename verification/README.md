# led_tetris

Tetris on a matrix of 10 by 20 addressable lights, driven by an ESP32-C3 and played from a
browser over Bluetooth Low Energy.

`src/` is the library. Verus proves its functions against their contracts, except for eleven
small ones in `engine`, `clock` and `advert`: these call into `no_std_tetris`,
`embassy-time` and `trouble-host`, and what they state of those crates is trusted.

| Module    | What it holds                                                          |
|-----------|------------------------------------------------------------------------|
| `board`   | the size of the board, its colours and its cells                       |
| `rng`     | the generator that chooses the pieces                                  |
| `period`  | the course of that generator through its states                        |
| `game`    | the game: moves, landing, cleared rows, score                          |
| `engine`  | the calls into the `no_std_tetris` crate, which plays by the rules     |
| `session` | a game played over one connection, by the clock and by commands        |
| `clock`   | milliseconds in ticks of the `embassy-time` clock                      |
| `state`   | the picture of a game, and when it has changed                         |
| `render`  | the lights that show a picture                                         |
| `leds`    | the serpentine wiring of the strip and the light of each colour        |
| `pulse`   | the waveform that sets one light                                       |
| `advert`  | what the device broadcasts while it waits for a player                 |
| `status`  | the light that tells whether a player is connected                     |

`app/` is the firmware around it: the radio, the clock, the pins and the transmitter. It
builds for the chip only, with the `esp-*` crates beside those in `Cargo.toml`.

## Wiring

| Component                 | GPIO |
|---------------------------|------|
| Data line of the strip    | 4    |
| Status light              | 8    |

## Commands

The first byte of a write to the control characteristic
`12345678-1234-5678-1234-56789abcdef1` of the service
`12345678-1234-5678-1234-56789abcdef0` is the command:

| Byte | Action                                       |
|------|----------------------------------------------|
| 1    | Move the piece to the left                   |
| 2    | Move the piece to the right                  |
| 3    | Turn the piece by a quarter, clockwise       |
| 4    | Move the piece down                          |
| 5    | Start a new game, if the last one is over    |

A piece moves down by itself after half a second.
