# nucleo_l476rg

Drivers for a Nucleo-L476RG audio board: the PCM5122 DAC on the I2C bus
(register reads and writes, and its default configuration) and a status LED.

- `src/` is the verified library. Each operation builds a script of device
  commands; `session::Session` hands the commands out one at a time, stops at
  the first one that fails, and yields the operation's result. Its laws (a
  successful run replays the script; a failure stops the run and is what it
  returns) are proved in `src/session.rs`.
- `app/` carries the sessions out on the hardware through the embedded-hal
  traits (`OutputPin`, `WriteRead`, `DelayMs`) and the STM32L4 HAL's `Delay`.
- `tests/` drives the sessions with scripted answers.
