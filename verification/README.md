# SteamOS Manager

A device manager for handheld gaming hardware. Two daemons answer on the bus: one in the
user's session, which offers the features that the machine has, and one with the rights of the
system, which changes settings and runs programs. A command-line client talks to the first.

The library under `src/` decides, and its decisions are proved with Verus. It does no input or
output: its functions take what was read, or what has happened, and give back what to write,
which program to run, which signal to send or what to answer. The program under `app/` reads,
writes and sends.

## The library

- `text`, `number`: text as a sequence of characters, and numbers in decimal.
- `error`: errors as messages, errors on the bus, and the last failure of several attempts.
- `power`: the attributes of the graphics and the central processor.
- `hardware`, `platform`: the variants of the hardware, the fan, and what a platform offers.
- `wifi`, `cec`, `systemd`: wireless networking, Consumer Electronics Control and units.
- `process`, `job`: how programs end, and jobs that run in the background.
- `manager`: what the managers answer, and which interfaces a session offers.
- `daemon`, `service`, `thread`: the life of the daemons and their services, where their
  configuration and state come from, and waiting for a thread.
- `ds_inhibit`: when the touchpads of game controllers are kept from acting as mice.
- `sls`, `appid`, `udev`: forwarded messages and events.
- `ctl`: what the command-line client prints.

What holds of several functions together is stated by the proof functions whose names start
with `law_`.

## What is not proved

Six functions from outside are believed to do what their contracts say: `String::push` and
`str::to_lowercase` (in `text`), the check of object paths by `zbus` (in `systemd`), the parser
of introspection documents of `zbus_xml` (in `job`), the sorting of `itertools` (in `ctl`) and
the extensions of configuration files by `config` (in `daemon::config`).
