# eqtune

A system-wide parametric equalizer for macOS: a daemon that taps the system audio mix,
equalizes it, and replays it to the current output, with a command line that controls it over
a Unix socket.

`src/` is the verified library. It holds every decision and no I/O:

- `state`, `daemon`: the daemon as a state machine. A request or a poll gives the next step
  (start the engine, write the config, answer, …), and the result of the step gives the one
  after it. `laws` states what holds of the machine as a whole, and `restart` what it finds on
  disk when it starts again.
- `config`, `preset`, `library`, `tuning`: presets, what makes them runnable, and everything
  that is done with them.
- `recovery`: the bounded retry schedule after an engine failure.
- `dsp`: which filter sections run on a block of audio, and when.
- `ipc`, `control`, `launchd`, `paths`, `sys`: the control protocol, the control socket, the
  LaunchAgent, and what the system reports.
- `cli`, `prompt`, `error`: what the user asks for, is asked, and is told.
- `number`, `gap`, `text`: IEEE 754 numbers by their bits, the distance between them, and text.

`app/` is the program around it: arguments, files, sockets, Core Audio, and the arithmetic on
samples.

Times are nanoseconds on a monotonic clock. A text with a figure in it is a list of pieces;
the program writes the figures in decimal.
