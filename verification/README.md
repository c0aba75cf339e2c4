# diydetect

Endpoint telemetry with language models looking on. An agent on each host reports
on its processes, a collector files the reports, and models are asked about them.

- `src/` is the library, verified with Verus. It makes no system call of its own
  apart from reading the clock and the name of the machine. Each dialogue with the
  system or the network is a probe: its stage says what to ask for next, and the
  answers are handed in. What a probe opens, it has closed when it is done
  (`ledger`); the walk through the processes closes its snapshot once more where
  the first entry cannot be read (`sensors::process::walk`).
- `tests/` runs the library on examples.
- `app/` is the program: command line, HTTP, files, and the Win32 calls.
