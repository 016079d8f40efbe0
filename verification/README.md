# j3term

The library of j3Term, a terminal with PTY-backed shell sessions and a panel of
command buttons. It decides; the program around it reads, writes, draws and waits.
Every function of `src/` states in its contract what it returns or changes, and
Verus proves it.

- `pty`: the queue between a shell's threads and the window, the threads' own
  decisions, starting a session and shutting it down, and the command that starts a
  shell.
- `terminal`, `emulator`: what of the emulator's grid is shown, and which rows
  changed.
- `renderer`, `window`: plans of what is painted, and what a window makes of keys,
  pointers, timers, dialogs and failures.
- `config`, `distribution`, `linux_desktop`: the settings file, the texts that come
  with the program, and its entry in a Linux desktop; `config::disk` and
  `linux_desktop::files` say what saving and installing leave on a disk.
- `domain`: the values that the others share.

Proof functions whose names begin with `law_` state what holds of several functions
together. What comes from outside crates and from `std` without a specification
stands behind small functions marked `external_body`; their comments say what is
taken for granted.

`app/` is the program: threads, files and the emulator itself, with a plain console
front end.
