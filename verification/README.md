# CapsLockRs

CapsLockRs turns CapsLock into a function layer on Windows: a short tap sends Esc, holding it
turns letters into cursor, selection and editing keys. F13, F14 and F15 click the left, right and
middle mouse button for as long as they are held.

`src/` is the verified core. Each module decides something and leaves the doing to its caller:

| module | decides |
| --- | --- |
| `engine` | what becomes of a key event, and what is remembered of it |
| `input` | what the keyboard hook does with an event, and what pausing changes |
| `injection` | which events type an action, click a button or probe the hook |
| `runtime` | what the clicker, injector, hook and watchdog threads do next |
| `install` | where the program lives, and the scheduled task that starts it |
| `update` | how an update stops the old worker and replaces it |
| `worker` | how a process becomes the one worker, and how it ends |
| `tray` | the icon, its menu and its loop |
| `launch`, `logging` | what a start of the program does, and what the log looks like |
| `text` | numbers, white space and UTF-16 |

The threads, the update, the worker and the tray are state machines: an action is performed outside, its
outcome is reported, and the next action follows. `engine_laws`, `input_laws` and
`injection_laws` prove what holds over whole runs; the other modules hold the laws about
themselves.

`app/` is the program around the core. Its `drive` modules perform what the core decides, its
`win32` modules make the calls into Windows.
