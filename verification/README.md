# hermes_launcher

The verified core of the USB-portable Windows launcher for the Hermes agent.

- `src/` is the verified library: reading the dashboard token file,
  decoding `wsl.exe` output (UTF-16 or UTF-8), reading numbers from
  `reg query` output for the self-check, naming the per-stick WSL
  distribution, building the argument lists and error texts of the commands,
  the tray's session settings and exit sequences, and the boot sequence as a
  state machine (`boot::boot_step`) with its laws.
- `app/` is the Tauri program around it: it runs the processes, touches the
  file system, drives the window and the tray, and feeds what happened back
  into the library.
- `tests/` runs the library on concrete inputs.
