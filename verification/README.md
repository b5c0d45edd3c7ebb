# bah

The logic of a desktop shell for Hyprland: the bar, the notification service and
its tray, the clipboard history, the device control center, display layouts,
wallpapers and screenshots.

- `src/` is the library. Every function in it carries a contract that Verus
  proves; what it has from other crates goes through small functions whose
  contracts are stated beside them.
- `tests/` runs the library on concrete values.
- `app/` is the program around it: windows, sockets, D-Bus, files and processes.
