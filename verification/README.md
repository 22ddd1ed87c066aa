# tuxedo_control

Hardware control for TUXEDO and Clevo notebooks: fan curves and a fan daemon, CPU
frequency, governor, boost and SMT, keyboard backlight, screen brightness, battery charge
thresholds, TDP profiles, and the configuration of the control center's profiles.

The library in `src/` is verified with Verus. Its functions do not touch the machine
themselves: they compute what to read and write (`/dev/tuxedo_io` requests, sysfs writes)
and interpret what was read, and their contracts say exactly what they do.

- `text` – whitespace, words, lines and decimal numbers over strings.
- `types` – profiles, settings and the configuration, with their defaults.
- `fan_curve` – fan curves: ordering, interpolation, validation, the curve editor.
- `fan_daemon` – the periodic application of fan curves.
- `tuxedo_io` – the `/dev/tuxedo_io` interface: detection, requests, raw values.
- `battery_control` – charge thresholds and charge types.
- `hardware_control` – CPU, keyboard, screen and fan settings as sysfs writes.
- `hardware_detection` – reading CPU, GPU, battery, Wi-Fi and storage information.
- `app_state` – the control center's state: profiles, settings, shortcuts, tray.

`app/` is the daemon around the library: it performs the reads and writes the library
asks for and serves the D-Bus interface `com.tuxedo.Control`. `tests/` holds the tests.
