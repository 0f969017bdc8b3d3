# crosshair

A transparent, click-through crosshair overlay for Windows, configured from a
small web page served on `127.0.0.1:25432`, from a notification-area menu and
by a global hotkey.

The library under `src/` is verified with Verus:

- `color` — the colour setting (`#rrggbb`) to GDI's `0x00BBGGRR`, never pure black.
- `settings` — the configuration, its defaults, the hotkey's modifier mask and key code.
- `geometry` — the crosshair's rectangles and the window's position on its monitor.
- `window` — what the overlay window does for each event and how its settings change.
- `text`, `request`, `connection` — reading an HTTP request: head lines, the
  announced body length, the request line, and the read loop as a state machine.
- `service` — the settings service: routes, responses, their effects.
- `autostart` — which registry statuses count as success.
- `laws` — properties that span these functions.

`app/` holds the Win32 window, the sockets and threads, the JSON and the
registry, and performs what the library decides.
