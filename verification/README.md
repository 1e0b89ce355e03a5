# window_switcher

The decisions of an Alt-Tab style window switcher for Windows, verified with
Verus, and the Windows program around them.

`src/` is the verified library:

- `app.rs`: the state of the switcher (the app switcher, the window cycle, the
  window preview) and how each event changes it; every transition returns the
  screen actions to perform, in order.
- `window_order.rs`: the order in which an application's windows are cycled
  through while the hotkey is held, kept with an `indexmap::IndexSet`.
- `painter.rs`: where the app switcher's icons and the window switcher's
  thumbnails, frames and titles go on the monitor, and which of them a point
  hits.
- `message.rs`: what each window message sent to the switcher asks for.

`app/` is the Windows side: the message loop and window procedure, the GDI+
and DWM painting, and the system calls. It needs the `windows` crate and a
Windows target.

`tests/` exercise the library on concrete layouts, cycles and messages.
