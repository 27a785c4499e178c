# xfwl4_udev

The udev (TTY) backend of the xfwl4 Wayland compositor. What the backend decides
is verified with Verus; what it does to the system is ordinary Rust around that.

- `src/` is the verified library. `startup`, `gpu`, `bring_up` and `activation`
  say step by step what to do next, given what came of the last action. `data`
  and the modules that extend it (`outputs`, `dmabuf`, `frames`, `session`) hold
  what is known of devices and surfaces. Functions named `law_*` state what holds
  of the library as a whole.
- `tests/` runs the library on concrete values.
- `app/` carries the actions out with smithay. `app/native_seat.rs` binds
  libseat, udev and libinput, and is compiled with `--cfg native_seat`; EGL
  buffers of clients need `--cfg egl`.
