# Astera

Astera is an infinite-canvas Wayland compositor. Each output has its own ordered workspaces, each
workspace is an endless canvas, and a tiled window that is put somewhere pushes the others away
until none overlap.

The library in `src/` is written in Verus: what it does is stated in contracts and proved. The
program in `app/` is ordinary Rust around it: sockets, files, the event loops of the two backends,
and the floating-point geometry along a ray. The library asks for a position on a ray where it needs
one and proves what follows whatever the answer is. The native backend drives its hardware through a
trait, for which this build has no implementation.

## The library

- Geometry and layout: `geometry`, `rounding`, `viewport`, `model`, `workspace`, `push`, `layout`,
  with `stability` and `layout_laws` on what pushing achieves, and `viewport_laws`.
- The desktop: `outputs`, `desktop`, `transactions`, `directional_focus`, with `desktop_laws`,
  `survival`, `homecoming`, `counting`, `assurance`, `steadiness`, `tidiness` and `transaction_laws`
  on what its operations keep.
- Frames: `runtime` (when an output is drawn, with `runtime_laws` and `schedule_laws`),
  `presentation` and `devices` (frames, fences, power and sessions of the native backend),
  `connectors` and `native_policy` (what is plugged in), `nested`, `event_queue`, `scene` and
  `stacking`.
- Protocol: `wire` (its versions), `ipc` (frames), `connection` and `server`, `snapshot`,
  `compositor` (commands), `messages`, `socket`, `client`, `overview`, `summary`.
- Configuration: `document`, `scan`, `suggestions` (with `edit_laws`), `location`, `settings`,
  `bindings`, `actions`, `config` (with `config_laws`), `launch` and `backend`.
- Containers: `id_map`, `ranking`, `listing`, `text`.

Modules whose names end in `_laws` state what holds of several functions together.

Executable types have a mathematical view (`DesktopView` of `Desktop`, for instance). An operation is
a function on views, and the contract of the executable method says that it computes that function.

What is trusted is marked `external_body` or `assume_specification` and says so in its comment: the
KDL parser, the decoding of UTF-8, and the quoting and appending of text.
