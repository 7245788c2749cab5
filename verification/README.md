# aethel_gui

The state machines and bookkeeping of the AethelGUI runtime, written in
Verus and proved against their contracts.

`src/` is the library:

- `scheduler`, `runtime`: when the event loop polls, sleeps until a deadline
  or waits for input, and what it does with each window event.
- `reuse`, `scratch`, `alloc_ops`: retained vectors, strings and bit sets,
  frame scratch pools and queues.
- `gpu_plan`, `clip`: draw planning from render batches, the order of
  regular batches and layered text, the instance buffer growth rule, and the
  clip stack's push/pop discipline.
- `command`, `binding`, `controller`, `sync_ops`: command queues, update
  flags, typed signals and shared application state.
- `input`, `interaction`, `widget_state`, `z_order`, `combo`: keys, buttons,
  focus, interaction events, button and checkbox state, panel stacking and
  combo box selection.
- `text_field`, `color_text`, `text_cache`: text editing buffers and a text
  box's per-frame click and key handling, the colour picker's fields, keys,
  clicks, parsers and formatters, and text layout cache bookkeeping.
- `ui`: responses, diagnostics, and stable widget keys (the same key in the
  same place gets the same id every frame; duplicates are reported and
  re-keyed).

`app/` is the ordinary Rust around it: the winit event loop, the clock,
event conversion, and the `f32` geometry (clip rectangles, hit testing,
pointer positions, caret placement, blink, scrolling, the colour picker's
HSV side) that the library leaves to its caller.
