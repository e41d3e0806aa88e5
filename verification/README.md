# rpg_battle

The logic of a small turn-based battle scene, verified with Verus.

`src/` is the library:

- `runtime`: the cooperative task runtime that drives scripted scenes. It
  decides which task is polled next, parks pending tasks under the id of
  their last poll and brings them back when a waker with that id fires.
- `frame`, `task`: waiting for the next frame or for some time, and the
  hand-over of a task's output to whoever awaits it.
- `keyframe`: stable sorting of keyframes by frame and locating the pair of
  keyframes around a frame.
- `input`: which keys are held down.
- `menu`, `submenu`: the command menu ring and the scrolling submenu.
- `battle`: items, skills, commands and the hit-point rules.

`app/` is the game around it: the window, drawing, the entity world, the
animation systems (which work in floating point), loading animations from
JSON, and the futures that the runtime's tasks run.
