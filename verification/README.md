# Frame Motion Studio

A desktop tool that composites the moving parts of a video into one still image:
the first frame is the background, and at every sampling interval the regions that
moved are copied onto it.

- `src/` is the verified library (Verus): the composite parameters and presets, the
  sampling of a run, the regions it keeps and how it ends (`composite`), the video's properties and
  the naming of outputs (`video`, `paths`), the numerals shown in the window (`text`,
  and `float_text` for the exact text of floating-point values), and the state machine
  of the window (`app`), whose every step is stated over `AppView`.
- `app/` is the program around it: the egui window, the file dialogs, and the OpenCV
  frame loop, which asks the library what to do with each frame.
- `tests/` exercises the library on concrete values.

The sampling schedule runs on exact integers: the frame rate is the exact value of the
double the reader reported, taken from its bit pattern as a fraction, and the interval
is in milliseconds. The floating-point figures that the window shows (frame rate, length,
progress) are carried as their IEEE 754 bit patterns and written out exactly as Rust's
`{:.N}` formatting writes them.
