# apex_road

The rules of the APEX / ROAD time-trial racer, as a library whose behaviour is
stated in contracts and proved, and the game around it.

- `src/` is the verified library: the track text format (line splitting,
  tokenizing, the syntax of every command, whole-file reading with its
  1 MB limit), ordered checkpoint timing, command-line options, record file
  names, the instrument readouts, keyboard and overlay handling, window
  focus, the driving mode (auto driver, demo, mouse or keyboard, and which
  runs may save a record), the course switcher, scenery scatter values and
  test fixture names.
- `tests/` runs the library on concrete values.
- `app/` is the game itself: the window, rendering, the vehicle and track
  geometry (all floating point), file access and the main loop. The loop's
  decisions on overlays, driving mode, record eligibility, course order and
  timing are the library's; what it judges itself works on floating-point
  values (positions, speeds, times and the preview distance's range).
