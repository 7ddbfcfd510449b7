# hyprland-crt-shader

Control panel and toggle command for the Hyprland CRT screen shader.

- `src/` is the verified library (Verus):
  - `text.rs`: character-sequence search, Unicode whitespace and trimming;
  - `shader.rs`: reading and rewriting the `const float KEY = value;`
    declarations of the user's shader copy, with the read-after-write and
    last-write-wins laws;
  - `layout.rs`: shader texts laid out as a run of declarations, with the
    law that writing every value and reading each back gives the values;
  - `paths.rs`: where the installed shader and the user's copy live;
  - `params.rs`: the table of tunable constants and their groups;
  - `hypr.rs`: the `hyprctl` commands, effect detection, the apply
    sequence and the live-preview debouncer as step functions, the toggle
    command and status lines.
- `app/` holds the program around it: environment, files, `hyprctl`
  processes, the debounce thread and the Slint window.
- `tests/` exercises the library on concrete shader texts and commands.
