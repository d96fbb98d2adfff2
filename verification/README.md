# stunts_native

The Stunts native editor: a window with a canvas of polygons, text, images
and videos, a timeline of sequences, motion paths generated from a text
description, themes, screen capture and export.

## Layout

- `src/` is the verified library, checked by Verus:
  - `color`: the theme palette and reading `#RRGGBB` colours;
  - `themes`: applying a theme to the current sequence;
  - `ideas`: the catalogue of animation ideas and the motion form;
  - `motion`: turning a motion-path answer into animation data, and keeping
    one motion path per object;
  - `timeline`: arranging sequences in series and deciding an export;
  - `projects`: listing saved projects, newest first;
  - `capture`: capture-source options and reading a selection back;
  - `auth`: the sign-in state and token expiry;
  - `screens`: which panel the window shows after each event;
  - `frame`: what a frame of the canvas draws and which transforms it uploads;
  - `text_properties`, `visibility`, `input`, `text`: the text panel, which
    objects a sequence shows, input decisions, decimal text.
- `app/` is the program around it: the window and widgets, the GPU pipeline,
  the keyring, HTTP calls, file dialogs and the engine, none of which Verus
  sees.
- `tests/` runs the library on concrete values.
