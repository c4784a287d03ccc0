# Dash recorder library

Verified logic of a two-camera dash recorder that films in short clips with
ffmpeg and files accident and manual saves where a local web viewer finds
them (`videos/<front|rear>/<continuous|event|manual>/`).

- `src/` — the library, verified with Verus:
  - `text`: character-level string operations (trim, ASCII upper case,
    replace, comparison) with their meaning over `Seq<char>`;
  - `paths`: POSIX path joining and the `*.mp4` test;
  - `config`: settings from an environment snapshot, the folder layout,
    clip and thumbnail names, and laws of the naming scheme;
  - `ffmpeg`: the ffmpeg argument lists and the polling decision;
  - `command`: keyboard commands;
  - `recorder`: recent clips and waiting saves, with the laws that a save
    keeps the clips around its request;
  - `order`, `cleanup`: the name order and which old clips are deleted;
  - `save`: where a completed save copies its clips.
- `app/` — the program: processes, files, threads and standard input.
- `tests/` — tests of the library on concrete values.
