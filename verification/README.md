# ra-metal-capture

Captures a Metal frame trace (`.gputrace`) from RetroArch, or renders a
static image through a shader preset with librashader's Metal runtime and
records that instead.

The decisions the tool makes are a library verified with Verus; the
program around it launches processes, talks to RetroArch over UDP, and
drives Metal.

## Layout

- `src/` is the verified library.
  - `config`, `path`, `text`: reading `retroarch.cfg` text, path
    arithmetic on strings, and the character-level helpers the rest use.
  - `layout`, `state`, `core_path`: where RetroArch keeps cores, system
    files and save states, with the user's config consulted only when
    the default place has nothing.
  - `retroarch`: the run config and appendconfig RetroArch is launched
    on (with the proofs of what RetroArch reads back from them), the
    app bundle, `gpucapture list` parsing, the paused capture's closing
    advances, and the UDP status replies.
  - `launch`, `cli`, `display`, `bundle`, `interrupt`, `preset`: the
    command line, window sizing, the output bundle, Ctrl-C handling and
    shader parameter overrides.
  - `hosted`: the in-process backend's checks, image decoding, save-state
    decoding, and a libretro frontend's environment answers and pixel
    conversions.
  - `hdr`, `image_core`, `vendor`: pixel packing, the test core's format
    choice, and preparing the vendored libretro header's comments.
- `app/` is the executable: argument parsing with clap, processes, files,
  sockets, floating-point sizing, and Metal.
- `tests/` runs the library on concrete inputs.
