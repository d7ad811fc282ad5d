# cosmic_viewer

The verified core of an image viewer for the COSMIC desktop, written in
Verus. Each public function carries a contract that Verus proves.

## Layout

- `src/` — the library.
  - `cache.rs`: the least-recently-used cache of decoded images and
    thumbnails (on top of the `lru` crate) and the sets of images being
    decoded.
  - `nav.rs`: grid and arrow-key navigation, which images to decode next,
    and what a change on disk does to the cache.
  - `grid.rs`: columns, rows and cells of the thumbnail grid.
  - `input.rs`: where a key press goes, given the state of the window.
  - `loader.rs`: decoding a file's contents with the decoders its type
    calls for, in order (with the `image` and `zune-image` crates), the JPEG
    scaling factor, locating and decoding the EXIF thumbnail inside a JPEG
    file and reading its resolution (with the `kamadak-exif` crate), and
    resizing RGBA pixels (with the `fast_image_resize` crate).
  - `paths.rs`: the key of a path, by its components, under which the
    cache looks it up.
  - `imaging.rs`: quarter turns and crops of decoded images (with the
    `image` crate) and the replay of committed edits.
  - `history.rs`: the undo/redo history of edits.
  - `session.rs`: the editing session: history, active tool, its live
    preview and drag state, and committing or cancelling the tool.
  - `wallpaper.rs`: reading and writing the desktop's wallpaper settings
    files.
  - `keybinds.rs`, `config.rs`, `tools.rs`, `toolbar.rs`, `messages.rs`,
    `clipboard.rs`, `text.rs`: menu actions, the messages they send and
    their shortcuts, preferences, editing tools, toolbar classes, messages,
    clipboard offers, text annotation helpers.
  - `formats.rs`, `numfmt.rs`, `strings.rs`, `chars.rs`: file-type names,
    number and file-size formatting, and string utilities.
- `tests/` — tests of the library on concrete values.
- `app/` — a command-line program around the library: file reading,
  wallpaper files, and the floating-point geometry the library leaves out.
