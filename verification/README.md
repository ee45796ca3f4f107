# squash

A desktop tool that losslessly compresses images dropped onto its window, shows a
thumbnail of each file and how much smaller it became.

- `src/` is the verified library (Verus):
  - `sbmc` — the `.sbmc` cache file format for decoded images: writing, reading, and
    the proofs that reading gives back what was written and rejects anything else.
  - `cache_path` — where a source image's cache file lives (hashed, hexadecimal name).
  - `decode`, `frame_list` and `pixels` — decoding source images with the `image` crate,
    keeping the frames in a `SmallVec`, and turning RGBA pixels into BGRA.
  - `dropzone`, `path_key`, `path_text`, `preview`, `path_formatter` — which dropped files
    are taken in (paths compared by their components, names and extensions read from the
    path's text), and the state and texts of each file's row.
  - `load_state`, `theme`, `utilities` — the background-load life cycle of an image
    element, palette choice, number formatting and a range-bounded random number.
- `app/` is the GPUI program around it: windows, rendering, file I/O, compression with
  `caesium`, and the float-based progress circle.
- `tests/` runs the library on concrete values.
