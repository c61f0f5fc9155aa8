# ETF image tools: verified core

The logic of three image tools (HDRI Merge, LUT Maker, OCIO Maker) as a Verus
library, with a small command-line front end.

- `src/` is the library, verified by Verus:
  - `histogram.rs`, `job_helpers.rs`: channel histograms, preview sizes, the Exif
    exposure settings read from an image file, loading a 1D LUT file by its
    extension (through `colorbox`), and the working directory that follows
    picked files.
  - `hdri_merge.rs`: the HDRI Merge view and image list, image removal and the
    one-resolution rule.
  - `lut_maker.rs` and `lut_maker/`: the transfer function and export choices,
    the image set lists, and the controls of the three modes.
  - `ocio_maker.rs` and `ocio_maker/`: base presets, gamuts, color spaces and
    their saved text form, the editor's list, tabs and menu, and the configuration
    header that an export writes and a later load reads back.
  - `text.rs`: whitespace, trimming and line splitting as the standard library
    does them.
- `tests/`: tests of the library on concrete values.
- `app/`: the command-line front end: file access, image decoding, writing
  LUT files, and the floating-point work (camera transfer curves, generating and adjusting
  1D LUTs, image previews).

The central property, proved in `ocio_maker/config_file.rs`
(`lemma_export_then_load`): opening a configuration that an export wrote gives
back its base preset, working gamut and color spaces, each transfer function
path taken in terms of the configuration's folder.
