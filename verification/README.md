# simple_voice_cleaner

A real-time voice cleaner plugin (light denoiser, vocal rider, 75 Hz high-pass,
output gain, safety limiter) whose settings are saved to and loaded from a
plain-text file.

- `src/` is the verified library: the settings file format.
  - `text.rs`: Unicode whitespace, trimming, ASCII lowering and searching over
    `char` sequences.
  - `settings.rs`: the settings, their names, reading a file into its
    assignments, reading on/off values, applying assignments to the three
    switches, and writing assignments back as text.
  - `properties.rs`: proofs that written files, names and switches read back
    unchanged, and that lines assigning nothing change nothing.
- `tests/` runs the library on concrete inputs.
- `app/` is the plugin itself (audio processing, editor, file access), built on
  `nih_plug` and `nih_plug_egui`; it uses the library to read and write the
  settings file.
