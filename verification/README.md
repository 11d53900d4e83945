# noshare-cover

Core of a Hyprland plugin: windows with `no_screen_share` are covered by a picture, a GIF or a
video in a capture of the screen.

- `src/` is the library, verified with Verus. It holds the rules: settings and window rules,
  the registry of covers, the playback clock, GIF compositing, containers and bitstreams, YUV
  conversion, the choice of a decoder, what the decoding thread does next, rectangles of other
  plugins.
- `app/` is the plugin around it: the C interface, files and directories, threads, floating
  point, and the calls into decoders and drivers. `app/vaapi_helper.rs` is a library of its
  own, which the plugin loads when a video is decoded through VA-API.
- `tests/` runs the library.

Times are in nanoseconds; floating-point numbers cross the library as their bits.

What an outside crate or a part of the program answers comes into the library in one of two
ways: as the result of a small trusted function whose contract says what is believed of it
(`src/media/gif_file.rs`, `src/media/still.rs`, `src/text.rs`), or as an argument.
