# musicplayer

A small `.wav` music player for Linux (ALSA), with its file-format and
playback logic written in Verus and verified.

- `src/` is the verified library:
  - `wav.rs` reads the RIFF/WAVE header (fixed format fields, the chunk walk to
    the `data` chunk, and the `INAM`/`IART`/`IPRD` tags) from a file's bytes;
  - `text.rs` turns tag bytes into text (lossy UTF-8, NUL characters dropped);
  - `mp3.rs` decodes the four-byte frame header of an MPEG-1 Layer III stream;
  - `pcm.rs` turns little-endian bytes into signed 16-bit samples;
  - `player.rs` maps typed lines to commands, commands to the shared state, and
    the state to the next step of the playback loop, with the laws of the playlist;
  - `playlist.rs` says which directory entries are tracks.
- `app/` is the program: it reads files and standard input, runs the two
  threads, and drives the sound device through the `alsa` crate.
- `tests/` runs the library on concrete inputs.

Commands: `P` play/pause, `S` skip, `V` previous, `R` rewind, `Q` quit.
Tracks are read from `tracks/`.
