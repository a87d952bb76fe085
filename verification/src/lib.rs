//! Header parsing and playback decisions for a small WAV music player.
//!
//! The library reads the RIFF/WAVE header of a track, decodes the first
//! frame header of an MPEG-1 Layer III stream, turns PCM bytes into
//! samples, and decides what the player does for each user command.
pub mod mp3;
pub mod text;
pub mod wav;
pub mod player;
pub mod pcm;
pub mod playlist;
