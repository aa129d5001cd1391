//! A low-level library for building and reading WAVE audio byte streams.
//!
//! A [`wave_file::WaveFile`] gathers PCM sample bytes under fixed format
//! parameters and serialises them behind the canonical 44-byte RIFF/WAVE
//! header; [`wave_file::extract_pcm_data`] takes the sample bytes back out of
//! such a stream.
use vstd::prelude::*;

pub mod wave_file;
