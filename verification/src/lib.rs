//! The core of an ebook reader that plays recorded chapters and reads
//! text aloud.
//!
//! - [`playback`] serves the commands that drive a chapter's playback.
//! - [`speech`] and [`engine`] hold the speech engines and keep a loaded
//!   one at hand.
//! - [`chunker`] cuts synthesized audio into frames, and [`sync_map`]
//!   finds the text position for a playback time.
//! - [`read_aloud`], [`timing`] and [`session`] read sentences aloud word
//!   by word and keep the reader's place.
//! - [`model`], [`library`], [`paths`], [`sorting`], [`outline`],
//!   [`sections`], [`text`], [`words`] and [`display`] make books of what
//!   is found on disk and put them into words.
//!
//! Everything here computes on plain values. Devices, files, threads and
//! the clock belong to the program that uses the library.

pub mod chars;
pub mod chunker;
pub mod display;
pub mod engine;
pub mod library;
pub mod model;
pub mod outline;
pub mod paths;
pub mod playback;
pub mod read_aloud;
pub mod sections;
pub mod session;
pub mod sorting;
pub mod speech;
pub mod sync_map;
pub mod text;
pub mod time;
pub mod timing;
pub mod words;
