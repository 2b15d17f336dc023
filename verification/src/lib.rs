//! HorriPlayer's playback core.
//!
//! Three threads play music: a decoder, an output callback and an analyser,
//! with lock-free rings between them. This library holds what they decide:
//!
//! * [`deck`] is the decoder's side: commands, loading, seeking, draining and
//!   the gapless hand-over. [`stream`] says what an opened file takes to play,
//!   [`frames`] brings decoded frames into the device's layout and into the ring.
//! * [`mixer`] is the callback's side: what reaches the device, and which
//!   position of which track that is. [`eq`] and [`level`] decide when filters
//!   and volume have anything to do.
//! * [`monitor`] is the analyser's side, [`engine`] the UI's, and [`shared`] the
//!   state that all of them exchange. [`rings`] describes the rings.
//! * [`source`], [`http_source`], [`probe`] and [`proxy`] are about files and
//!   streams: where they come from, how they are read over HTTP, what their tags
//!   say, and how the UI reaches them. [`base64`], [`names`] and [`text`] hold
//!   the formats these are written in.
//!
//! Samples, levels and gains travel as the bit patterns of `f32` values, seconds
//! as those of `f64` values. The arithmetic on them, the devices, the files and
//! the network stand outside of this library.

pub mod base64;
pub mod deck;
pub mod engine;
pub mod eq;
pub mod frames;
pub mod http_source;
pub mod level;
pub mod mixer;
pub mod monitor;
pub mod names;
pub mod probe;
pub mod proxy;
pub mod rings;
pub mod shared;
pub mod source;
pub mod stream;
pub mod text;
