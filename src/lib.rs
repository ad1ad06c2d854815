//! A tact-based sine synthesizer: pitch names, tempo and composition shape,
//! and the mixing of simultaneous notes and parallel channels.
//!
//! The mixers are generic over the sample type; the caller supplies the
//! per-sample arithmetic as a closure.
pub mod backend;
pub mod error;
pub mod mixer;
pub mod pitch;
pub mod render;
pub mod score;

pub use backend::{backend_kind, BackendKind};
pub use error::SynthError;
pub use mixer::{mix_beat, mix_measure, shortest_len};
pub use pitch::{get_tone_table, Pitch, ToneTable};
pub use render::{render_measure, render_tact};
pub use score::{check_shape, tempo};
