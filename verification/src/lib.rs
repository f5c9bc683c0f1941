//! Direction of arrival of sound at a pair of microphones: the integer core
//! of the service (configuration values, speech-band
//! classification, the cross-correlation lag search and the reply decision).
use vstd::prelude::*;

pub mod audio;
pub mod config;
pub mod correlation;
pub mod server;
pub mod spectral_vad;

verus! {
} // verus!
