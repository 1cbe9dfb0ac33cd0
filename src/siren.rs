//! Value types of the sampled-instrument engine: drums, guitars, samples
//! and voices.
pub mod drum;
pub mod guitar;
pub mod instrument;
pub mod sample;
pub mod voice;
