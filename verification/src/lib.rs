//! Streaming speech-to-text orchestration: silence padding of the input
//! waveform, fixed-size frame extraction for a stateful streaming decoder,
//! and an event-driven assembler that turns decoder events into a transcript
//! with optional word timestamps and end-of-turn markers.

pub mod assembler;
pub mod audio;
pub mod events;
pub mod health;
pub mod props;
pub mod render;
