//! Step sequencing for a small synthesizer: the musical clock, the layout of a
//! rendered bar, and the order in which playback queues, starts, drains and
//! stops every channel.

/// Waveform kinds and the per-sample layout of a channel's bar.
pub mod system;
/// Tempo, step length and samples per step.
pub mod clock;
/// The order in which playback queues, starts, drains and stops the channels.
pub mod playback;
