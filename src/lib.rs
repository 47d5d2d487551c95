//! Narration of a social-network event stream: which events are spoken, with
//! which author name (through a time-bounded metadata cache), in what words,
//! and how many synthesis attempts each utterance gets.
pub mod config;
pub mod event;
pub mod metadata;
pub mod narrator;
pub mod subscription;
pub mod transformer;
pub mod tts;
