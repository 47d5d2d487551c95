use vstd::prelude::*;

verus! {

/// Where the speech backend lives and how many synthesis attempts one utterance gets.
pub struct VoiceVoxConfig {
    pub url: String,
    pub max_retry: u64,
}

/// How event content is turned into narration text.
pub struct TransformConfig {
    pub url_alternative_text: String,
    pub max_length: usize,
    pub ellipsis_text: String,
    pub read_name: bool,
}

/// Relays to listen on, the staleness threshold in seconds, and the optional own identity.
pub struct NostrConfig {
    pub relays: Vec<String>,
    pub old_threshold_seconds: u64,
    pub pubkey: Option<String>,
}

/// The whole configuration, read once at startup.
pub struct Config {
    pub voicevox: VoiceVoxConfig,
    pub nostr: NostrConfig,
    pub speaker: u32,
    pub transform: TransformConfig,
}

} // verus!
