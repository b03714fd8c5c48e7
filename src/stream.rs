//! Vocabulary of live streams.
use vstd::prelude::*;

verus! {

/// Descriptive data of a stream.
pub struct StreamMetadata {
    pub category: String,
    pub tags: Vec<String>,
    pub estimated_duration_minutes: u32,
    pub content_rating: String,
    pub analytics_enabled: bool,
}

/// Lifecycle state of a stream.
#[derive(Clone, Copy, Debug, PartialEq, Eq, Structural)]
pub enum StreamState {
    Listed,
    Pledging,
    Active,
    Concluded,
    Failed,
}

/// What happened on a stream.
#[derive(Clone, Copy, Debug, PartialEq, Eq, Structural)]
pub enum ActivityType {
    PledgeReceived,
    ViewerJoined,
    ViewerLeft,
    StreamActivated,
    StreamConcluded,
    BetPlaced,
}

/// Playback and feature settings of a stream.
pub struct StreamSettings {
    pub quality: String,
    pub frame_rate: u32,
    pub enable_cv: bool,
    pub enable_betting: bool,
    pub max_viewers: Option<u32>,
}

} // verus!
