//! Vocabulary of location verification.
use vstd::prelude::*;

verus! {

/// Source a location fix came from.
#[derive(Clone, Copy, Debug, PartialEq, Eq, Structural)]
pub enum VerificationMethod {
    GPS,
    CellTower,
    WiFi,
    Hybrid,
    VideoAnalysis,
}

/// Why a zone excludes betting.
#[derive(Clone, Copy, Debug, PartialEq, Eq, Structural)]
pub enum ExclusionType {
    /// Where the event is happening.
    EventLocation,
    /// Legal restrictions.
    RestrictedRegion,
    /// Near the venue.
    VenueProximity,
    /// Where competitors are located.
    CompetitorZone,
}

} // verus!
