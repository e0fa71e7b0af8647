//! Observations: what a sensor reports about a signal.

use vstd::prelude::*;

use crate::model::id::{EntityId, SignalId};
use crate::model::scalar::{is_real_of, real_of};
use crate::model::world::Position;

verus! {

#[derive(Debug, Clone, Copy, PartialEq, Eq, Hash, Structural)]
pub enum ObservationQuality {
    Clear,
    Noisy,
    Degraded,
    Unreliable,
}

/// A sensor's report of a signal: who observed it, when, and what was
/// estimated about it.
#[derive(Debug, Clone, Copy)]
pub struct Observation<R> {
    pub observer_id: EntityId,
    pub estimated_source_id: Option<EntityId>,
    pub signal_id: Option<SignalId>,
    pub estimated_channel: Option<u32>,
    pub estimated_frequency_mhz: Option<R>,
    pub signal_strength_db: R,
    pub noise_level_db: R,
    pub confidence: R,
    pub quality: ObservationQuality,
    pub timestamp: u64,
    pub position_estimate: Option<Position<R>>,
    pub uncertainty_position: R,
}

/// Where a signal-to-noise ratio stands among the bands that decide the
/// quality of a detection.
#[derive(Debug, Clone, Copy, PartialEq, Eq, Hash, Structural)]
pub enum SnrBand {
    /// Above 20 dB.
    Strong,
    /// Above 10 dB, up to 20 dB.
    Moderate,
    /// Up to 10 dB.
    Weak,
}

/// The quality of a detection in band `band`.
pub open spec fn band_quality(band: SnrBand) -> ObservationQuality {
    match band {
        SnrBand::Strong => ObservationQuality::Clear,
        SnrBand::Moderate => ObservationQuality::Noisy,
        SnrBand::Weak => ObservationQuality::Degraded,
    }
}

/// The quality of a detection in band `band`.
pub fn quality_for(band: SnrBand) -> (q: ObservationQuality)
    ensures
        q == band_quality(band),
{
    match band {
        SnrBand::Strong => ObservationQuality::Clear,
        SnrBand::Moderate => ObservationQuality::Noisy,
        SnrBand::Weak => ObservationQuality::Degraded,
    }
}

impl<R> Observation<R> {
    /// The observation as a sensor reports a detection: with `confidence`,
    /// and the quality of the band its signal-to-noise ratio falls in.
    pub fn graded(self, confidence: R, band: SnrBand) -> (o: Self)
        ensures
            o == (Observation { confidence, quality: band_quality(band), ..self }),
    {
        let mut o = self;
        o.confidence = confidence;
        o.quality = quality_for(band);
        o
    }
}

impl<R: From<i32>> Observation<R> {
    /// The observation as a sensor reports a miss or a rejection: no
    /// confidence, unreliable, with no estimated source and no signal.
    pub fn rejected(self) -> (o: Self)
        ensures
            o == (Observation {
                confidence: o.confidence,
                quality: ObservationQuality::Unreliable,
                estimated_source_id: None,
                signal_id: None,
                ..self
            }),
            is_real_of(o.confidence, 0),
    {
        let mut o = self;
        o.confidence = real_of(0);
        o.quality = ObservationQuality::Unreliable;
        o.estimated_source_id = None;
        o.signal_id = None;
        o
    }
}

} // verus!
