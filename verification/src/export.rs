//! Choosing what an export holds: the format, the age limit, and the
//! quality filter.

use vstd::prelude::*;
use crate::quality::QcMetrics;
use crate::text::same_text;

verus! {

/// Seconds in a day.
pub const SECS_PER_DAY: i64 = 86_400;

/// What an export writes.
#[derive(Clone, Copy, Debug, PartialEq, Eq)]
pub enum ExportFormat {
    /// The list of recordings, as JSON.
    Json,
    /// The audio files.
    Wav,
    /// Both.
    Both,
}

/// The format a text names: `json`, `wav` or `both`.
pub open spec fn format_of(text: Seq<char>) -> Option<ExportFormat> {
    if text == "json"@ {
        Some(ExportFormat::Json)
    } else if text == "wav"@ {
        Some(ExportFormat::Wav)
    } else if text == "both"@ {
        Some(ExportFormat::Both)
    } else {
        None
    }
}

impl ExportFormat {
    /// Reads the name of a format.
    pub fn parse(text: &str) -> (format: Option<ExportFormat>)
        ensures
            format == format_of(text@),
    {
        if same_text(text, "json") {
            Some(ExportFormat::Json)
        } else if same_text(text, "wav") {
            Some(ExportFormat::Wav)
        } else if same_text(text, "both") {
            Some(ExportFormat::Both)
        } else {
            None
        }
    }

    /// Whether the list of recordings is written.
    pub fn writes_json(&self) -> (yes: bool)
        ensures
            yes == (*self == ExportFormat::Json || *self == ExportFormat::Both),
    {
        match self {
            ExportFormat::Json => true,
            ExportFormat::Wav => false,
            ExportFormat::Both => true,
        }
    }

    /// Whether the audio files are written.
    pub fn writes_wav(&self) -> (yes: bool)
        ensures
            yes == (*self == ExportFormat::Wav || *self == ExportFormat::Both),
    {
        match self {
            ExportFormat::Json => false,
            ExportFormat::Wav => true,
            ExportFormat::Both => true,
        }
    }
}

/// The quality filter of an export. A limit that is absent lets every
/// recording through. All three limits are in thousandths.
#[derive(Clone, Copy, Debug, PartialEq, Eq)]
pub struct QualityFilter {
    /// Least signal-to-noise estimate.
    pub min_snr: Option<i64>,
    /// Greatest clipping percentage.
    pub max_clipping: Option<u32>,
    /// Least voice-activity ratio.
    pub min_vad: Option<u32>,
}

impl QualityFilter {
    /// Whether metrics are within every limit that is set.
    pub open spec fn lets_through(&self, metrics: QcMetrics) -> bool {
        &&& self.min_snr matches Some(min) ==> metrics.snr_db >= min
        &&& self.max_clipping matches Some(max) ==> metrics.clipping_pct <= max
        &&& self.min_vad matches Some(min) ==> metrics.vad_ratio >= min
    }

    /// Whether a recording with these metrics is exported.
    pub fn accepts(&self, metrics: &QcMetrics) -> (accepted: bool)
        ensures
            accepted == self.lets_through(*metrics),
    {
        if let Some(min) = self.min_snr {
            if metrics.snr_db < min {
                return false;
            }
        }
        if let Some(max) = self.max_clipping {
            if metrics.clipping_pct > max {
                return false;
            }
        }
        if let Some(min) = self.min_vad {
            if metrics.vad_ratio < min {
                return false;
            }
        }
        true
    }
}

/// The creation time from which recordings are exported: `days` days
/// before `now`.
pub fn export_start(now: i64, days: u32) -> (start: i64)
    requires
        now - days * SECS_PER_DAY >= i64::MIN,
    ensures
        start == now - days * SECS_PER_DAY,
{
    now - (days as i64) * SECS_PER_DAY
}

} // verus!
