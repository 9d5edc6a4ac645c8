//! Per-session preferences: download mode, quality targets, codec
//! exclusions and an optional trim interval. Every field has a total
//! default, so a session with no recorded preferences behaves exactly
//! like one holding the defaults explicitly.

use vstd::prelude::*;

use crate::text::{parse_i64, parse_i64_spec};

verus! {

/// Validation failure for malformed trim-interval arguments: one of the
/// two offsets is not a machine integer.
#[derive(Debug, Clone, Copy, PartialEq, Eq, Structural)]
pub struct IntervalParseError;

/// Download mode: determines which branch of the selection engine runs.
#[derive(Debug, Clone, Copy, PartialEq, Eq, Structural)]
pub enum Mode {
    Video,
    Audio,
}

/// Quality target: the ranking direction applied during selection.
/// `Awful` additionally disables the minimum-resolution floor in video mode.
#[derive(Debug, Clone, Copy, PartialEq, Eq, Structural)]
pub enum Quality {
    Low,
    High,
    Awful,
}

/// Inclusive trim interval, in seconds from the start of the media.
///
/// Only arithmetic parse failures are rejected when an interval is read
/// from command text; an interval with `end <= start` is accepted verbatim
/// and left for the trimming executor to refuse at execution time.
#[derive(Debug, Clone, Copy, PartialEq, Eq, Structural)]
pub struct CutInterval {
    pub start: i64,
    pub end: i64,
}

impl CutInterval {
    /// Reads an interval from two textual offsets. Each must be a signed
    /// decimal integer; only arithmetic parse failures are rejected, so
    /// an interval with `end <= start` passes through verbatim.
    pub fn parse(s: &str, e: &str) -> (r: Result<Self, IntervalParseError>)
        ensures
            match (parse_i64_spec(s@), parse_i64_spec(e@)) {
                (Some(start), Some(end)) => r == Ok::<CutInterval, IntervalParseError>(
                    CutInterval { start, end },
                ),
                _ => r == Err::<CutInterval, IntervalParseError>(IntervalParseError),
            },
    {
        let start = match parse_i64(s) {
            Some(v) => v,
            None => {
                return Err(IntervalParseError);
            },
        };
        let end = match parse_i64(e) {
            Some(v) => v,
            None => {
                return Err(IntervalParseError);
            },
        };
        Ok(CutInterval { start, end })
    }
}

/// Mathematical model of a preference record: the codec-exclusion list is
/// abstracted to a sequence of character sequences.
#[verifier::ext_equal]
pub struct UserConfigV {
    pub mode: Mode,
    pub aquality: Quality,
    pub vquality: Quality,
    pub vcodec_exclude: Seq<Seq<char>>,
    pub cut_interval: Option<CutInterval>,
}

/// One session's whole preference record. Mutations are whole-record
/// replaces derived from the prior whole record.
#[derive(Debug)]
pub struct UserConfig {
    pub mode: Mode,
    pub aquality: Quality,
    pub vquality: Quality,
    pub vcodec_exclude: Vec<String>,
    pub cut_interval: Option<CutInterval>,
}

impl View for UserConfig {
    type V = UserConfigV;

    open spec fn view(&self) -> UserConfigV {
        UserConfigV {
            mode: self.mode,
            aquality: self.aquality,
            vquality: self.vquality,
            vcodec_exclude: self.vcodec_exclude.deep_view(),
            cut_interval: self.cut_interval,
        }
    }
}

/// The total default preference record: video mode, low quality on both
/// tracks, no exclusions, no trim interval.
pub open spec fn default_prefs() -> UserConfigV {
    UserConfigV {
        mode: Mode::Video,
        aquality: Quality::Low,
        vquality: Quality::Low,
        vcodec_exclude: Seq::empty(),
        cut_interval: None,
    }
}

impl UserConfig {
    pub fn new() -> (r: UserConfig)
        ensures
            r@ == default_prefs(),
    {
        let r = UserConfig {
            mode: Mode::Video,
            aquality: Quality::Low,
            vquality: Quality::Low,
            vcodec_exclude: Vec::new(),
            cut_interval: None,
        };
        proof {
            assert(r@ =~~= default_prefs());
        }
        r
    }
}

impl Default for UserConfig {
    fn default() -> (r: Self)
        ensures
            r@ == default_prefs(),
    {
        UserConfig::new()
    }
}

impl Clone for UserConfig {
    fn clone(&self) -> (r: Self)
        ensures
            r@ == self@,
    {
        let excl = self.vcodec_exclude.clone();
        proof {
            assert forall|i: int| 0 <= i < self.vcodec_exclude@.len() implies excl@[i]
                == self.vcodec_exclude@[i] by {
                assert(cloned::<String>(self.vcodec_exclude@[i], excl@[i]));
            }
            assert(excl@ =~= self.vcodec_exclude@);
        }
        let r = UserConfig {
            mode: self.mode,
            aquality: self.aquality,
            vquality: self.vquality,
            vcodec_exclude: excl,
            cut_interval: self.cut_interval,
        };
        proof {
            assert(r@ =~~= self@);
        }
        r
    }
}

} // verus!
