//! The format catalog: a normalized in-memory view of the encodings
//! reported for one piece of media, and the merge of a video-only with an
//! audio-only encoding into one composite delivery unit.
//!
//! Optional numeric metadata (byte size, bitrate, vertical resolution) is
//! held as plain integers; an absent field means the source declared
//! nothing. Declared byte sizes are bounded by [`MAX_DECLARED_BYTES`] so
//! that the sum of two of them always fits the machine integer.

use vstd::prelude::*;
use vstd::string::StringExecFns;

verus! {

/// Upper bound on a declared byte size. Real declared sizes are far
/// below it; the bound keeps the sum of any two declared sizes within
/// `i64`.
pub const MAX_DECLARED_BYTES: i64 = 0x3fff_ffff_ffff_ffff;

/// Mathematical model of one encoding.
#[verifier::ext_equal]
pub struct FormatV {
    pub format_id: Seq<char>,
    pub ext: Seq<char>,
    pub vcodec: Option<Seq<char>>,
    pub acodec: Option<Seq<char>>,
    pub video_ext: Option<Seq<char>>,
    pub audio_ext: Option<Seq<char>>,
    pub filesize: Option<i64>,
    pub filesize_approx: Option<i64>,
    pub height: Option<i64>,
    pub tbr: Option<i64>,
    pub abr: Option<i64>,
}

impl FormatV {
    /// Declared byte sizes are nonnegative and bounded.
    pub open spec fn wf(self) -> bool {
        &&& (self.filesize is Some ==> 0 <= self.filesize->0 <= MAX_DECLARED_BYTES)
        &&& (self.filesize_approx is Some ==> 0 <= self.filesize_approx->0 <= MAX_DECLARED_BYTES)
    }
}

/// One concrete, downloadable representation of a media item.
#[derive(Debug)]
pub struct Format {
    pub format_id: String,
    pub ext: String,
    pub vcodec: Option<String>,
    pub acodec: Option<String>,
    pub video_ext: Option<String>,
    pub audio_ext: Option<String>,
    pub filesize: Option<i64>,
    pub filesize_approx: Option<i64>,
    pub height: Option<i64>,
    pub tbr: Option<i64>,
    pub abr: Option<i64>,
}

pub open spec fn opt_str_view(o: Option<String>) -> Option<Seq<char>> {
    match o {
        Some(s) => Some(s@),
        None => None,
    }
}

impl View for Format {
    type V = FormatV;

    open spec fn view(&self) -> FormatV {
        FormatV {
            format_id: self.format_id@,
            ext: self.ext@,
            vcodec: opt_str_view(self.vcodec),
            acodec: opt_str_view(self.acodec),
            video_ext: opt_str_view(self.video_ext),
            audio_ext: opt_str_view(self.audio_ext),
            filesize: self.filesize,
            filesize_approx: self.filesize_approx,
            height: self.height,
            tbr: self.tbr,
            abr: self.abr,
        }
    }
}

impl DeepView for Format {
    type V = FormatV;

    open spec fn deep_view(&self) -> FormatV {
        self.view()
    }
}

/// The declared byte size in effect: the exact size when declared, the
/// approximate one otherwise. Absence means the size is unknown and the
/// encoding must stay out of any size-bounded decision.
pub open spec fn spec_size(f: FormatV) -> Option<i64> {
    if f.filesize is Some {
        f.filesize
    } else {
        f.filesize_approx
    }
}

/// The sentinel tag carried by a track that is not present.
pub open spec fn none_tag() -> Seq<char> {
    "none"@
}

/// The resolved video tag: the explicit codec tag when present, the
/// container-extension hint otherwise, the `none` sentinel when neither
/// is declared.
pub open spec fn video_tag(f: FormatV) -> Seq<char> {
    match f.vcodec {
        Some(v) => v,
        None => match f.video_ext {
            Some(v) => v,
            None => none_tag(),
        },
    }
}

/// The resolved audio tag, analogous to [`video_tag`].
pub open spec fn audio_tag(f: FormatV) -> Seq<char> {
    match f.acodec {
        Some(a) => a,
        None => match f.audio_ext {
            Some(a) => a,
            None => none_tag(),
        },
    }
}

/// The composite of a video-only encoding `v` and an audio-only partner
/// `a`: identifiers concatenated with `+`, audio-side tags taken from
/// `a`, each size field summed when both sides declare it and inherited
/// from `v` otherwise.
pub open spec fn spec_merge(v: FormatV, a: FormatV) -> FormatV {
    FormatV {
        format_id: v.format_id + "+"@ + a.format_id,
        acodec: a.acodec,
        audio_ext: a.audio_ext,
        abr: a.abr,
        filesize: if v.filesize is Some && a.filesize is Some {
            Some((v.filesize->0 + a.filesize->0) as i64)
        } else {
            v.filesize
        },
        filesize_approx: if v.filesize_approx is Some && a.filesize_approx is Some {
            Some((v.filesize_approx->0 + a.filesize_approx->0) as i64)
        } else {
            v.filesize_approx
        },
        ..v
    }
}

impl Clone for Format {
    fn clone(&self) -> (r: Self)
        ensures
            r == self,
    {
        Format {
            format_id: self.format_id.clone(),
            ext: self.ext.clone(),
            vcodec: clone_opt_string(&self.vcodec),
            acodec: clone_opt_string(&self.acodec),
            video_ext: clone_opt_string(&self.video_ext),
            audio_ext: clone_opt_string(&self.audio_ext),
            filesize: self.filesize,
            filesize_approx: self.filesize_approx,
            height: self.height,
            tbr: self.tbr,
            abr: self.abr,
        }
    }
}

fn clone_opt_string(o: &Option<String>) -> (r: Option<String>)
    ensures
        r == o,
{
    match o {
        Some(s) => Some(s.clone()),
        None => None,
    }
}

impl Format {
    /// The declared byte size in effect.
    pub fn get_filesize(&self) -> (r: Option<i64>)
        ensures
            r == spec_size(self@),
    {
        match self.filesize {
            Some(s) => Some(s),
            None => self.filesize_approx,
        }
    }

    /// The resolved (video, audio) tag pair.
    pub fn get_video_audio(&self) -> (r: (String, String))
        ensures
            r.0@ == video_tag(self@),
            r.1@ == audio_tag(self@),
    {
        let video = match &self.vcodec {
            Some(v) => v.clone(),
            None => match &self.video_ext {
                Some(v) => v.clone(),
                None => String::from_str("none"),
            },
        };
        let audio = match &self.acodec {
            Some(a) => a.clone(),
            None => match &self.audio_ext {
                Some(a) => a.clone(),
                None => String::from_str("none"),
            },
        };
        (video, audio)
    }

    /// Synthesizes the composite of this (video-only) encoding with an
    /// audio partner.
    pub fn add_audio(&self, audio: &Format) -> (r: Self)
        requires
            self@.filesize is Some && audio@.filesize is Some ==> i64::MIN <= self@.filesize->0
                + audio@.filesize->0 <= i64::MAX,
            self@.filesize_approx is Some && audio@.filesize_approx is Some ==> i64::MIN
                <= self@.filesize_approx->0 + audio@.filesize_approx->0 <= i64::MAX,
        ensures
            r@ == spec_merge(self@, audio@),
    {
        let mut format_id = self.format_id.clone();
        format_id.append("+");
        format_id.append(audio.format_id.as_str());
        let filesize = match (self.filesize, audio.filesize) {
            (Some(a), Some(b)) => Some(a + b),
            _ => self.filesize,
        };
        let filesize_approx = match (self.filesize_approx, audio.filesize_approx) {
            (Some(a), Some(b)) => Some(a + b),
            _ => self.filesize_approx,
        };
        let r = Format {
            format_id,
            ext: self.ext.clone(),
            vcodec: clone_opt_string(&self.vcodec),
            acodec: clone_opt_string(&audio.acodec),
            video_ext: clone_opt_string(&self.video_ext),
            audio_ext: clone_opt_string(&audio.audio_ext),
            filesize,
            filesize_approx,
            height: self.height,
            tbr: self.tbr,
            abr: audio.abr,
        };
        proof {
            assert(r@ =~~= spec_merge(self@, audio@));
        }
        r
    }
}

/// Mathematical model of a catalog.
#[verifier::ext_equal]
pub struct VideoV {
    pub id: Seq<char>,
    pub title: Seq<char>,
    pub ext: Seq<char>,
    pub formats: Seq<FormatV>,
}

impl VideoV {
    /// Every declared size in the catalog is bounded.
    pub open spec fn wf(self) -> bool {
        forall|i: int| 0 <= i < self.formats.len() ==> (#[trigger] self.formats[i]).wf()
    }
}

/// One media item together with its catalog of encodings.
#[derive(Debug)]
pub struct Video {
    pub id: String,
    pub title: String,
    pub ext: String,
    pub formats: Vec<Format>,
}

impl View for Video {
    type V = VideoV;

    open spec fn view(&self) -> VideoV {
        VideoV {
            id: self.id@,
            title: self.title@,
            ext: self.ext@,
            formats: self.formats.deep_view(),
        }
    }
}

/// Model of the engine's answer: the chosen encoding's identifier (absent
/// means the source's default encoding), its container extension and its
/// resolved codec tags.
#[verifier::ext_equal]
pub struct ChosenFormatV {
    pub format_id: Option<Seq<char>>,
    pub ext: Seq<char>,
    pub vcodec: Option<Seq<char>>,
    pub acodec: Option<Seq<char>>,
}

/// The engine's answer, reported to the caller for fetching and naming
/// the delivered artifact.
#[derive(Debug)]
pub struct ChosenFormat {
    pub format_id: Option<String>,
    pub ext: String,
    pub vcodec: Option<String>,
    pub acodec: Option<String>,
}

impl View for ChosenFormat {
    type V = ChosenFormatV;

    open spec fn view(&self) -> ChosenFormatV {
        ChosenFormatV {
            format_id: opt_str_view(self.format_id),
            ext: self.ext@,
            vcodec: opt_str_view(self.vcodec),
            acodec: opt_str_view(self.acodec),
        }
    }
}

/// What a chosen catalog entry reports: its own identifier and its codec
/// fields exactly as the catalog declares them. The `none`-sentinel
/// resolution with the container-extension fallback is selection's
/// concern; the answer keeps the raw fields, so an absent tag here means
/// the source declared none (the caller may resolve via
/// [`Format::get_video_audio`] when it wants the effective tags).
pub open spec fn chosen_of(f: FormatV) -> ChosenFormatV {
    ChosenFormatV { format_id: Some(f.format_id), ext: f.ext, vcodec: f.vcodec, acodec: f.acodec }
}

impl ChosenFormat {
    /// What a chosen encoding reports to the caller.
    pub fn of_format(format: Format) -> (r: ChosenFormat)
        ensures
            r@ == chosen_of(format@),
    {
        let r = ChosenFormat {
            format_id: Some(format.format_id),
            ext: format.ext,
            vcodec: format.vcodec,
            acodec: format.acodec,
        };
        proof {
            assert(r@ =~~= chosen_of(format@));
        }
        r
    }
}

} // verus!
