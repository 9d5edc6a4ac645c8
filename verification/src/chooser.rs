//! The format-selection engine: pure decision logic that, given the
//! catalog and the session preferences, deterministically picks one
//! encoding (possibly synthesized from a video-only and an audio-only
//! pair) or reports that no acceptable encoding exists.
//!
//! An unknown byte size excludes an encoding from any size-bounded
//! decision; an unknown resolution passes the quality floor. That
//! asymmetry is deliberate: the size bound caps transfer risk, while
//! missing resolution metadata is no reason to discard a good stream.

use vstd::prelude::*;

use crate::config::Config;
use crate::formats::{
    audio_tag, chosen_of, none_tag, spec_merge, spec_size, video_tag, ChosenFormat, Format,
    FormatV, Video,
};
use crate::prefs::{Mode, Quality, UserConfig, UserConfigV};
use crate::text::{is_prefix, str_eq, str_starts_with};

verus! {

/// Declared bitrates below this floor are unusably poor audio and are
/// excluded from audio-mode selection. An undeclared bitrate is not a
/// declared-poor one: it stays eligible and ranks worst.
pub const MIN_AUDIO_TBR: i64 = 49;

/// The minimum-resolution floor applied in video mode unless the quality
/// target is `Awful`.
pub const MIN_HEIGHT: i64 = 360;

/// Typed selection-exhausted failure, carrying the evaluated size bound
/// so the caller can report it.
#[derive(Debug, Clone, Copy, PartialEq, Eq, Structural)]
pub enum ChooseError {
    /// No acceptable audio encoding under the bound.
    NoAudio { max_filesize: i64 },
    /// No acceptable video encoding (size bound or codec exclusions).
    NoVideo { max_filesize: i64 },
}

/// The size is declared and strictly under the bound.
pub open spec fn size_ok(f: FormatV, max: i64) -> bool {
    spec_size(f) is Some && spec_size(f)->0 < max
}

/// The declared size of a surviving encoding (all survivors declare one).
pub open spec fn known_size(f: FormatV) -> i64 {
    spec_size(f)->0
}

/// Whether the resolved video tag starts with any excluded prefix.
pub open spec fn excluded_tag(tag: Seq<char>, excl: Seq<Seq<char>>) -> bool {
    exists|i: int| 0 <= i < excl.len() && is_prefix(#[trigger] excl[i], tag)
}

pub open spec fn excluded(f: FormatV, excl: Seq<Seq<char>>) -> bool {
    excluded_tag(video_tag(f), excl)
}

/// The resolution floor: an encoding fails it only when its resolution
/// is declared and below the minimum. Unknown resolution passes.
pub open spec fn resolution_ok(f: FormatV) -> bool {
    match f.height {
        Some(h) => h >= MIN_HEIGHT,
        None => true,
    }
}

/// Audio-mode eligibility: declared size under the bound, audio-only in
/// effect, and no bitrate declared below the audio floor. An undeclared
/// bitrate is not dropped here; it ranks worst instead.
pub open spec fn audio_eligible(f: FormatV, max: i64) -> bool {
    &&& size_ok(f, max)
    &&& video_tag(f) == none_tag()
    &&& audio_tag(f) != none_tag()
    &&& (f.tbr is Some ==> f.tbr->0 >= MIN_AUDIO_TBR)
}

pub open spec fn audio_pred(max: i64) -> spec_fn(FormatV) -> bool {
    |f: FormatV| audio_eligible(f, max)
}

/// Strict ranking: `a` ranks strictly ahead of `b` under quality target
/// `q`. An undeclared bitrate is the worst case and sorts last under
/// either target's best direction: any declared bitrate ranks strictly
/// ahead of it. Among declared bitrates a `High` target prefers the
/// larger one and any other target the smaller; ties are broken toward
/// the larger declared size.
pub open spec fn ranks_ahead(a: FormatV, b: FormatV, q: Quality) -> bool {
    match (a.tbr, b.tbr) {
        (Some(ta), Some(tb)) => if q is High {
            ta > tb || (ta == tb && known_size(a) > known_size(b))
        } else {
            ta < tb || (ta == tb && known_size(a) > known_size(b))
        },
        (Some(_), None) => true,
        (None, Some(_)) => false,
        (None, None) => known_size(a) > known_size(b),
    }
}

/// The head of the ranking: scanning left to right, a later encoding
/// displaces the current best unless the best ranks strictly ahead of
/// it. Fully tied encodings therefore resolve to the last one.
pub open spec fn best_of(s: Seq<FormatV>, q: Quality) -> FormatV
    recommends
        s.len() > 0,
    decreases s.len(),
{
    if s.len() <= 1 {
        s[0]
    } else {
        let prev = best_of(s.drop_last(), q);
        if ranks_ahead(prev, s.last(), q) {
            prev
        } else {
            s.last()
        }
    }
}

/// The audio-mode survivors, in catalog order.
pub open spec fn audio_candidates(formats: Seq<FormatV>, max: i64) -> Seq<FormatV> {
    formats.filter(audio_pred(max))
}

/// Audio-mode selection: the ranking head of the survivors, or nothing.
pub open spec fn spec_choose_audio(formats: Seq<FormatV>, max: i64, aq: Quality) -> Option<
    FormatV,
> {
    let c = audio_candidates(formats, max);
    if c.len() == 0 {
        None
    } else {
        Some(best_of(c, aq))
    }
}

/// One video-mode resolution step: drop what has no picture or is
/// excluded, merge a video-only encoding with the audio partner (drop it
/// when there is none), keep a complete encoding as it is.
pub open spec fn merge_step(
    f: FormatV,
    max: i64,
    excl: Seq<Seq<char>>,
    audio: Option<FormatV>,
) -> Option<FormatV> {
    if !size_ok(f, max) {
        None
    } else if video_tag(f) == none_tag() {
        None
    } else if excluded(f, excl) {
        None
    } else if audio_tag(f) == none_tag() {
        match audio {
            Some(a) => Some(spec_merge(f, a)),
            None => None,
        }
    } else {
        Some(f)
    }
}

pub open spec fn merge_step_fn(max: i64, excl: Seq<Seq<char>>, audio: Option<FormatV>) -> spec_fn(
    FormatV,
) -> Option<FormatV> {
    |f: FormatV| merge_step(f, max, excl, audio)
}

/// The post-merge filter: sizes may have grown past the bound, and the
/// resolution floor applies unless the target is `Awful`.
pub open spec fn keep_pred(max: i64, vq: Quality) -> spec_fn(FormatV) -> bool {
    |f: FormatV| size_ok(f, max) && (vq is Awful || resolution_ok(f))
}

/// The video-mode survivors: merged, re-filtered by size, floored.
pub open spec fn video_candidates(formats: Seq<FormatV>, max: i64, uc: UserConfigV) -> Seq<
    FormatV,
> {
    let audio = spec_choose_audio(formats, max, uc.aquality);
    formats.filter_map(merge_step_fn(max, uc.vcodec_exclude, audio)).filter(
        keep_pred(max, uc.vquality),
    )
}

/// Video-mode selection: the ranking head of the survivors, or nothing.
pub open spec fn spec_choose_video(formats: Seq<FormatV>, max: i64, uc: UserConfigV) -> Option<
    FormatV,
> {
    let c = video_candidates(formats, max, uc);
    if c.len() == 0 {
        None
    } else {
        Some(best_of(c, uc.vquality))
    }
}

/// The engine: one entry point, branching once on the download mode.
pub open spec fn spec_choose(formats: Seq<FormatV>, max: i64, uc: UserConfigV) -> Option<FormatV> {
    match uc.mode {
        Mode::Video => spec_choose_video(formats, max, uc),
        Mode::Audio => spec_choose_audio(formats, max, uc.aquality),
    }
}

/// The failure reported when no encoding survives, by mode.
pub open spec fn no_selection_error(m: Mode, max: i64) -> ChooseError {
    match m {
        Mode::Video => ChooseError::NoVideo { max_filesize: max },
        Mode::Audio => ChooseError::NoAudio { max_filesize: max },
    }
}

fn size_under_bound(f: &Format, max: i64) -> (r: bool)
    ensures
        r == size_ok(f@, max),
{
    match f.get_filesize() {
        Some(s) => s < max,
        None => false,
    }
}

fn resolution_ok_exec(f: &Format) -> (r: bool)
    ensures
        r == resolution_ok(f@),
{
    match f.height {
        Some(h) => h >= MIN_HEIGHT,
        None => true,
    }
}

fn is_excluded(tag: &String, excl: &Vec<String>) -> (r: bool)
    ensures
        r == excluded_tag(tag@, excl.deep_view()),
{
    let n: usize = excl.len();
    let mut i: usize = 0;
    while i < n
        invariant
            n == excl@.len(),
            i <= n,
            forall|j: int| 0 <= j < i ==> !is_prefix(#[trigger] excl.deep_view()[j], tag@),
        decreases n - i,
    {
        if str_starts_with(tag.as_str(), excl[i].as_str()) {
            proof {
                assert(is_prefix(excl.deep_view()[i as int], tag@));
            }
            return true;
        }
        i += 1;
    }
    false
}

fn audio_eligible_exec(f: &Format, max: i64) -> (r: bool)
    ensures
        r == audio_eligible(f@, max),
{
    if !size_under_bound(f, max) {
        return false;
    }
    let tags = f.get_video_audio();
    let v_none = str_eq(tags.0.as_str(), "none");
    let a_none = str_eq(tags.1.as_str(), "none");
    let tbr_ok = match f.tbr {
        Some(t) => t >= MIN_AUDIO_TBR,
        None => true,
    };
    v_none && !a_none && tbr_ok
}

fn ranks_ahead_exec(a: &Format, b: &Format, q: Quality) -> (r: bool)
    requires
        spec_size(a@) is Some,
        spec_size(b@) is Some,
    ensures
        r == ranks_ahead(a@, b@, q),
{
    let sa: i64 = match a.get_filesize() {
        Some(s) => s,
        None => 0,
    };
    let sb: i64 = match b.get_filesize() {
        Some(s) => s,
        None => 0,
    };
    match (a.tbr, b.tbr) {
        (Some(ta), Some(tb)) => match q {
            Quality::High => ta > tb || (ta == tb && sa > sb),
            _ => ta < tb || (ta == tb && sa > sb),
        },
        (Some(_), None) => true,
        (None, Some(_)) => false,
        (None, None) => sa > sb,
    }
}

/// Scans the survivors for the ranking head.
fn pick_best(cands: &Vec<Format>, q: Quality) -> (r: Format)
    requires
        cands@.len() > 0,
        forall|i: int| 0 <= i < cands@.len() ==> spec_size(#[trigger] cands.deep_view()[i]) is Some,
    ensures
        r@ == best_of(cands.deep_view(), q),
{
    let mut best = cands[0].clone();
    let mut i: usize = 1;
    proof {
        assert(cands.deep_view().take(1) =~= seq![cands.deep_view()[0]]);
    }
    while i < cands.len()
        invariant
            1 <= i <= cands@.len(),
            forall|j: int| 0 <= j < cands@.len() ==> spec_size(
                #[trigger] cands.deep_view()[j],
            ) is Some,
            best@ == best_of(cands.deep_view().take(i as int), q),
            spec_size(best@) is Some,
        decreases cands@.len() - i,
    {
        let ghost pre = cands.deep_view().take(i as int);
        proof {
            assert(cands.deep_view().take(i as int + 1).drop_last() =~= pre);
            assert(cands.deep_view().take(i as int + 1).last() == cands.deep_view()[i as int]);
        }
        if !ranks_ahead_exec(&best, &cands[i], q) {
            best = cands[i].clone();
        }
        i += 1;
    }
    proof {
        assert(cands.deep_view().take(cands@.len() as int) =~= cands.deep_view());
    }
    best
}

/// Audio-mode selection over a catalog. Returns the ranking head of the
/// eligible audio-only encodings, or the typed failure carrying the
/// evaluated bound.
pub fn choose_format_audio(conf: &Config, userconf: &UserConfig, video: &Video) -> (r: Result<
    Format,
    ChooseError,
>)
    ensures
        match spec_choose_audio(video@.formats, conf.max_filesize, userconf@.aquality) {
            Some(f) => r matches Ok(g) && g@ == f,
            None => r matches Err(e) && e == ChooseError::NoAudio {
                max_filesize: conf.max_filesize,
            },
        },
{
    let max = conf.max_filesize;
    let n: usize = video.formats.len();
    let mut cands: Vec<Format> = Vec::new();
    proof {
        assert(cands.deep_view() =~= video@.formats.take(0).filter(audio_pred(max)));
    }
    let mut i: usize = 0;
    while i < n
        invariant
            n == video@.formats.len(),
            i <= n,
            cands.deep_view() == video@.formats.take(i as int).filter(audio_pred(max)),
        decreases n - i,
    {
        let ghost pre = cands.deep_view();
        proof {
            Seq::lemma_take_succ(video@.formats, i as int);
            video@.formats.take(i as int).lemma_filter_push(
                video@.formats[i as int],
                audio_pred(max),
            );
            assert(video@.formats.take(i as int).push(video@.formats[i as int])
                =~= video@.formats.take(i as int + 1));
        }
        if audio_eligible_exec(&video.formats[i], max) {
            cands.push(video.formats[i].clone());
            proof {
                assert(cands.deep_view() =~= pre.push(video@.formats[i as int]));
            }
        }
        i += 1;
    }
    proof {
        assert(video@.formats.take(n as int) =~= video@.formats);
    }
    if cands.len() == 0 {
        return Err(ChooseError::NoAudio { max_filesize: max });
    }
    proof {
        assert forall|j: int| 0 <= j < cands@.len() implies spec_size(
            #[trigger] cands.deep_view()[j],
        ) is Some by {
            video@.formats.lemma_filter_pred(audio_pred(max), j);
        }
    }
    let best = pick_best(&cands, userconf.aquality);
    Ok(best)
}

proof fn lemma_best_of_contains(s: Seq<FormatV>, q: Quality)
    requires
        s.len() > 0,
    ensures
        s.contains(best_of(s, q)),
    decreases s.len(),
{
    if s.len() == 1 {
        assert(s[0] == best_of(s, q));
    } else {
        lemma_best_of_contains(s.drop_last(), q);
        let prev = best_of(s.drop_last(), q);
        if ranks_ahead(prev, s.last(), q) {
            let j = choose|j: int| 0 <= j < s.drop_last().len() && s.drop_last()[j] == prev;
            assert(s[j] == prev);
        } else {
            assert(s[s.len() - 1] == s.last());
        }
    }
}

/// A successful audio-mode choice is an encoding of the catalog.
proof fn lemma_audio_choice_in_catalog(formats: Seq<FormatV>, max: i64, aq: Quality)
    requires
        spec_choose_audio(formats, max, aq) is Some,
    ensures
        exists|i: int|
            0 <= i < formats.len() && formats[i] == spec_choose_audio(formats, max, aq)->0,
{
    let c = audio_candidates(formats, max);
    lemma_best_of_contains(c, aq);
    formats.lemma_filter_contains_rev(audio_pred(max), best_of(c, aq));
    let t = choose|j: int| 0 <= j < formats.len() && formats[j] == best_of(c, aq);
    assert(formats[t] == spec_choose_audio(formats, max, aq)->0);
}

/// Video-mode selection over a catalog: merges video-only encodings with
/// the best audio partner, re-applies the size bound, applies the
/// resolution floor, and returns the ranking head of what survives, or
/// the typed failure carrying the evaluated bound.
pub fn choose_format_video(conf: &Config, userconf: &UserConfig, video: &Video) -> (r: Result<
    Format,
    ChooseError,
>)
    requires
        video@.wf(),
    ensures
        match spec_choose_video(video@.formats, conf.max_filesize, userconf@) {
            Some(f) => r matches Ok(g) && g@ == f,
            None => r matches Err(e) && e == ChooseError::NoVideo {
                max_filesize: conf.max_filesize,
            },
        },
{
    let max = conf.max_filesize;
    let ghost audio_spec = spec_choose_audio(video@.formats, max, userconf@.aquality);
    let audio_format: Option<Format> = match choose_format_audio(conf, userconf, video) {
        Ok(f) => Some(f),
        Err(_) => None,
    };
    proof {
        match &audio_format {
            Some(f) => assert(audio_spec is Some && f@ == audio_spec->0),
            None => assert(audio_spec is None),
        }
    }
    let ghost stepf = merge_step_fn(max, userconf@.vcodec_exclude, audio_spec);
    let n: usize = video.formats.len();
    let mut merged: Vec<Format> = Vec::new();
    proof {
        assert(merged.deep_view() =~= video@.formats.take(0).filter_map(stepf));
    }
    let mut i: usize = 0;
    while i < n
        invariant
            n == video@.formats.len(),
            i <= n,
            video@.wf(),
            stepf == merge_step_fn(max, userconf@.vcodec_exclude, audio_spec),
            audio_spec == spec_choose_audio(video@.formats, max, userconf@.aquality),
            match audio_format {
                Some(f) => audio_spec is Some && f@ == audio_spec->0,
                None => audio_spec is None,
            },
            merged.deep_view() == video@.formats.take(i as int).filter_map(stepf),
        decreases n - i,
    {
        let f = &video.formats[i];
        let ghost pre = merged.deep_view();
        proof {
            video@.formats.lemma_filter_map_take_succ(stepf, i as int);
            assert(f@ == video@.formats[i as int]);
        }
        if size_under_bound(f, max) {
            let tags = f.get_video_audio();
            if !str_eq(tags.0.as_str(), "none") {
                if !is_excluded(&tags.0, &userconf.vcodec_exclude) {
                    if str_eq(tags.1.as_str(), "none") {
                        match &audio_format {
                            Some(a) => {
                                proof {
                                    lemma_audio_choice_in_catalog(
                                        video@.formats,
                                        max,
                                        userconf@.aquality,
                                    );
                                    let j = choose|j: int|
                                        0 <= j < video@.formats.len() && video@.formats[j]
                                            == audio_spec->0;
                                    assert(video@.formats[j].wf());
                                    assert(video@.formats[i as int].wf());
                                }
                                merged.push(f.add_audio(a));
                                proof {
                                    assert(stepf(f@) == Some(spec_merge(f@, audio_spec->0)));
                                    assert(merged.deep_view() =~= pre + seq![
                                        spec_merge(f@, audio_spec->0),
                                    ]);
                                }
                            },
                            None => {
                                proof {
                                    assert(stepf(f@) is None);
                                }
                            },
                        }
                    } else {
                        merged.push(f.clone());
                        proof {
                            assert(stepf(f@) == Some(f@));
                            assert(merged.deep_view() =~= pre + seq![f@]);
                        }
                    }
                } else {
                    proof {
                        assert(stepf(f@) is None);
                    }
                }
            } else {
                proof {
                    assert(stepf(f@) is None);
                }
            }
        } else {
            proof {
                assert(stepf(f@) is None);
            }
        }
        i += 1;
    }
    proof {
        assert(video@.formats.take(n as int) =~= video@.formats);
    }
    let ghost keepf = keep_pred(max, userconf@.vquality);
    let m: usize = merged.len();
    let mut survivors: Vec<Format> = Vec::new();
    proof {
        assert(survivors.deep_view() =~= merged.deep_view().take(0).filter(keepf));
    }
    let mut k: usize = 0;
    while k < m
        invariant
            m == merged.deep_view().len(),
            m == merged@.len(),
            k <= m,
            keepf == keep_pred(max, userconf@.vquality),
            survivors.deep_view() == merged.deep_view().take(k as int).filter(keepf),
        decreases m - k,
    {
        let ghost pre = survivors.deep_view();
        proof {
            Seq::lemma_take_succ(merged.deep_view(), k as int);
            merged.deep_view().take(k as int).lemma_filter_push(
                merged.deep_view()[k as int],
                keepf,
            );
            assert(merged.deep_view().take(k as int).push(merged.deep_view()[k as int])
                =~= merged.deep_view().take(k as int + 1));
        }
        let keep = size_under_bound(&merged[k], max) && (matches!(userconf.vquality, Quality::Awful)
            || resolution_ok_exec(&merged[k]));
        if keep {
            survivors.push(merged[k].clone());
            proof {
                assert(survivors.deep_view() =~= pre.push(merged.deep_view()[k as int]));
                assert(keepf(merged.deep_view()[k as int]));
            }
        } else {
            proof {
                assert(!keepf(merged.deep_view()[k as int]));
            }
        }
        k += 1;
    }
    proof {
        assert(merged.deep_view().take(m as int) =~= merged.deep_view());
    }
    if survivors.len() == 0 {
        return Err(ChooseError::NoVideo { max_filesize: max });
    }
    proof {
        assert forall|j: int| 0 <= j < survivors@.len() implies spec_size(
            #[trigger] survivors.deep_view()[j],
        ) is Some by {
            merged.deep_view().lemma_filter_pred(keepf, j);
        }
    }
    let best = pick_best(&survivors, userconf.vquality);
    Ok(best)
}

/// The selection entry point: branches once on the download mode and
/// reports the chosen encoding's identifier, extension and resolved
/// tags, or the typed selection-exhausted failure. Only video mode
/// merges, so only video mode needs the catalog's size bound.
pub fn choose_format(conf: &Config, userconf: &UserConfig, video: &Video) -> (r: Result<
    ChosenFormat,
    ChooseError,
>)
    requires
        userconf@.mode is Video ==> video@.wf(),
    ensures
        match spec_choose(video@.formats, conf.max_filesize, userconf@) {
            Some(f) => r matches Ok(g) && g@ == chosen_of(f),
            None => r matches Err(e) && e == no_selection_error(userconf@.mode, conf.max_filesize),
        },
{
    let picked = match userconf.mode {
        Mode::Video => choose_format_video(conf, userconf, video),
        Mode::Audio => choose_format_audio(conf, userconf, video),
    };
    match picked {
        Ok(f) => Ok(ChosenFormat::of_format(f)),
        Err(e) => Err(e),
    }
}


/// No survivor ranks strictly ahead of the ranking head. In particular
/// the head carries a declared bitrate whenever any survivor does -- an
/// undeclared bitrate is the worst case and never wins against a
/// declared one -- and among declared bitrates a `High` target selects a
/// maximal one, any other target a minimal one.
pub proof fn lemma_best_of_optimal(s: Seq<FormatV>, q: Quality, i: int)
    requires
        s.len() > 0,
        0 <= i < s.len(),
    ensures
        !ranks_ahead(s[i], best_of(s, q), q),
        s[i].tbr is Some ==> best_of(s, q).tbr is Some,
        s[i].tbr is Some && q is High ==> s[i].tbr->0 <= best_of(s, q).tbr->0,
        s[i].tbr is Some && !(q is High) ==> s[i].tbr->0 >= best_of(s, q).tbr->0,
    decreases s.len(),
{
    if s.len() > 1 {
        let prev = best_of(s.drop_last(), q);
        if i < s.len() - 1 {
            lemma_best_of_optimal(s.drop_last(), q, i);
            assert(s.drop_last()[i] == s[i]);
        } else {
            assert(s[i] == s.last());
            lemma_best_of_optimal(s.drop_last(), q, 0);
        }
    }
}

/// Whenever the catalog holds an encoding with a declared size under the
/// bound, both tracks resolved, no excluded codec prefix, and a
/// resolution that passes the floor, video-mode selection succeeds.
pub proof fn lemma_video_selection_succeeds(
    formats: Seq<FormatV>,
    max: i64,
    uc: UserConfigV,
    i: int,
)
    requires
        0 <= i < formats.len(),
        size_ok(formats[i], max),
        video_tag(formats[i]) != none_tag(),
        audio_tag(formats[i]) != none_tag(),
        !excluded(formats[i], uc.vcodec_exclude),
        uc.vquality is Awful || resolution_ok(formats[i]),
    ensures
        spec_choose_video(formats, max, uc) is Some,
{
    let audio = spec_choose_audio(formats, max, uc.aquality);
    let stepf = merge_step_fn(max, uc.vcodec_exclude, audio);
    let f = formats[i];
    assert(stepf(f) == Some(f));
    lemma_filter_map_mem(formats, stepf, i, f);
    let merged = formats.filter_map(stepf);
    let j = choose|j: int| 0 <= j < merged.len() && merged[j] == f;
    let keepf = keep_pred(max, uc.vquality);
    assert(keepf(merged[j]));
    merged.lemma_filter_contains(keepf, j);
    assert(merged.filter(keepf).contains(f));
    assert(video_candidates(formats, max, uc).len() > 0);
}

/// When some position of `s` maps to a value, that value stands in the
/// mapped-and-filtered sequence.
proof fn lemma_filter_map_mem(
    s: Seq<FormatV>,
    f: spec_fn(FormatV) -> Option<FormatV>,
    i: int,
    x: FormatV,
)
    requires
        0 <= i < s.len(),
        f(s[i]) == Some(x),
    ensures
        s.filter_map(f).contains(x),
    decreases s.len(),
{
    let out = s.filter_map(f);
    if i == s.len() - 1 {
        assert(s.last() == s[i]);
        assert(out == s.drop_last().filter_map(f) + seq![x]);
        assert(out[out.len() - 1] == x);
    } else {
        assert(s.drop_last()[i] == s[i]);
        lemma_filter_map_mem(s.drop_last(), f, i, x);
        let rest = s.drop_last().filter_map(f);
        let j = choose|j: int| 0 <= j < rest.len() && rest[j] == x;
        match f(s.last()) {
            Some(y) => {
                assert(out == rest + seq![y]);
                assert(out[j] == x);
            },
            None => {
                assert(out == rest);
            },
        }
    }
}

/// A predicate no element satisfies filters everything out.
proof fn lemma_filter_none(s: Seq<FormatV>, p: spec_fn(FormatV) -> bool)
    requires
        forall|i: int| 0 <= i < s.len() ==> !p(#[trigger] s[i]),
    ensures
        s.filter(p).len() == 0,
{
    if s.filter(p).len() > 0 {
        let x = s.filter(p)[0];
        s.lemma_filter_pred(p, 0);
        assert(s.filter(p).contains(x));
        s.lemma_filter_contains_rev(p, x);
        let i = choose|i: int| 0 <= i < s.len() && s[i] == x;
        assert(!p(s[i]));
    }
}

/// A map that sends every element to nothing leaves nothing.
proof fn lemma_filter_map_none(s: Seq<FormatV>, f: spec_fn(FormatV) -> Option<FormatV>)
    requires
        forall|i: int| 0 <= i < s.len() ==> f(#[trigger] s[i]) is None,
    ensures
        s.filter_map(f).len() == 0,
    decreases s.len(),
{
    if s.len() > 0 {
        assert forall|i: int| 0 <= i < s.drop_last().len() implies f(
            #[trigger] s.drop_last()[i],
        ) is None by {
            assert(s.drop_last()[i] == s[i]);
        }
        lemma_filter_map_none(s.drop_last(), f);
        assert(f(s.last()) is None);
    }
}

/// When every encoding's size is undeclared or at least the bound,
/// selection fails in either mode, whatever the other preferences say.
pub proof fn lemma_selection_exhausted(formats: Seq<FormatV>, max: i64, uc: UserConfigV)
    requires
        forall|i: int| 0 <= i < formats.len() ==> !size_ok(#[trigger] formats[i], max),
    ensures
        spec_choose(formats, max, uc) is None,
        spec_choose_video(formats, max, uc) is None,
        spec_choose_audio(formats, max, uc.aquality) is None,
{
    assert forall|i: int| 0 <= i < formats.len() implies !audio_pred(max)(
        #[trigger] formats[i],
    ) by {
        assert(!size_ok(formats[i], max));
    }
    lemma_filter_none(formats, audio_pred(max));
    let audio = spec_choose_audio(formats, max, uc.aquality);
    let stepf = merge_step_fn(max, uc.vcodec_exclude, audio);
    assert forall|i: int| 0 <= i < formats.len() implies stepf(#[trigger] formats[i]) is None by {
        assert(!size_ok(formats[i], max));
    }
    lemma_filter_map_none(formats, stepf);
    let merged = formats.filter_map(stepf);
    assert(merged =~= Seq::<FormatV>::empty());
    lemma_filter_none(merged, keep_pred(max, uc.vquality));
}

/// Ranking determinism: selection is a function of the catalog and the
/// preferences alone, so re-running it on unchanged inputs returns the
/// same choice (and so the same identifier).
pub proof fn lemma_selection_deterministic(
    formats: Seq<FormatV>,
    max: i64,
    uc: UserConfigV,
    r1: Option<FormatV>,
    r2: Option<FormatV>,
)
    requires
        r1 == spec_choose(formats, max, uc),
        r2 == spec_choose(formats, max, uc),
    ensures
        r1 == r2,
{
}

/// Unknown-resolution pass-through: the resolution floor never drops an
/// encoding whose vertical resolution is undeclared, under any quality
/// target.
pub proof fn lemma_unknown_resolution_passes(f: FormatV, max: i64, vq: Quality)
    requires
        f.height is None,
    ensures
        resolution_ok(f),
        keep_pred(max, vq)(f) == size_ok(f, max),
{
}


} // verus!
