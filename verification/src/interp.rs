//! The session command interpreter: maps a line of command text to one
//! atomic preference mutation (or a read, a download request, a typed
//! validation error, or an "unknown command" signal), and applies it to
//! the session store. Composing reply text and performing any transfer
//! is the caller's responsibility; nothing here produces output.
//!
//! Also here: the batch throttling plan, which serializes a polling
//! batch per originating identity, reacting to an identity's single
//! message and rejecting a burst with one throttling signal.

use vstd::prelude::*;

use crate::messages::{IncomeMessage, IncomeMessageV};
use crate::prefs::{CutInterval, Mode, Quality, UserConfig, UserConfigV};
use crate::store::{put_model, State};
use crate::text::{parse_i64_spec, str_eq, tokenize, tokens};

verus! {

/// Whether the text parses as a media locator (an absolute URL). The
/// outcome is a function of the text alone.
pub uninterp spec fn is_media_locator(s: Seq<char>) -> bool;

/// Relies on url::Url::parse: whether a piece of text is an absolute URL
/// depends on the text alone.
#[verifier::external_body]
fn parses_as_url(text: &str) -> (r: bool)
    ensures
        r == is_media_locator(text@),
{
    url::Url::parse(text).is_ok()
}

/// Model of a parsed command.
#[verifier::ext_equal]
pub enum CommandV {
    Download,
    Status,
    SetMode(Mode),
    SetVideoQuality(Quality),
    SetAudioQuality(Quality),
    SetVcodecExclude(Seq<Seq<char>>),
    SetCutInterval(CutInterval),
    InvalidCutInterval,
    Unknown,
}

/// One parsed line of command text.
#[derive(Debug)]
pub enum Command {
    /// The text is a media locator: fetch and deliver.
    Download,
    /// Report the current preference record.
    Status,
    /// Switch the download mode.
    SetMode(Mode),
    /// Rewrite the video quality target.
    SetVideoQuality(Quality),
    /// Rewrite the audio quality target.
    SetAudioQuality(Quality),
    /// Replace the codec-exclusion list.
    SetVcodecExclude(Vec<String>),
    /// Set the trim interval.
    SetCutInterval(CutInterval),
    /// A trim-interval command whose offsets do not parse: a validation
    /// error, no state change.
    InvalidCutInterval,
    /// Anything else: no state change.
    Unknown,
}

impl View for Command {
    type V = CommandV;

    open spec fn view(&self) -> CommandV {
        match self {
            Command::Download => CommandV::Download,
            Command::Status => CommandV::Status,
            Command::SetMode(m) => CommandV::SetMode(*m),
            Command::SetVideoQuality(q) => CommandV::SetVideoQuality(*q),
            Command::SetAudioQuality(q) => CommandV::SetAudioQuality(*q),
            Command::SetVcodecExclude(v) => CommandV::SetVcodecExclude(v.deep_view()),
            Command::SetCutInterval(ci) => CommandV::SetCutInterval(*ci),
            Command::InvalidCutInterval => CommandV::InvalidCutInterval,
            Command::Unknown => CommandV::Unknown,
        }
    }
}

/// The command a line of text denotes: a media locator downloads;
/// otherwise the first whitespace token selects the command, the
/// exclusion command takes every following token, and the trim command
/// takes exactly two numeric offsets.
pub open spec fn spec_parse_command(s: Seq<char>) -> CommandV {
    if is_media_locator(s) {
        CommandV::Download
    } else {
        let ws = tokens(s);
        if ws.len() == 0 {
            CommandV::Unknown
        } else if ws[0] == "/st"@ {
            CommandV::Status
        } else if ws[0] == "/audio"@ {
            CommandV::SetMode(Mode::Audio)
        } else if ws[0] == "/video"@ {
            CommandV::SetMode(Mode::Video)
        } else if ws[0] == "/video_quality_high"@ {
            CommandV::SetVideoQuality(Quality::High)
        } else if ws[0] == "/video_quality_low"@ {
            CommandV::SetVideoQuality(Quality::Low)
        } else if ws[0] == "/video_quality_awful"@ {
            CommandV::SetVideoQuality(Quality::Awful)
        } else if ws[0] == "/audio_quality_high"@ {
            CommandV::SetAudioQuality(Quality::High)
        } else if ws[0] == "/audio_quality_low"@ {
            CommandV::SetAudioQuality(Quality::Low)
        } else if ws[0] == "/vcodec_exclude"@ {
            CommandV::SetVcodecExclude(ws.drop_first())
        } else if ws[0] == "/cut_interval"@ {
            if ws.len() == 3 {
                match (parse_i64_spec(ws[1]), parse_i64_spec(ws[2])) {
                    (Some(start), Some(end)) => CommandV::SetCutInterval(
                        CutInterval { start, end },
                    ),
                    _ => CommandV::InvalidCutInterval,
                }
            } else {
                CommandV::Unknown
            }
        } else {
            CommandV::Unknown
        }
    }
}

/// Parses one line of command text.
pub fn parse_command(text: &str) -> (c: Command)
    ensures
        c@ == spec_parse_command(text@),
{
    if parses_as_url(text) {
        return Command::Download;
    }
    let words = tokenize(text);
    if words.len() == 0 {
        return Command::Unknown;
    }
    proof {
        assert(words@[0]@ == tokens(text@)[0]);
    }
    if str_eq(words[0].as_str(), "/st") {
        return Command::Status;
    }
    if str_eq(words[0].as_str(), "/audio") {
        return Command::SetMode(Mode::Audio);
    }
    if str_eq(words[0].as_str(), "/video") {
        return Command::SetMode(Mode::Video);
    }
    if str_eq(words[0].as_str(), "/video_quality_high") {
        return Command::SetVideoQuality(Quality::High);
    }
    if str_eq(words[0].as_str(), "/video_quality_low") {
        return Command::SetVideoQuality(Quality::Low);
    }
    if str_eq(words[0].as_str(), "/video_quality_awful") {
        return Command::SetVideoQuality(Quality::Awful);
    }
    if str_eq(words[0].as_str(), "/audio_quality_high") {
        return Command::SetAudioQuality(Quality::High);
    }
    if str_eq(words[0].as_str(), "/audio_quality_low") {
        return Command::SetAudioQuality(Quality::Low);
    }
    if str_eq(words[0].as_str(), "/vcodec_exclude") {
        let n: usize = words.len();
        let mut rest: Vec<String> = Vec::new();
        proof {
            assert(rest.deep_view() =~= words.deep_view().subrange(1, 1));
        }
        let mut i: usize = 1;
        while i < n
            invariant
                1 <= i <= n,
                n == words@.len(),
                rest.deep_view() == words.deep_view().subrange(1, i as int),
            decreases n - i,
        {
            let ghost pre = rest.deep_view();
            rest.push(words[i].clone());
            proof {
                assert(rest.deep_view() =~= pre.push(words.deep_view()[i as int]));
                assert(pre.push(words.deep_view()[i as int]) =~= words.deep_view().subrange(
                    1,
                    i as int + 1,
                ));
            }
            i += 1;
        }
        proof {
            assert(words.deep_view().subrange(1, n as int) =~= words.deep_view().drop_first());
        }
        return Command::SetVcodecExclude(rest);
    }
    if str_eq(words[0].as_str(), "/cut_interval") {
        if words.len() == 3 {
            proof {
                assert(words@[1]@ == tokens(text@)[1]);
                assert(words@[2]@ == tokens(text@)[2]);
            }
            match CutInterval::parse(words[1].as_str(), words[2].as_str()) {
                Ok(ci) => {
                    return Command::SetCutInterval(ci);
                },
                Err(_) => {
                    return Command::InvalidCutInterval;
                },
            }
        }
        return Command::Unknown;
    }
    Command::Unknown
}

/// The interpreter's answer: what the caller should do next.
#[derive(Debug)]
pub enum Applied {
    /// Run the fetch-and-deliver flow.
    Download,
    /// Report the current preference record.
    Status(UserConfig),
    /// A mutation happened; here is the stored record, for confirmation.
    Confirm(UserConfig),
    /// Malformed trim-interval arguments; nothing changed.
    InvalidInterval,
    /// Unrecognized command; nothing changed.
    Unknown,
}

/// The whole record a mutating command stores, derived from the prior
/// whole record by rewriting exactly one field.
pub open spec fn command_effect(cmd: CommandV, cur: UserConfigV) -> Option<UserConfigV> {
    match cmd {
        CommandV::SetMode(m) => Some(UserConfigV { mode: m, ..cur }),
        CommandV::SetVideoQuality(q) => Some(UserConfigV { vquality: q, ..cur }),
        CommandV::SetAudioQuality(q) => Some(UserConfigV { aquality: q, ..cur }),
        CommandV::SetVcodecExclude(v) => Some(UserConfigV { vcodec_exclude: v, ..cur }),
        CommandV::SetCutInterval(ci) => Some(UserConfigV { cut_interval: Some(ci), ..cur }),
        _ => None,
    }
}

/// Applies one parsed command to the session's preferences: a mutating
/// command performs exactly one whole-record replace that rewrites one
/// field; every other command leaves the store untouched.
pub fn apply_command(state: &mut State, chat_id: i64, cmd: Command) -> (r: Applied)
    requires
        old(state).wf(),
    ensures
        final(state).wf(),
        final(state).capacity() == old(state).capacity(),
        match command_effect(cmd@, old(state).spec_get(chat_id)) {
            Some(newv) => {
                &&& final(state).entries() == put_model(
                    old(state).entries(),
                    chat_id,
                    newv,
                    old(state).capacity(),
                )
                &&& final(state).spec_get(chat_id) == newv
                &&& r matches Applied::Confirm(c) && c@ == newv
            },
            None => {
                &&& final(state).entries() == old(state).entries()
                &&& match cmd@ {
                    CommandV::Download => r is Download,
                    CommandV::Status => r matches Applied::Status(c) && c@ == old(state).spec_get(
                        chat_id,
                    ),
                    CommandV::InvalidCutInterval => r is InvalidInterval,
                    CommandV::Unknown => r is Unknown,
                    _ => false,
                }
            },
        },
{
    match cmd {
        Command::Download => Applied::Download,
        Command::Status => Applied::Status(state.get_userconfig(chat_id)),
        Command::SetMode(m) => Applied::Confirm(state.set_mode(chat_id, m)),
        Command::SetVideoQuality(q) => Applied::Confirm(state.set_video_quality(chat_id, q)),
        Command::SetAudioQuality(q) => Applied::Confirm(state.set_audio_quality(chat_id, q)),
        Command::SetVcodecExclude(v) => Applied::Confirm(state.set_vcodec_exclude(chat_id, v)),
        Command::SetCutInterval(ci) => Applied::Confirm(
            state.set_cut_inteval(chat_id, Some(ci)),
        ),
        Command::InvalidCutInterval => Applied::InvalidInterval,
        Command::Unknown => Applied::Unknown,
    }
}

/// One entry point for a line of command text: parse, then apply.
pub fn interpret(state: &mut State, chat_id: i64, text: &str) -> (r: Applied)
    requires
        old(state).wf(),
    ensures
        final(state).wf(),
        final(state).capacity() == old(state).capacity(),
        match command_effect(spec_parse_command(text@), old(state).spec_get(chat_id)) {
            Some(newv) => {
                &&& final(state).entries() == put_model(
                    old(state).entries(),
                    chat_id,
                    newv,
                    old(state).capacity(),
                )
                &&& final(state).spec_get(chat_id) == newv
                &&& r matches Applied::Confirm(c) && c@ == newv
            },
            None => {
                &&& final(state).entries() == old(state).entries()
                &&& match spec_parse_command(text@) {
                    CommandV::Download => r is Download,
                    CommandV::Status => r matches Applied::Status(c) && c@ == old(state).spec_get(
                        chat_id,
                    ),
                    CommandV::InvalidCutInterval => r is InvalidInterval,
                    CommandV::Unknown => r is Unknown,
                    _ => false,
                }
            },
        },
{
    let cmd = parse_command(text);
    apply_command(state, chat_id, cmd)
}

/// How the caller should treat one message of a polling batch.
#[derive(Debug)]
pub enum Decision {
    /// The identity sent a single message this batch: react to it.
    React(IncomeMessage),
    /// The identity sent several: send one throttling signal to the chat
    /// of its first message and drop the rest.
    Throttle { chat_id: i64, username: String },
}

/// Model of a batch decision.
#[verifier::ext_equal]
pub enum DecisionV {
    React(IncomeMessageV),
    Throttle { chat_id: i64, username: Seq<char> },
}

impl View for Decision {
    type V = DecisionV;

    open spec fn view(&self) -> DecisionV {
        match self {
            Decision::React(m) => DecisionV::React(m@),
            Decision::Throttle { chat_id, username } => DecisionV::Throttle {
                chat_id: *chat_id,
                username: username@,
            },
        }
    }
}

impl DeepView for Decision {
    type V = DecisionV;

    open spec fn deep_view(&self) -> DecisionV {
        self.view()
    }
}

/// How many of the first `k` messages carry the identity `u`.
pub open spec fn count_user_prefix(ms: Seq<IncomeMessageV>, u: Seq<char>, k: int) -> nat
    decreases k,
{
    if k <= 0 {
        0
    } else if ms[k - 1].username == u {
        count_user_prefix(ms, u, k - 1) + 1
    } else {
        count_user_prefix(ms, u, k - 1)
    }
}

/// How many messages of the batch carry the identity `u`.
pub open spec fn count_user(ms: Seq<IncomeMessageV>, u: Seq<char>) -> nat {
    count_user_prefix(ms, u, ms.len() as int)
}

/// Whether an earlier message of the batch carries the same identity.
pub open spec fn seen_before(ms: Seq<IncomeMessageV>, i: int) -> bool {
    exists|j: int| 0 <= j < i && ms[j].username == ms[i].username
}

/// The decision an identity's first message earns.
pub open spec fn decision_for(ms: Seq<IncomeMessageV>, i: int) -> DecisionV {
    if count_user(ms, ms[i].username) == 1 {
        DecisionV::React(ms[i])
    } else {
        DecisionV::Throttle { chat_id: ms[i].chat_id, username: ms[i].username }
    }
}

/// The decisions earned by the first `k` messages: one per distinct
/// identity, at its first occurrence, in batch order.
pub open spec fn plan_prefix(ms: Seq<IncomeMessageV>, k: int) -> Seq<DecisionV>
    decreases k,
{
    if k <= 0 {
        Seq::empty()
    } else if seen_before(ms, k - 1) {
        plan_prefix(ms, k - 1)
    } else {
        plan_prefix(ms, k - 1).push(decision_for(ms, k - 1))
    }
}

/// The per-identity plan for one polling batch.
pub open spec fn spec_plan(ms: Seq<IncomeMessageV>) -> Seq<DecisionV> {
    plan_prefix(ms, ms.len() as int)
}

/// Serializes a polling batch per originating identity: each identity
/// gets exactly one decision, at its first message -- a reaction when it
/// sent one message this batch, a throttling signal when it sent more.
pub fn plan_reactions(messages: &Vec<IncomeMessage>) -> (r: Vec<Decision>)
    ensures
        r.deep_view() == spec_plan(messages.deep_view()),
{
    let ghost ms = messages.deep_view();
    let n: usize = messages.len();
    let mut out: Vec<Decision> = Vec::new();
    proof {
        assert(out.deep_view() =~= plan_prefix(ms, 0));
    }
    let mut i: usize = 0;
    while i < n
        invariant
            n == messages@.len(),
            ms == messages.deep_view(),
            i <= n,
            out.deep_view() == plan_prefix(ms, i as int),
        decreases n - i,
    {
        let mut seen = false;
        let mut j: usize = 0;
        while j < i
            invariant
                j <= i,
                i < n,
                n == messages@.len(),
                ms == messages.deep_view(),
                seen == exists|m: int| 0 <= m < j && ms[m].username == ms[i as int].username,
            decreases i - j,
        {
            if str_eq(messages[j].username.as_str(), messages[i].username.as_str()) {
                proof {
                    assert(ms[j as int].username == ms[i as int].username);
                }
                seen = true;
            }
            j += 1;
        }
        if !seen {
            let mut cnt: usize = 0;
            let mut k: usize = 0;
            while k < n
                invariant
                    k <= n,
                    cnt <= k,
                    i < n,
                    n == messages@.len(),
                    ms == messages.deep_view(),
                    cnt == count_user_prefix(ms, ms[i as int].username, k as int),
                decreases n - k,
            {
                if str_eq(messages[k].username.as_str(), messages[i].username.as_str()) {
                    cnt += 1;
                }
                k += 1;
            }
            let ghost pre = out.deep_view();
            if cnt == 1 {
                out.push(Decision::React(messages[i].clone()));
                proof {
                    assert(out.deep_view() =~= pre.push(decision_for(ms, i as int)));
                }
            } else {
                out.push(
                    Decision::Throttle {
                        chat_id: messages[i].chat_id,
                        username: messages[i].username.clone(),
                    },
                );
                proof {
                    assert(out.deep_view() =~= pre.push(decision_for(ms, i as int)));
                }
            }
        }
        i += 1;
    }
    out
}

} // verus!
