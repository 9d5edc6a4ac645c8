use ytdlpbot::interp::{apply_command, interpret, parse_command, plan_reactions, Applied, Command,
    Decision};
use ytdlpbot::messages::IncomeMessage;
use ytdlpbot::prefs::{CutInterval, Mode, Quality};
use ytdlpbot::store::State;

fn msg(chat_id: i64, username: &str, text: &str) -> IncomeMessage {
    IncomeMessage {
        chat_id,
        username: username.to_string(),
        text: text.to_string(),
    }
}

#[test]
fn url_text_parses_as_download() {
    match parse_command("https://example.com/watch?v=abc") {
        Command::Download => {}
        other => panic!("expected a download command, got {:?}", other),
    }
}

#[test]
fn plain_text_is_not_a_download() {
    match parse_command("hello there") {
        Command::Unknown => {}
        other => panic!("expected an unknown command, got {:?}", other),
    }
}

#[test]
fn known_commands_parse() {
    assert!(matches!(parse_command("/st"), Command::Status));
    assert!(matches!(parse_command("/audio"), Command::SetMode(Mode::Audio)));
    assert!(matches!(parse_command("/video"), Command::SetMode(Mode::Video)));
    assert!(matches!(
        parse_command("/video_quality_high"),
        Command::SetVideoQuality(Quality::High)
    ));
    assert!(matches!(
        parse_command("/video_quality_low"),
        Command::SetVideoQuality(Quality::Low)
    ));
    assert!(matches!(
        parse_command("/video_quality_awful"),
        Command::SetVideoQuality(Quality::Awful)
    ));
    assert!(matches!(
        parse_command("/audio_quality_high"),
        Command::SetAudioQuality(Quality::High)
    ));
    assert!(matches!(
        parse_command("/audio_quality_low"),
        Command::SetAudioQuality(Quality::Low)
    ));
    assert!(matches!(parse_command("/nonsense"), Command::Unknown));
    assert!(matches!(parse_command(""), Command::Unknown));
    // Trailing tokens after a simple command are ignored.
    assert!(matches!(parse_command("/audio extra words"), Command::SetMode(Mode::Audio)));
}

#[test]
fn vcodec_exclude_takes_all_following_tokens() {
    match parse_command("/vcodec_exclude vp av01") {
        Command::SetVcodecExclude(list) => {
            assert_eq!(list, vec!["vp".to_string(), "av01".to_string()]);
        }
        other => panic!("expected an exclusion command, got {:?}", other),
    }
    match parse_command("/vcodec_exclude") {
        Command::SetVcodecExclude(list) => assert!(list.is_empty()),
        other => panic!("expected an exclusion command, got {:?}", other),
    }
}

#[test]
fn cut_interval_parses_two_numeric_offsets() {
    match parse_command("/cut_interval 10 25") {
        Command::SetCutInterval(ci) => {
            assert_eq!(ci, CutInterval { start: 10, end: 25 });
        }
        other => panic!("expected a trim command, got {:?}", other),
    }
}

#[test]
fn cut_interval_end_before_start_is_accepted_verbatim() {
    // Only arithmetic parse failures are rejected; the interval passes
    // through and the trimming executor refuses it at execution time.
    match parse_command("/cut_interval 10 5") {
        Command::SetCutInterval(ci) => {
            assert_eq!(ci, CutInterval { start: 10, end: 5 });
        }
        other => panic!("expected a trim command, got {:?}", other),
    }
}

#[test]
fn cut_interval_rejects_non_numeric_offsets() {
    assert!(matches!(parse_command("/cut_interval 10 abc"), Command::InvalidCutInterval));
    assert!(matches!(parse_command("/cut_interval x 5"), Command::InvalidCutInterval));
    // Wrong arity is an unknown command, as is a bare token.
    assert!(matches!(parse_command("/cut_interval 10"), Command::Unknown));
    assert!(matches!(parse_command("/cut_interval 1 2 3"), Command::Unknown));
}

#[test]
fn invalid_interval_changes_no_state() {
    let mut state = State::new();
    state.set_mode(3, Mode::Audio);
    let r = interpret(&mut state, 3, "/cut_interval 10 abc");
    assert!(matches!(r, Applied::InvalidInterval));
    let got = state.get_userconfig(3);
    assert_eq!(got.mode, Mode::Audio);
    assert_eq!(got.cut_interval, None);
}

#[test]
fn interpret_mutates_exactly_one_field() {
    let mut state = State::new();
    let r = interpret(&mut state, 8, "/video_quality_awful");
    match r {
        Applied::Confirm(uc) => assert_eq!(uc.vquality, Quality::Awful),
        other => panic!("expected a confirmation, got {:?}", other),
    }
    let r = interpret(&mut state, 8, "/cut_interval 2 8");
    match r {
        Applied::Confirm(uc) => {
            assert_eq!(uc.cut_interval, Some(CutInterval { start: 2, end: 8 }));
            assert_eq!(uc.vquality, Quality::Awful);
        }
        other => panic!("expected a confirmation, got {:?}", other),
    }
}

#[test]
fn status_reports_without_mutating() {
    let mut state = State::new();
    state.set_mode(4, Mode::Audio);
    let r = interpret(&mut state, 4, "/st");
    match r {
        Applied::Status(uc) => assert_eq!(uc.mode, Mode::Audio),
        other => panic!("expected a status report, got {:?}", other),
    }
}

#[test]
fn unknown_command_applies_nothing() {
    let mut state = State::new();
    let r = apply_command(&mut state, 2, Command::Unknown);
    assert!(matches!(r, Applied::Unknown));
    assert_eq!(state.get_userconfig(2).mode, Mode::Video);
}

#[test]
fn single_message_per_identity_is_reacted_to() {
    let batch = vec![msg(1, "ann", "/st"), msg(2, "bob", "/audio")];
    let plan = plan_reactions(&batch);
    assert_eq!(plan.len(), 2);
    match &plan[0] {
        Decision::React(m) => assert_eq!(m.text, "/st"),
        other => panic!("expected a reaction, got {:?}", other),
    }
    match &plan[1] {
        Decision::React(m) => assert_eq!(m.username, "bob"),
        other => panic!("expected a reaction, got {:?}", other),
    }
}

#[test]
fn burst_from_one_identity_is_throttled_once() {
    let batch = vec![
        msg(1, "ann", "first"),
        msg(5, "bob", "/st"),
        msg(1, "ann", "second"),
        msg(1, "ann", "third"),
    ];
    let plan = plan_reactions(&batch);
    assert_eq!(plan.len(), 2);
    match &plan[0] {
        Decision::Throttle { chat_id, username } => {
            assert_eq!(*chat_id, 1);
            assert_eq!(username, "ann");
        }
        other => panic!("expected a throttle, got {:?}", other),
    }
    match &plan[1] {
        Decision::React(m) => assert_eq!(m.username, "bob"),
        other => panic!("expected a reaction, got {:?}", other),
    }
}

#[test]
fn empty_batch_plans_nothing() {
    let plan = plan_reactions(&Vec::new());
    assert!(plan.is_empty());
}
