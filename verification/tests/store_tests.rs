use ytdlpbot::prefs::{CutInterval, Mode, Quality, UserConfig};
use ytdlpbot::store::State;

#[test]
fn miss_returns_defaults_without_inserting() {
    let state = State::new();
    let uc = state.get_userconfig(42);
    assert_eq!(uc.mode, Mode::Video);
    assert_eq!(uc.aquality, Quality::Low);
    assert_eq!(uc.vquality, Quality::Low);
    assert!(uc.vcodec_exclude.is_empty());
    assert_eq!(uc.cut_interval, None);
}

#[test]
fn set_then_get_roundtrip() {
    let mut state = State::new();
    let mut uc = UserConfig::new();
    uc.mode = Mode::Audio;
    uc.vquality = Quality::Awful;
    uc.vcodec_exclude = vec!["vp".to_string()];
    state.set_userconfig(7, uc);
    let got = state.get_userconfig(7);
    assert_eq!(got.mode, Mode::Audio);
    assert_eq!(got.vquality, Quality::Awful);
    assert_eq!(got.vcodec_exclude, vec!["vp".to_string()]);
}

#[test]
fn setters_rewrite_one_field_each() {
    let mut state = State::new();
    state.set_mode(1, Mode::Audio);
    state.set_video_quality(1, Quality::High);
    state.set_audio_quality(1, Quality::High);
    state.set_vcodec_exclude(1, vec!["av".to_string()]);
    state.set_cut_inteval(1, Some(CutInterval { start: 3, end: 9 }));
    let got = state.get_userconfig(1);
    assert_eq!(got.mode, Mode::Audio);
    assert_eq!(got.vquality, Quality::High);
    assert_eq!(got.aquality, Quality::High);
    assert_eq!(got.vcodec_exclude, vec!["av".to_string()]);
    assert_eq!(got.cut_interval, Some(CutInterval { start: 3, end: 9 }));

    state.set_cut_inteval(1, None);
    let got = state.get_userconfig(1);
    assert_eq!(got.cut_interval, None);
    assert_eq!(got.mode, Mode::Audio);
}

#[test]
fn get_mode_reads_the_stored_mode() {
    let mut state = State::new();
    assert_eq!(state.get_mode(5), Mode::Video);
    state.set_mode(5, Mode::Audio);
    assert_eq!(state.get_mode(5), Mode::Audio);
}

#[test]
fn update_userconfig_applies_transformation_atomically() {
    let mut state = State::new();
    state.set_mode(9, Mode::Audio);
    let updated = state.update_userconfig(9, |mut uc: UserConfig| {
        uc.vquality = Quality::High;
        uc
    });
    assert_eq!(updated.mode, Mode::Audio);
    assert_eq!(updated.vquality, Quality::High);
    let got = state.get_userconfig(9);
    assert_eq!(got.mode, Mode::Audio);
    assert_eq!(got.vquality, Quality::High);
}

#[test]
fn hundred_and_first_identity_evicts_least_recent() {
    let mut state = State::new();
    for id in 0..100i64 {
        state.set_mode(id, Mode::Audio);
    }
    // All hundred are present.
    assert_eq!(state.get_userconfig(0).mode, Mode::Audio);
    assert_eq!(state.get_userconfig(99).mode, Mode::Audio);
    // The hundred-and-first distinct identity evicts the least recently
    // written one, which is identity 0.
    state.set_mode(100, Mode::Audio);
    assert_eq!(state.get_userconfig(0).mode, Mode::Video);
    assert_eq!(state.get_userconfig(1).mode, Mode::Audio);
    assert_eq!(state.get_userconfig(100).mode, Mode::Audio);
}

#[test]
fn rewriting_a_key_refreshes_its_recency() {
    let mut state = State::new();
    for id in 0..100i64 {
        state.set_mode(id, Mode::Audio);
    }
    // Touch identity 0 again: identity 1 becomes the least recent.
    state.set_video_quality(0, Quality::High);
    state.set_mode(100, Mode::Audio);
    assert_eq!(state.get_userconfig(0).mode, Mode::Audio);
    assert_eq!(state.get_userconfig(1).mode, Mode::Video);
}
