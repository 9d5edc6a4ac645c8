use ytdlpbot::chooser::{choose_format, choose_format_audio, ChooseError};
use ytdlpbot::config::Config;
use ytdlpbot::formats::{Format, Video};
use ytdlpbot::prefs::{Mode, Quality, UserConfig};

fn conf(max_filesize: i64) -> Config {
    Config {
        max_filesize,
        telegram_token: String::new(),
        download_dir: "dl".to_string(),
    }
}

fn fmt(id: &str) -> Format {
    Format {
        format_id: id.to_string(),
        ext: "mp4".to_string(),
        vcodec: None,
        acodec: None,
        video_ext: None,
        audio_ext: None,
        filesize: None,
        filesize_approx: None,
        height: None,
        tbr: None,
        abr: None,
    }
}

fn video_only(id: &str, size: i64, height: i64) -> Format {
    let mut f = fmt(id);
    f.vcodec = Some("avc1".to_string());
    f.acodec = Some("none".to_string());
    f.filesize = Some(size);
    f.height = Some(height);
    f
}

fn audio_only(id: &str, size: i64, tbr: i64) -> Format {
    let mut f = fmt(id);
    f.vcodec = Some("none".to_string());
    f.acodec = Some("opus".to_string());
    f.filesize = Some(size);
    f.tbr = Some(tbr);
    f
}

fn combined(id: &str, size: i64, tbr: i64, height: i64) -> Format {
    let mut f = fmt(id);
    f.vcodec = Some("avc1".to_string());
    f.acodec = Some("mp4a".to_string());
    f.filesize = Some(size);
    f.tbr = Some(tbr);
    f.height = Some(height);
    f
}

fn catalog(formats: Vec<Format>) -> Video {
    Video {
        id: "vid1".to_string(),
        title: "a title".to_string(),
        ext: "mp4".to_string(),
        formats,
    }
}

#[test]
fn eligible_combined_encoding_is_selected() {
    let video = catalog(vec![combined("22", 1_000_000, 700, 720)]);
    let uc = UserConfig::new();
    let chosen = choose_format(&conf(2_000_000), &uc, &video).unwrap();
    assert_eq!(chosen.format_id.as_deref(), Some("22"));
    assert_eq!(chosen.ext, "mp4");
    assert_eq!(chosen.vcodec.as_deref(), Some("avc1"));
    assert_eq!(chosen.acodec.as_deref(), Some("mp4a"));
}

#[test]
fn all_sizes_unknown_or_over_bound_fails_in_both_modes() {
    let mut unknown = combined("1", 0, 700, 720);
    unknown.filesize = None;
    let over = combined("2", 5_000_000, 700, 720);
    let audio_over = audio_only("3", 5_000_000, 100);

    let video = catalog(vec![unknown, over, audio_over]);
    let mut uc = UserConfig::new();
    match choose_format(&conf(2_000_000), &uc, &video) {
        Err(ChooseError::NoVideo { max_filesize }) => assert_eq!(max_filesize, 2_000_000),
        other => panic!("expected video-mode failure, got {:?}", other),
    }
    uc.mode = Mode::Audio;
    match choose_format(&conf(2_000_000), &uc, &video) {
        Err(ChooseError::NoAudio { max_filesize }) => assert_eq!(max_filesize, 2_000_000),
        other => panic!("expected audio-mode failure, got {:?}", other),
    }
}

#[test]
fn selection_is_deterministic_across_runs() {
    let video = catalog(vec![
        combined("a", 1_000_000, 700, 720),
        combined("b", 1_000_000, 700, 720),
        combined("c", 900_000, 700, 480),
    ]);
    let uc = UserConfig::new();
    let first = choose_format(&conf(2_000_000), &uc, &video).unwrap();
    for _ in 0..5 {
        let again = choose_format(&conf(2_000_000), &uc, &video).unwrap();
        assert_eq!(first.format_id, again.format_id);
    }
}

#[test]
fn video_only_and_audio_only_merge_with_summed_size() {
    let v = video_only("137", 1_000_000, 480);
    let a = audio_only("140", 200_000, 129);
    let video = catalog(vec![v, a]);
    let uc = UserConfig::new();
    let chosen = choose_format(&conf(2_000_000), &uc, &video).unwrap();
    assert_eq!(chosen.format_id.as_deref(), Some("137+140"));
    assert_eq!(chosen.vcodec.as_deref(), Some("avc1"));
    assert_eq!(chosen.acodec.as_deref(), Some("opus"));

    let merged = video.formats[0].add_audio(&video.formats[1]);
    assert_eq!(merged.format_id, "137+140");
    assert_eq!(merged.filesize, Some(1_200_000));
}

#[test]
fn quality_target_sets_bitrate_direction() {
    let video = catalog(vec![
        combined("slow", 1_000_000, 500, 720),
        combined("fast", 1_000_000, 1500, 720),
    ]);
    let mut uc = UserConfig::new();
    uc.vquality = Quality::High;
    let chosen = choose_format(&conf(2_000_000), &uc, &video).unwrap();
    assert_eq!(chosen.format_id.as_deref(), Some("fast"));
    uc.vquality = Quality::Low;
    let chosen = choose_format(&conf(2_000_000), &uc, &video).unwrap();
    assert_eq!(chosen.format_id.as_deref(), Some("slow"));
}

#[test]
fn audio_quality_target_sets_bitrate_direction() {
    let video = catalog(vec![
        audio_only("lo", 100_000, 64),
        audio_only("hi", 150_000, 160),
    ]);
    let mut uc = UserConfig::new();
    uc.mode = Mode::Audio;
    uc.aquality = Quality::High;
    let chosen = choose_format(&conf(2_000_000), &uc, &video).unwrap();
    assert_eq!(chosen.format_id.as_deref(), Some("hi"));
    uc.aquality = Quality::Low;
    let chosen = choose_format(&conf(2_000_000), &uc, &video).unwrap();
    assert_eq!(chosen.format_id.as_deref(), Some("lo"));
}

#[test]
fn unknown_resolution_passes_the_floor() {
    let mut f = combined("noheight", 1_000_000, 700, 0);
    f.height = None;
    let video = catalog(vec![f]);
    let uc = UserConfig::new();
    let chosen = choose_format(&conf(2_000_000), &uc, &video).unwrap();
    assert_eq!(chosen.format_id.as_deref(), Some("noheight"));
}

#[test]
fn low_resolution_dropped_unless_quality_awful() {
    let video = catalog(vec![combined("tiny", 1_000_000, 700, 144)]);
    let mut uc = UserConfig::new();
    assert!(choose_format(&conf(2_000_000), &uc, &video).is_err());
    uc.vquality = Quality::Awful;
    let chosen = choose_format(&conf(2_000_000), &uc, &video).unwrap();
    assert_eq!(chosen.format_id.as_deref(), Some("tiny"));
}

#[test]
fn codec_exclusion_matches_by_prefix() {
    let mut vp9 = combined("vp9enc", 1_000_000, 700, 720);
    vp9.vcodec = Some("vp09.00.10.08".to_string());
    let mut av1 = combined("av1enc", 1_000_000, 600, 720);
    av1.vcodec = Some("av01.0.04M.08".to_string());
    let video = catalog(vec![vp9, av1]);
    let mut uc = UserConfig::new();
    uc.vcodec_exclude = vec!["vp".to_string()];
    let chosen = choose_format(&conf(2_000_000), &uc, &video).unwrap();
    assert_eq!(chosen.format_id.as_deref(), Some("av1enc"));

    uc.vcodec_exclude = vec!["vp".to_string(), "av".to_string()];
    assert!(choose_format(&conf(2_000_000), &uc, &video).is_err());
}

#[test]
fn audio_bitrate_floor_excludes_poor_audio() {
    let video = catalog(vec![
        audio_only("poor", 50_000, 32),
        audio_only("fine", 100_000, 64),
    ]);
    let mut uc = UserConfig::new();
    uc.mode = Mode::Audio;
    let chosen = choose_format(&conf(2_000_000), &uc, &video).unwrap();
    assert_eq!(chosen.format_id.as_deref(), Some("fine"));

    let only_poor = catalog(vec![audio_only("poor", 50_000, 32)]);
    assert!(choose_format(&conf(2_000_000), &uc, &only_poor).is_err());
}

#[test]
fn container_extension_hint_resolves_missing_tags() {
    let mut f = fmt("hinted");
    f.audio_ext = Some("m4a".to_string());
    f.filesize = Some(90_000);
    f.tbr = Some(128);
    let video = catalog(vec![f]);
    let mut uc = UserConfig::new();
    uc.mode = Mode::Audio;
    let chosen = choose_format(&conf(2_000_000), &uc, &video).unwrap();
    assert_eq!(chosen.format_id.as_deref(), Some("hinted"));
    assert_eq!(chosen.acodec, None);
}

#[test]
fn video_only_without_audio_partner_is_dropped() {
    let video = catalog(vec![video_only("silent", 1_000_000, 720)]);
    let uc = UserConfig::new();
    assert!(choose_format(&conf(2_000_000), &uc, &video).is_err());
}

#[test]
fn merged_size_over_bound_is_refiltered() {
    let v = video_only("big", 900_000, 720);
    let a = audio_only("snd", 200_000, 129);
    let video = catalog(vec![v, a]);
    let uc = UserConfig::new();
    // Each part is under the one-million bound, the merge is not.
    assert!(choose_format(&conf(1_000_000), &uc, &video).is_err());
}

#[test]
fn approximate_size_stands_in_for_missing_exact_size() {
    let mut f = combined("approx", 0, 700, 720);
    f.filesize = None;
    f.filesize_approx = Some(1_500_000);
    let video = catalog(vec![f]);
    let uc = UserConfig::new();
    assert!(choose_format(&conf(1_000_000), &uc, &video).is_err());
    let chosen = choose_format(&conf(2_000_000), &uc, &video).unwrap();
    assert_eq!(chosen.format_id.as_deref(), Some("approx"));
}

#[test]
fn audio_mode_returns_plain_format() {
    let video = catalog(vec![
        audio_only("140", 200_000, 129),
        combined("22", 1_000_000, 700, 720),
    ]);
    let mut uc = UserConfig::new();
    uc.mode = Mode::Audio;
    let chosen = choose_format_audio(&conf(2_000_000), &uc, &video).unwrap();
    assert_eq!(chosen.format_id, "140");
}

#[test]
fn unknown_bitrate_ranks_last_in_video_mode() {
    let mut mystery = combined("mystery", 900_000, 0, 720);
    mystery.tbr = None;
    let known = combined("known", 1_000_000, 500, 720);
    let video = catalog(vec![mystery.clone(), known]);
    let mut uc = UserConfig::new();
    // An undeclared bitrate is the worst case under either target: the
    // declared-bitrate encoding wins both ways.
    uc.vquality = Quality::Low;
    let chosen = choose_format(&conf(2_000_000), &uc, &video).unwrap();
    assert_eq!(chosen.format_id.as_deref(), Some("known"));
    uc.vquality = Quality::High;
    let chosen = choose_format(&conf(2_000_000), &uc, &video).unwrap();
    assert_eq!(chosen.format_id.as_deref(), Some("known"));
    // Alone, it is still selectable.
    let only = catalog(vec![mystery]);
    let chosen = choose_format(&conf(2_000_000), &UserConfig::new(), &only).unwrap();
    assert_eq!(chosen.format_id.as_deref(), Some("mystery"));
}

#[test]
fn unknown_bitrate_audio_passes_the_floor_but_ranks_last() {
    let mut unrated = audio_only("noRate", 90_000, 0);
    unrated.tbr = None;
    let declared = audio_only("rated", 100_000, 64);
    let video = catalog(vec![unrated.clone(), declared]);
    let mut uc = UserConfig::new();
    uc.mode = Mode::Audio;
    // Only a declared bitrate below the floor is dropped; an undeclared
    // one stays eligible but ranks worst under either target.
    uc.aquality = Quality::Low;
    let chosen = choose_format(&conf(2_000_000), &uc, &video).unwrap();
    assert_eq!(chosen.format_id.as_deref(), Some("rated"));
    uc.aquality = Quality::High;
    let chosen = choose_format(&conf(2_000_000), &uc, &video).unwrap();
    assert_eq!(chosen.format_id.as_deref(), Some("rated"));
    let only = catalog(vec![unrated]);
    let chosen = choose_format(&conf(2_000_000), &uc, &only).unwrap();
    assert_eq!(chosen.format_id.as_deref(), Some("noRate"));
}
