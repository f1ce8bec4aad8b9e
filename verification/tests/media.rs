use dban::media::{
    best_session, command_outcome, filter_snapshot, make_track, media_mode_plan, no_session_message,
    normalize_source_id, session_score, source_name, track_signature, watch_update, MediaCommand,
    MediaFilter, MediaState, SessionInfo, Track,
};
use dban::sources::{list_sources_of, SessionEntry};

#[test]
fn empty_media_session_has_empty_signature() {
    assert_eq!(track_signature(None), "");
}

#[test]
fn signature_changes_with_playback_state_and_source() {
    let mut track = Track {
        title: "Song".into(),
        artist: "Artist".into(),
        playing: false,
        play_mode: "sequence".into(),
        source_id: "netease.cloudmusic".into(),
        source_name: "网易云音乐".into(),
    };
    let paused = track_signature(Some(&track));
    track.playing = true;
    assert_ne!(paused, track_signature(Some(&track)));
    track.source_id = "qishui.music".into();
    assert_ne!(paused, track_signature(Some(&track)));
}

#[test]
fn playing_session_beats_paused_preferred_player() {
    assert!(session_score("spotify", true) > session_score("netease.cloudmusic", false));
    assert!(session_score("netease.cloudmusic", true) > session_score("spotify", true));
}

#[test]
fn selected_filter_matches_source_ids_case_insensitively() {
    let filter = MediaFilter {
        selected_only: true,
        source_ids: vec![normalize_source_id("NetEase.CloudMusic")],
    };
    assert!(filter.allows("netease.cloudmusic"));
    assert!(!filter.allows("spotify"));
}

#[test]
fn all_sources_filter_accepts_every_session() {
    assert!(MediaFilter::default().allows("any.player"));
}

#[test]
fn recognizes_known_music_players() {
    assert_eq!(source_name("NetEase.CloudMusic"), "网易云音乐");
    assert_eq!(source_name("com.luna.music"), "汽水音乐");
}

#[test]
fn signature_has_fields_in_order() {
    let track = Track {
        title: "T".into(),
        artist: "A".into(),
        playing: true,
        play_mode: "single".into(),
        source_id: "s".into(),
        source_name: "S".into(),
    };
    assert_eq!(track_signature(Some(&track)), "s|T|A|true|single");
}

#[test]
fn normalizes_white_space_and_ascii_case_only() {
    assert_eq!(normalize_source_id("  NetEase.CloudMusic\t\n"), "netease.cloudmusic");
    assert_eq!(normalize_source_id("\u{3000}ÄPPLE\u{a0}"), "Äpple");
    assert_eq!(normalize_source_id("   "), "");
}

#[test]
fn names_every_known_player_and_falls_back_to_the_id() {
    assert_eq!(source_name("QQMusic.exe"), "QQ音乐");
    assert_eq!(source_name("KuGou"), "酷狗音乐");
    assert_eq!(source_name("kuwo"), "酷我音乐");
    assert_eq!(source_name("Spotify.exe"), "Spotify");
    assert_eq!(source_name("Chrome"), "Google Chrome");
    assert_eq!(source_name("MSEdge"), "Microsoft Edge");
    assert_eq!(source_name("Microsoft.MicrosoftEdge"), "Microsoft Edge");
    assert_eq!(source_name("firefox.exe"), "Firefox");
    assert_eq!(source_name("DouYinMusic"), "汽水音乐");
    assert_eq!(source_name("  VLC  "), "VLC");
    assert_eq!(source_name("  "), "未知播放器");
}

#[test]
fn scores_playing_and_preferred() {
    assert_eq!(session_score("spotify", false), 0);
    assert_eq!(session_score("Luna", false), 1);
    assert_eq!(session_score("spotify", true), 2);
    assert_eq!(session_score("QiShui", true), 3);
}

#[test]
fn selection_normalizes_and_drops_blank_ids() {
    let f = MediaFilter::from_selection(
        true,
        &vec![" Spotify ".to_string(), "".to_string(), "spotify".to_string(), "KuGou".to_string()],
    );
    assert_eq!(f.source_ids, vec!["spotify".to_string(), "kugou".to_string()]);
    assert!(f.allows("SPOTIFY"));
    assert!(!f.allows("chrome"));
    let state = MediaState { filter: f };
    let copy = filter_snapshot(&state);
    assert!(copy.selected_only);
    assert_eq!(copy.source_ids, state.filter.source_ids);
}

#[test]
fn best_session_prefers_playing_then_preferred_then_first() {
    let sessions = vec![
        SessionInfo { source_id: "spotify".into(), playing: false },
        SessionInfo { source_id: "chrome".into(), playing: true },
        SessionInfo { source_id: "netease".into(), playing: true },
        SessionInfo { source_id: "luna".into(), playing: true },
    ];
    assert_eq!(best_session(&sessions, &MediaFilter::default()), Some(2));
    let only_spotify = MediaFilter { selected_only: true, source_ids: vec!["spotify".into()] };
    assert_eq!(best_session(&sessions, &only_spotify), Some(0));
    let nothing = MediaFilter { selected_only: true, source_ids: vec![] };
    assert_eq!(best_session(&sessions, &nothing), None);
    assert_eq!(best_session(&vec![], &MediaFilter::default()), None);
}

#[test]
fn play_mode_follows_shuffle_then_repeat() {
    let t = make_track("a".into(), "b".into(), true, true, true, "Spotify".into());
    assert_eq!(t.play_mode, "shuffle");
    assert_eq!(t.source_name, "Spotify");
    let t = make_track("a".into(), "b".into(), false, false, true, "x".into());
    assert_eq!(t.play_mode, "single");
    let t = make_track("a".into(), "b".into(), false, false, false, "x".into());
    assert_eq!(t.play_mode, "sequence");
    assert!(!t.playing);
}

#[test]
fn mode_commands_and_refusals() {
    let p = media_mode_plan("single").unwrap();
    assert_eq!((p.first, p.second), (MediaCommand::SetShuffle(false), MediaCommand::SetRepeatTrack(true)));
    assert_eq!(p.label, "单曲循环");
    let p = media_mode_plan("shuffle").unwrap();
    assert_eq!((p.first, p.second), (MediaCommand::SetRepeatTrack(false), MediaCommand::SetShuffle(true)));
    assert_eq!(p.label, "随机播放");
    let p = media_mode_plan("sequence").unwrap();
    assert_eq!((p.first, p.second), (MediaCommand::SetShuffle(false), MediaCommand::SetRepeatTrack(false)));
    assert_eq!(p.label, "顺序播放");
    assert_eq!(media_mode_plan("loop").err().unwrap(), "未知播放模式");
    assert_eq!(command_outcome(true, "单曲循环"), Ok(()));
    assert_eq!(command_outcome(false, "单曲循环"), Err("当前播放器不支持单曲循环".to_string()));
    assert_eq!(no_session_message(true), "指定的播放器当前没有可控制媒体会话");
    assert_eq!(no_session_message(false), "没有可控制的媒体会话");
}

#[test]
fn watcher_emits_only_changes() {
    let last = "a|b".to_string();
    assert_eq!(watch_update(&last, "a|b".to_string()), None);
    assert_eq!(watch_update(&last, "a|c".to_string()), Some("a|c".to_string()));
}

fn entry(id: &str, playing: bool, title: &str) -> SessionEntry {
    SessionEntry { source_id: id.into(), playing, title: title.into(), artist: "x".into() }
}

#[test]
fn sources_merge_by_id_and_sort_playing_first_then_by_name() {
    let entries = vec![
        entry("B.Player", false, ""),
        entry("a.player", false, "One"),
        entry("  ", true, "blank"),
        entry("b.player ", true, "Two"),
        entry("A.PLAYER", false, "Three"),
        entry("Spotify", false, "Four"),
    ];
    let sources = list_sources_of(&entries);
    let ids: Vec<&str> = sources.iter().map(|s| s.id.as_str()).collect();
    assert_eq!(ids, vec!["B.Player", "a.player", "Spotify"]);
    assert!(sources[0].playing);
    assert_eq!(sources[0].title, "Two");
    assert_eq!(sources[0].name, "B.Player");
    assert_eq!(sources[1].title, "One");
    assert_eq!(sources[2].name, "Spotify");
}
