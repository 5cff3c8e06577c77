use termusic::lyric::{LyricError, LyricFrame, Model, SongLyrics};
use termusic::player::{Backend, Player, PlayerType, Status};

#[test]
fn status_names_and_default() {
    assert_eq!(Status::Running.to_string(), "Running");
    assert_eq!(Status::Stopped.to_string(), "Stopped");
    assert_eq!(Status::Paused.to_string(), "Paused");
    assert_eq!(Status::default(), Status::Stopped);
}

#[test]
fn player_routes_by_type() {
    let p = Player::default();
    assert_eq!(p.player_type, PlayerType::mp3);
    assert_eq!(p.backend(), Backend::Mpv);
    assert_eq!(p.volume(70), 70);
    assert!(!p.is_paused(false));
    let m = Player { player_type: PlayerType::m4a };
    assert_eq!(m.backend(), Backend::Vlc);
    assert_eq!(m.volume(70), 0);
    assert!(m.is_paused(false));
}

fn model(n: usize) -> Model {
    let frames = (0..n)
        .map(|i| LyricFrame { description: format!("lang{}", i), text: String::new() })
        .collect();
    Model { current_song: Some(SongLyrics { frames, selected: 0, delay_ms: 0 }) }
}

#[test]
fn lyric_cycle_wraps_around() {
    let mut m = model(3);
    assert_eq!(m.lyric_cycle().as_deref(), Some("lang1"));
    assert_eq!(m.lyric_cycle().as_deref(), Some("lang2"));
    assert_eq!(m.lyric_cycle().as_deref(), Some("lang0"));
    assert_eq!(m.current_song.as_ref().unwrap().selected, 0);
    let mut empty = model(0);
    assert_eq!(empty.lyric_cycle(), None);
    let mut none = Model { current_song: None };
    assert_eq!(none.lyric_cycle(), None);
}

#[test]
fn lyric_delay_adjusts_and_checks_range() {
    let mut m = model(1);
    assert_eq!(m.lyric_adjust_delay(500), Ok(()));
    assert_eq!(m.lyric_adjust_delay(-200), Ok(()));
    assert_eq!(m.current_song.as_ref().unwrap().delay_ms, 300);
    assert_eq!(m.lyric_adjust_delay(i64::MAX), Err(LyricError::DelayOutOfRange));
    assert_eq!(m.current_song.as_ref().unwrap().delay_ms, 300);
    let mut empty = model(0);
    assert_eq!(empty.lyric_adjust_delay(10), Ok(()));
    assert_eq!(empty.current_song.as_ref().unwrap().delay_ms, 0);
}
