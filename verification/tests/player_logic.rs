use mimi_engine::engine::PlayerState;
use mimi_engine::player::{
    chord_display_name, key_name_with_gender, next_rhythm, player_key_mark, player_key_outcome,
    player_key_request, PlayerKey, PlayerRequest, PlayerView, UiMode,
};
use mimi_engine::rhythm_engine::Rhythm;

fn view() -> PlayerView {
    PlayerView {
        mode: UiMode::Browsing,
        selected_index: 0,
        file_count: 3,
        browsing_toggle: true,
        has_engine: true,
        state: PlayerState::Stopped,
        rhythm: Rhythm::Original,
        key: 0,
        volume: 50,
        current_tick: 1000,
        total_tick: 1200,
    }
}

#[test]
fn key_names_follow_the_key_signature_and_offset() {
    assert_eq!(key_name_with_gender(0, false, 0, Some(false)), "C (Male)");
    assert_eq!(key_name_with_gender(0, true, 0, None), "Am (Female)");
    assert_eq!(key_name_with_gender(2, false, 0, None), "D (Male)");
    assert_eq!(key_name_with_gender(-3, false, 2, None), "F (Male)");
    assert_eq!(key_name_with_gender(1, false, -14, Some(true)), "F (Male)");
    assert_eq!(key_name_with_gender(1, false, -3, Some(true)), "E (Female)");
    assert_eq!(key_name_with_gender(0, false, 4, Some(false)), "E (Female)");
    assert_eq!(key_name_with_gender(9, false, 0, None), "C# (Male)");
    assert_eq!(key_name_with_gender(-7, true, 0, None), "G#m (Female)");
}

#[test]
fn transposing_by_an_octave_keeps_the_root() {
    for off in [-12i8, 0, 12] {
        assert!(key_name_with_gender(3, false, off, None).starts_with("A "));
    }
    assert!(key_name_with_gender(3, false, -1, None).starts_with("G# "));
    assert!(key_name_with_gender(3, false, 11, None).starts_with("G# "));
}

#[test]
fn chord_names() {
    assert_eq!(chord_display_name(0, false, false, false), "C");
    assert_eq!(chord_display_name(9, true, true, false), "Am7");
    assert_eq!(chord_display_name(5, false, true, true), "FMaj7");
    assert_eq!(chord_display_name(12, false, false, false), "?");
}

#[test]
fn rhythm_key_cycles_back_to_the_original() {
    let mut r = Rhythm::Original;
    let mut seen = Vec::new();
    for _ in 0..8 {
        r = next_rhythm(r);
        seen.push(r);
    }
    assert_eq!(r, Rhythm::Original);
    assert_eq!(seen[0], Rhythm::Disco);
    assert_eq!(seen[3], Rhythm::Dance);
    assert_eq!(seen[6], Rhythm::Edm);
}

#[test]
fn list_keys_move_the_selection_within_the_list() {
    let v = view();
    assert_eq!(player_key_outcome(v, PlayerKey::Up, false), (v, false));
    let (w, redraw) = player_key_outcome(v, PlayerKey::Down, false);
    assert!(redraw);
    assert_eq!(w.selected_index, 1);
    let last = PlayerView { selected_index: 2, ..v };
    assert_eq!(player_key_outcome(last, PlayerKey::Down, false), (last, false));
    assert_eq!(player_key_mark(v, PlayerKey::Up), Some('U'));
}

#[test]
fn enter_loads_the_selected_song() {
    let v = PlayerView { selected_index: 2, ..view() };
    assert_eq!(player_key_request(v, PlayerKey::Enter), Some(PlayerRequest::LoadAndPlay(2)));
    let (w, redraw) = player_key_outcome(v, PlayerKey::Enter, true);
    assert!(redraw);
    assert_eq!((w.mode, w.state, w.browsing_toggle), (UiMode::Playing, PlayerState::Playing, false));
    assert_eq!(player_key_outcome(v, PlayerKey::Enter, false), (v, false));
    let playing = PlayerView { mode: UiMode::Playing, ..v };
    assert_eq!(player_key_request(playing, PlayerKey::Enter), None);
    assert_eq!(player_key_mark(playing, PlayerKey::Enter), None);
}

#[test]
fn play_pause_stop_and_rhythm() {
    let v = view();
    assert_eq!(player_key_request(v, PlayerKey::PlayPause), Some(PlayerRequest::Play));
    assert_eq!(player_key_outcome(v, PlayerKey::PlayPause, true).0.state, PlayerState::Playing);
    let p = PlayerView { state: PlayerState::Playing, ..v };
    assert_eq!(player_key_request(p, PlayerKey::PlayPause), Some(PlayerRequest::Pause));
    assert_eq!(player_key_outcome(p, PlayerKey::PlayPause, false), (p, false));
    assert_eq!(player_key_request(v, PlayerKey::Stop), None);
    assert_eq!(player_key_request(p, PlayerKey::Stop), Some(PlayerRequest::Stop));
    assert_eq!(player_key_request(v, PlayerKey::NextRhythm), Some(PlayerRequest::SetRhythm(Rhythm::Disco)));
    assert_eq!(player_key_outcome(v, PlayerKey::NextRhythm, true).0.rhythm, Rhythm::Disco);
}

#[test]
fn key_and_volume_requests_are_clamped() {
    let v = PlayerView { key: -15, volume: 3, ..view() };
    assert_eq!(player_key_request(v, PlayerKey::KeyDown), Some(PlayerRequest::SetKey(-15)));
    assert_eq!(player_key_request(v, PlayerKey::KeyUp), Some(PlayerRequest::SetKey(-14)));
    assert_eq!(player_key_request(v, PlayerKey::VolumeDown), Some(PlayerRequest::SetVolume(0)));
    let w = PlayerView { key: 15, volume: 98, ..view() };
    assert_eq!(player_key_request(w, PlayerKey::KeyUp), Some(PlayerRequest::SetKey(15)));
    assert_eq!(player_key_request(w, PlayerKey::VolumeUp), Some(PlayerRequest::SetVolume(100)));
    assert_eq!(player_key_request(w, PlayerKey::TempoUp), Some(PlayerRequest::TempoStep(true)));
    assert_eq!(player_key_outcome(w, PlayerKey::VolumeUp, false), (w, true));
}

#[test]
fn seek_keys_stay_inside_the_song() {
    let v = view();
    assert_eq!(player_key_request(v, PlayerKey::Left(false)), Some(PlayerRequest::Seek(900)));
    assert_eq!(player_key_request(v, PlayerKey::Right(true)), Some(PlayerRequest::Seek(1200)));
    let (w, redraw) = player_key_outcome(v, PlayerKey::Right(false), true);
    assert!(redraw);
    assert_eq!(w.current_tick, 1100);
    let start = PlayerView { current_tick: 0, ..v };
    assert_eq!(player_key_request(start, PlayerKey::Left(true)), None);
    let near = PlayerView { current_tick: 300, ..v };
    assert_eq!(player_key_request(near, PlayerKey::Left(true)), Some(PlayerRequest::Seek(0)));
}

#[test]
fn esc_toggles_between_list_and_player() {
    let v = view();
    let (w, _) = player_key_outcome(v, PlayerKey::Esc, false);
    assert_eq!((w.mode, w.browsing_toggle), (UiMode::Playing, false));
    let (x, _) = player_key_outcome(w, PlayerKey::Esc, false);
    assert_eq!((x.mode, x.browsing_toggle), (UiMode::Browsing, true));
}

#[test]
fn keys_are_ignored_while_loading_or_without_engine() {
    let v = PlayerView { mode: UiMode::Loading, ..view() };
    assert_eq!(player_key_request(v, PlayerKey::PlayPause), None);
    assert_eq!(player_key_outcome(v, PlayerKey::Down, true), (v, false));
    assert_eq!(player_key_mark(v, PlayerKey::Down), None);
    let n = PlayerView { has_engine: false, ..view() };
    assert_eq!(player_key_request(n, PlayerKey::PlayPause), None);
    assert_eq!(player_key_outcome(n, PlayerKey::Down, false).0.selected_index, 1);
}
