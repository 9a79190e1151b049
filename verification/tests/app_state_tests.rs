use keystroke::app_state::{
    choose_player_name, AppState, GameSubState, Mode, NetEvent, NetReaction, RaceStanding,
};
use keystroke::keyboard_layout::us;
use keystroke::lessons::{lesson, lesson_subtitle, lessons, LESSON_COUNT};
use keystroke::peers::Peer;
use keystroke::session::Keystroke;
use keystroke::texts::{sample_text, texts, TEXT_COUNT};

fn peer(id: &str, name: &str) -> Peer {
    Peer { id: id.to_string(), name: name.to_string(), tcp_ip: 0x0a00_0001, tcp_port: 4000, last_seen: 0 }
}

fn state() -> AppState {
    AppState::new(us(), "Ann".to_string())
}

#[test]
fn lessons_clamp_and_advance() {
    let mut s = state();
    s.start_lesson(99);
    assert_eq!(s.mode, Mode::Lesson(LESSON_COUNT - 1));
    assert_eq!(s.last_lesson_index, 7);
    s.advance_to_next();
    assert_eq!(s.mode, Mode::Lesson(7));
    s.start_lesson(2);
    s.advance_to_next();
    assert_eq!(s.mode, Mode::Lesson(3));
    let text: Vec<char> = lesson(3).text.chars().collect();
    assert_eq!(s.session.as_ref().unwrap().target, text);
    assert_eq!(lessons().len(), 8);
}

#[test]
fn practice_wraps_round() {
    let mut s = state();
    s.start_practice(TEXT_COUNT - 1);
    s.advance_to_next();
    assert_eq!(s.mode, Mode::Practice(0));
    let text: Vec<char> = sample_text(0).content.chars().collect();
    assert_eq!(s.session.as_ref().unwrap().target, text);
    assert_eq!(texts().len(), 5);
    s.start_practice(99);
    assert_eq!(s.mode, Mode::Practice(4));
}

#[test]
fn completing_a_lesson_marks_it() {
    let mut s = state();
    s.start_lesson(5);
    let text = lesson(5).text;
    let n = text.chars().count();
    let mut last = Keystroke::Ignored;
    for (i, c) in text.chars().enumerate() {
        last = s.key_typed(&c.to_string(), i as u64);
    }
    assert_eq!(last, Keystroke::Typed { ch: 's', position: n, errors: 0, finished: true });
    assert!(s.lessons_completed.contains(&5));
    s.restart_current();
    assert_eq!(s.session.as_ref().unwrap().position(), 0);
}

#[test]
fn home_ignores_keys() {
    let mut s = state();
    assert_eq!(s.key_typed("a", 1), Keystroke::Ignored);
    assert_eq!(s.backspace(), None);
}

#[test]
fn race_flow() {
    let mut s = state();
    s.enter_game(4000, vec![peer("p1", "Bob")]);
    assert_eq!(s.mode, Mode::Game);
    assert_eq!(s.game.network_status, "Listening on TCP port 4000 as \"Ann\"");
    assert!(s.may_invite());
    // an incoming request in the lobby is shown
    assert_eq!(s.apply_net_event(NetEvent::IncomingRaceRequest { opponent: peer("p1", "Bob") }, 0), NetReaction::Nothing);
    assert!(s.game.incoming_request.is_some());
    assert!(s.accept_incoming());
    assert_eq!(s.game.message, "Starting race\u{2026}");
    s.apply_net_event(NetEvent::RaceStartedAsServer { text: "ab".to_string(), opponent: peer("p1", "Bob") }, 10);
    assert_eq!(s.game.sub, GameSubState::Countdown);
    assert_eq!(s.game.countdown_secs, 3);
    assert_eq!(s.game.text_len, 2);
    // keys do nothing during the countdown
    assert_eq!(s.key_typed("a", 11), Keystroke::Ignored);
    // another request while busy is declined
    assert_eq!(s.apply_net_event(NetEvent::IncomingRaceRequest { opponent: peer("p2", "Cy") }, 12), NetReaction::RejectIncoming);
    assert!(!s.tick(10 + 1_500_000_000));
    assert_eq!(s.game.countdown_secs, 2);
    assert!(!s.tick(10 + 2_000_000_001));
    assert_eq!(s.game.countdown_secs, 1);
    assert!(s.tick(10 + 3_000_000_000));
    assert_eq!(s.game.sub, GameSubState::Racing);
    assert_eq!(s.session.as_ref().unwrap().start_time, Some(3_000_000_010));
    s.apply_net_event(NetEvent::OpponentProgress { position: 1, errors: 0 }, 20);
    assert_eq!(s.game.opponent_pos, 1);
    s.key_typed("a", 30);
    s.key_typed("b", 40);
    assert_eq!(s.game.sub, GameSubState::Finished);
    s.apply_net_event(NetEvent::OpponentFinished { wpm_x100: 4250, accuracy_x100: 9000 }, 50);
    assert!(s.game.opponent_finished);
    assert_eq!(s.game.opponent_pos, 2);
    assert_eq!(s.game.opponent_wpm_x100, 4250);
    let again = s.begin_rematch();
    assert_eq!(again, Some(Some("p1".to_string())));
    assert_eq!(s.game.sub, GameSubState::Lobby);
    assert_eq!(s.game.message, "Requesting rematch\u{2026}");
    s.note_rematch(Some("refused"));
    assert_eq!(s.game.message, "Rematch failed: refused");
}

#[test]
fn opponent_leaving_mid_race() {
    let mut s = state();
    s.enter_game(1, vec![]);
    s.apply_net_event(NetEvent::RaceStartedAsClient { text: "abc".to_string(), opponent: peer("p1", "Bob") }, 0);
    s.apply_net_event(NetEvent::OpponentDisconnected, 5);
    assert_eq!(s.game.message, "Bob left the race.");
    assert_eq!(s.game.sub, GameSubState::Lobby);
    assert!(s.session.is_none());
    s.apply_net_event(NetEvent::InviteRejected { opponent_id: "p1".to_string() }, 6);
    assert_eq!(s.game.message, "They're busy or declined the race. Try again in a moment.");
    s.note_invite(None);
    assert_eq!(s.game.message, "Connecting\u{2026}");
    s.note_invite(Some("unknown peer"));
    assert_eq!(s.game.message, "Could not start race: unknown peer");
}

#[test]
fn race_start_outside_the_game_is_ignored() {
    let mut s = state();
    s.start_lesson(0);
    s.apply_net_event(NetEvent::RaceStartedAsClient { text: "abc".to_string(), opponent: peer("p1", "Bob") }, 0);
    assert_eq!(s.mode, Mode::Lesson(0));
    assert_eq!(s.game.sub, GameSubState::Lobby);
    s.apply_net_event(NetEvent::Status("hi".to_string()), 0);
    assert_eq!(s.game.network_status, "hi");
}

#[test]
fn navigation_and_names() {
    let mut s = state();
    s.start_lesson(3);
    s.open_practice();
    assert_eq!(s.mode, Mode::Practice(0));
    s.open_lessons();
    assert_eq!(s.mode, Mode::Lesson(3));
    s.enter_game(9, vec![]);
    s.open_home();
    assert_eq!(s.mode, Mode::Home);
    assert!(s.session.is_none());
    let n = s.rename_player("  Zed ", Some(7));
    assert_eq!(n, "Zed");
    assert_eq!(s.player_name, "Zed");
    assert_eq!(s.game.network_status, "Listening on TCP port 7 as \"Zed\"");
    assert_eq!(s.rename_player("", None), "Player");
    assert_eq!(s.game.network_status, "");
    assert_eq!(choose_player_name(Some("u".into()), Some("v".into())), "u");
    assert_eq!(choose_player_name(Some("".into()), Some("v".into())), "Player");
    assert_eq!(choose_player_name(None, Some("v".into())), "v");
    assert_eq!(choose_player_name(None, None), "Player");
}

#[test]
fn race_panel_standing_and_texts() {
    let mut s = state();
    s.enter_game(1, vec![]);
    assert_eq!(s.opponent_display_name(), "Opponent");
    assert_eq!(s.opponent_chars_text(), "");
    assert_eq!(s.race_standing(), RaceStanding::Undecided);
    s.apply_net_event(NetEvent::RaceStartedAsClient { text: "abc".to_string(), opponent: peer("p1", "Bob") }, 0);
    assert_eq!(s.opponent_display_name(), "Bob");
    assert_eq!(s.opponent_chars_text(), "0 / 3 chars");
    s.apply_net_event(NetEvent::OpponentProgress { position: 9, errors: 1 }, 1);
    assert_eq!(s.opponent_chars_text(), "3 / 3 chars");
    assert!(s.tick(3_000_000_000));
    s.key_typed("a", 3_100_000_000);
    s.key_typed("b", 3_200_000_000);
    s.apply_net_event(NetEvent::OpponentFinished { wpm_x100: 5000, accuracy_x100: 10000 }, 3_300_000_000);
    assert_eq!(s.race_standing(), RaceStanding::OpponentFinishedFirst);
    s.key_typed("c", 3_400_000_000);
    assert_eq!(s.race_standing(), RaceStanding::BothFinished);
    assert_eq!(s.game.sub, GameSubState::Finished);
}

#[test]
fn countdown_shows_three_two_one() {
    let mut s = state();
    s.enter_game(1, vec![]);
    s.apply_net_event(NetEvent::RaceStartedAsServer { text: "x".to_string(), opponent: peer("p1", "Bob") }, 100);
    let mut shown = vec![s.game.countdown_secs];
    let mut t = 100u64;
    while !s.tick(t) {
        if *shown.last().unwrap() != s.game.countdown_secs {
            shown.push(s.game.countdown_secs);
        }
        t += 250_000_000;
    }
    assert_eq!(shown, vec![3, 2, 1]);
    assert_eq!(t, 100 + 3_000_000_000);
    assert_eq!(s.game.countdown_secs, 0);
}

#[test]
fn lesson_subtitles_count_characters() {
    assert_eq!(lesson_subtitle(0), "39 characters");
    for i in 0..LESSON_COUNT {
        assert_eq!(lesson_subtitle(i), format!("{} characters", lesson(i).text.chars().count()));
    }
}
