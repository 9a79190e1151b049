use keystroke::wire::{
    classify_invite_reply, decision_accepts, done_line, hello_tcp_line, hello_udp_line,
    listening_status, parse_hello, parse_hello_tcp, parse_race_frame, progress_line,
    resolve_display_name, start_line, InviteReply, RaceFrame, busy_reply, server_answer,
    ServerAnswer,
};
use keystroke::textutil::{trim, trim_end, trim_line_end_of};

#[test]
fn progress_frame_round_trip() {
    let line = progress_line(12, 3);
    assert_eq!(line, "PROGRESS\t12\t3\n");
    assert_eq!(parse_race_frame(&line), RaceFrame::Progress { position: 12, errors: 3 });
}

#[test]
fn done_frame_round_trip() {
    let line = done_line(6543, -12);
    assert_eq!(line, "DONE\t6543\t-12\n");
    assert_eq!(parse_race_frame(&line), RaceFrame::Done { wpm_x100: 6543, accuracy_x100: -12 });
    let line = done_line(i64::MIN, i64::MAX);
    assert_eq!(parse_race_frame(&line), RaceFrame::Done { wpm_x100: i64::MIN, accuracy_x100: i64::MAX });
}

#[test]
fn race_frames_default_missing_numbers_to_zero() {
    assert_eq!(parse_race_frame("PROGRESS\n"), RaceFrame::Progress { position: 0, errors: 0 });
    assert_eq!(parse_race_frame("PROGRESS\tx\t4\r\n"), RaceFrame::Progress { position: 0, errors: 4 });
    assert_eq!(parse_race_frame("DONE\t5"), RaceFrame::Done { wpm_x100: 5, accuracy_x100: 0 });
    assert_eq!(parse_race_frame("QUIT\n"), RaceFrame::Quit);
    assert_eq!(parse_race_frame("QUIT\textra"), RaceFrame::Quit);
    assert_eq!(parse_race_frame("HELLO\tx"), RaceFrame::Other);
    assert_eq!(parse_race_frame(""), RaceFrame::Other);
    assert_eq!(parse_race_frame("PROGRESS\t1\t2\t3"), RaceFrame::Progress { position: 1, errors: 2 });
}

#[test]
fn hello_lines_read_back() {
    let l = hello_udp_line("abcd1234", 5555, "Alice the Great");
    assert_eq!(l, "HELLO\tabcd1234\t5555\tAlice the Great\n");
    let h = parse_hello(&trim_line_end_of(&l)).unwrap();
    assert_eq!(h.id, "abcd1234");
    assert_eq!(h.tcp_port, 5555);
    assert_eq!(h.name, "Alice the Great");
    let l = hello_tcp_line("abcd", "Bob");
    assert_eq!(l, "HELLO\tabcd\tBob\n");
    let h = parse_hello_tcp(&trim_end(&l)).unwrap();
    assert_eq!(h.id, "abcd");
    assert_eq!(h.name, "Bob");
}

#[test]
fn start_line_flattens_the_text() {
    assert_eq!(start_line("a\tb\nc"), "START\ta b c\n");
    match classify_invite_reply(&start_line("The quick fox.")) {
        InviteReply::Start(t) => assert_eq!(t, "The quick fox."),
        _ => panic!("expected START"),
    }
}

#[test]
fn invite_replies() {
    assert!(matches!(classify_invite_reply("REJECT\tbusy\n"), InviteReply::Rejected));
    assert!(matches!(classify_invite_reply("REJECT\tdeclined\n"), InviteReply::Rejected));
    assert!(matches!(classify_invite_reply("QUIT\n"), InviteReply::Rejected));
    assert!(matches!(classify_invite_reply("PROGRESS\t1\t2\n"), InviteReply::Invalid));
    // a START whose text is only white space loses its tab to the trim
    assert!(matches!(classify_invite_reply("START\t   \n"), InviteReply::Invalid));
    match classify_invite_reply("START\tx y  \r\n") {
        InviteReply::Start(t) => assert_eq!(t, "x y"),
        _ => panic!("expected START"),
    }
}

#[test]
fn status_and_names() {
    assert_eq!(listening_status(4000, "Ann"), "Listening on TCP port 4000 as \"Ann\"");
    assert_eq!(resolve_display_name("  Ann Lee \t"), "Ann Lee");
    assert_eq!(resolve_display_name("   "), "Player");
    assert_eq!(resolve_display_name(""), "Player");
    assert_eq!(trim("\u{3000} x \u{a0}"), "x");
    assert_eq!(trim_end(" a \n"), " a");
}

#[test]
fn decisions() {
    assert!(decision_accepts(Some(true)));
    assert!(!decision_accepts(Some(false)));
    assert!(!decision_accepts(None));
}

#[test]
fn start_lines_of_the_sample_texts_read_back() {
    for i in 0..keystroke::texts::TEXT_COUNT {
        let text = keystroke::texts::sample_text(i).content;
        match classify_invite_reply(&start_line(text)) {
            InviteReply::Start(t) => assert_eq!(t, text.replace('\t', " ").replace('\n', " ")),
            _ => panic!("expected START"),
        }
    }
}

#[test]
fn resolved_names_stay_resolved() {
    for raw in ["  Ann Lee \t", "", " \u{3000} ", "Zed", "\u{a0}Bo\u{a0}"] {
        let once = resolve_display_name(raw);
        assert_eq!(resolve_display_name(&once), once);
        let expected = if raw.trim().is_empty() { "Player" } else { raw.trim() };
        assert_eq!(once, expected);
    }
}

#[test]
fn server_answers() {
    assert_eq!(busy_reply(true, false), Some("REJECT\tbusy\n".to_string()));
    assert_eq!(busy_reply(false, true), Some("REJECT\tbusy\n".to_string()));
    assert_eq!(busy_reply(false, false), None);
    for d in [None, Some(false)] {
        match server_answer(d, 7) {
            ServerAnswer::Decline(l) => assert_eq!(l, "REJECT\tdeclined\n"),
            _ => panic!("expected a decline"),
        }
    }
    match server_answer(Some(true), 7) {
        ServerAnswer::Start { line, text } => {
            assert_eq!(text, keystroke::texts::sample_text(2).content);
            assert_eq!(line, start_line(&text));
        }
        _ => panic!("expected a start"),
    }
}
