use keystroke::finger::Finger;
use keystroke::keyboard_layout::us;
use keystroke::session::{build_rows, is_control, typing_hint, Keystroke, Session};

#[test]
fn typing_counts_errors_and_finishes() {
    let mut s = Session::new("ab");
    assert_eq!(s.position(), 0);
    assert!(!s.is_finished());
    assert_eq!(s.accuracy_counts(), None);
    assert_eq!(s.type_text("x", 100), Keystroke::Typed { ch: 'x', position: 1, errors: 1, finished: false });
    assert_eq!(s.start_time, Some(100));
    assert_eq!(s.backspace(), Some((0, 1)));
    assert_eq!(s.type_text("a", 200), Keystroke::Typed { ch: 'a', position: 1, errors: 1, finished: false });
    assert_eq!(s.type_text("b", 300), Keystroke::Typed { ch: 'b', position: 2, errors: 1, finished: true });
    assert!(s.is_finished());
    assert_eq!(s.finished_at, Some(300));
    assert_eq!(s.correct_chars(), 2);
    assert_eq!(s.accuracy_counts(), Some((2, 3)));
    assert_eq!(s.elapsed_nanos(10_000), 200);
    // a finished session takes no more keys
    assert_eq!(s.type_text("c", 400), Keystroke::Ignored);
    assert_eq!(s.backspace(), None);
}

#[test]
fn control_characters_and_empty_input_are_ignored() {
    let mut s = Session::new("ab");
    assert_eq!(s.type_text("", 1), Keystroke::Ignored);
    assert_eq!(s.type_text("\u{8}", 1), Keystroke::Ignored);
    assert_eq!(s.start_time, None);
    assert!(is_control('\u{7f}'));
    assert!(is_control('\u{9f}'));
    assert!(!is_control('a'));
    // only the first character counts
    assert_eq!(s.type_text("ab", 5), Keystroke::Typed { ch: 'a', position: 1, errors: 0, finished: false });
}

#[test]
fn elapsed_time() {
    let mut s = Session::new("abc");
    assert_eq!(s.elapsed_nanos(50), 0);
    s.type_text("a", 1_000);
    assert_eq!(s.elapsed_nanos(4_000), 3_000);
    assert_eq!(s.elapsed_nanos(500), 0);
}

#[test]
fn cells_and_hint() {
    let mut s = Session::new("ab c");
    s.type_text("a", 1);
    s.type_text("x", 2);
    let rows = build_rows(&s, &us());
    assert_eq!(rows.len(), 1);
    let states: Vec<i32> = rows[0].iter().map(|c| c.state).collect();
    assert_eq!(states, vec![1, 2, 3, 0]);
    assert_eq!(rows[0][3].finger, Finger::LeftMiddle);
    let h = typing_hint(&s, &us());
    assert_eq!(h.next, Some(' '));
    assert_eq!(h.finger, Finger::RightThumb);
    assert_eq!(h.text, "Next: space  \u{2014}  use your right thumb");
    s.type_text(" ", 3);
    s.type_text("c", 4);
    let h = typing_hint(&s, &us());
    assert_eq!(h.next, None);
    assert_eq!(h.text, "Lesson complete! Press Retry or move to the next one.");
}

#[test]
fn hint_for_a_character_no_key_types() {
    let s = Session::new("é");
    let h = typing_hint(&s, &us());
    assert_eq!(h.finger, Finger::Any);
    assert_eq!(h.text, "Next: 'é'");
}

#[test]
fn erasing_takes_back_the_character_but_not_the_mistake() {
    let mut s = Session::new("abc");
    s.type_text("a", 1);
    let before: Vec<char> = s.typed.clone();
    let errors_before = s.errors;
    s.type_text("z", 2);
    assert_eq!(s.errors, errors_before + 1);
    assert_eq!(s.backspace(), Some((1, errors_before + 1)));
    assert_eq!(s.typed, before);
    assert!(s.finished_at.is_none());
    // erasing at the start keeps the count and the position at zero
    let mut t = Session::new("x");
    assert_eq!(t.backspace(), Some((0, 0)));
}

#[test]
fn an_empty_text_only_starts_the_clock() {
    let mut s = Session::new("");
    assert_eq!(s.type_text("a", 7), Keystroke::Ignored);
    assert_eq!(s.start_time, Some(7));
    assert!(s.typed.is_empty());
    assert!(!s.is_finished());
    let rows = build_rows(&s, &us());
    assert_eq!(rows.len(), 1);
    assert!(rows[0].is_empty());
}
