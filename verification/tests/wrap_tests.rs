use keystroke::wrap::wrap_indices;

fn chars(s: &str) -> Vec<char> {
    s.chars().collect()
}

#[test]
fn wrap_short_text_returns_single_row() {
    let t = chars("hello world");
    let rows = wrap_indices(&t, 56);
    assert_eq!(rows, vec![0..11]);
}

#[test]
fn wrap_empty_text_returns_one_empty_row() {
    let rows = wrap_indices(&[], 56);
    assert_eq!(rows, vec![0..0]);
}

#[test]
fn wrap_breaks_at_previous_space() {
    let t = chars("aa bb cc dd ee");
    let rows = wrap_indices(&t, 5);
    // "aa bb" fills the first row; the space at index 5 overflows it and
    // starts the second row.
    assert_eq!(rows, vec![0..5, 5..9, 9..14]);
}

#[test]
fn wrap_does_not_panic_when_overflowing_char_is_space() {
    let t = chars(
        "Det var i den tid jeg gikk omkring og sultet i Kristiania, denne \
         forunderlige by som ingen forlater før han har fått merker av den.",
    );
    let rows = wrap_indices(&t, 56);
    assert!(!rows.is_empty());
    let mut last_end = 0usize;
    for r in &rows {
        assert!(r.start == last_end, "row {:?} does not start at {}", r, last_end);
        assert!(r.end > r.start, "row {:?} is empty", r);
        last_end = r.end;
    }
    assert_eq!(last_end, t.len());
}

#[test]
fn wrap_hard_breaks_when_no_space_fits() {
    let t = chars("abcdefghij");
    let rows = wrap_indices(&t, 3);
    assert_eq!(rows, vec![0..3, 3..6, 6..9, 9..10]);
}

#[test]
fn wrap_cuts_after_the_last_space_of_a_full_row() {
    let t = chars("ab cdef gh");
    let rows = wrap_indices(&t, 5);
    // the row "ab cd" overflows at 'e'; it is cut after the space
    assert_eq!(rows, vec![0..3, 3..8, 8..10]);
}

#[test]
fn wrap_rows_never_exceed_the_width() {
    let t = chars("the quick brown fox jumps over the lazy dog near the riverbank");
    for width in 1..20 {
        let rows = wrap_indices(&t, width);
        let mut last_end = 0usize;
        for r in &rows {
            assert_eq!(r.start, last_end);
            assert!(r.end > r.start);
            assert!(r.end - r.start <= width);
            last_end = r.end;
        }
        assert_eq!(last_end, t.len());
    }
}

#[test]
fn a_short_row_ends_after_the_last_space_that_fits() {
    let t: Vec<char> = "ab cdefg".chars().collect();
    assert_eq!(wrap_indices(&t, 5), vec![0..3, 3..8]);
}
