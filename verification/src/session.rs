//! A typing session: the text to type, what has been typed, the mistakes
//! made, and when typing started and finished.
//!
//! Times are nanoseconds on a monotonic clock that the caller reads.

use vstd::prelude::*;
use std::ops::Range;
use crate::finger::Finger;
use crate::keyboard_layout::{KeyboardLayout, finger_in_rows};
use crate::textutil::chars_of;
use crate::wrap::{range_pairs, wrap_indices, wrapped_rows};

verus! {

/// Whether `c` is a control character (general category Cc): U+0000..=U+001F
/// or U+007F..=U+009F, as `char::is_control` tells.
pub open spec fn is_control_char(c: char) -> bool {
    (c as u32) <= 0x1f || (0x7f <= (c as u32) && (c as u32) <= 0x9f)
}

/// Whether `c` is a control character.
pub fn is_control(c: char) -> (r: bool)
    ensures
        r == is_control_char(c),
{
    let u = c as u32;
    u <= 0x1f || (0x7f <= u && u <= 0x9f)
}

/// How many positions `typed` and `target` agree on, over their common
/// length.
pub open spec fn count_matching(typed: Seq<char>, target: Seq<char>, n: int) -> nat
    decreases n,
{
    if n <= 0 {
        0
    } else {
        count_matching(typed, target, n - 1) + (if typed[n - 1] == target[n - 1] {
            1nat
        } else {
            0nat
        })
    }
}

/// The length over which `typed` and `target` are compared.
pub open spec fn common_len(typed: Seq<char>, target: Seq<char>) -> int {
    if typed.len() < target.len() {
        typed.len() as int
    } else {
        target.len() as int
    }
}

pub proof fn lemma_count_matching_bound(typed: Seq<char>, target: Seq<char>, n: int)
    ensures
        count_matching(typed, target, n) <= if n < 0 { 0 } else { n },
    decreases n,
{
    if n > 0 {
        lemma_count_matching_bound(typed, target, n - 1);
    }
}

/// An active typing session.
pub struct Session {
    /// The text to type.
    pub target: Vec<char>,
    /// What has been typed so far (wrong characters included).
    pub typed: Vec<char>,
    /// Every wrong keystroke, including those later erased.
    pub errors: usize,
    /// When the first key was typed.
    pub start_time: Option<u64>,
    /// When the last character of the text was typed.
    pub finished_at: Option<u64>,
}

/// What happened to a keystroke.
#[derive(Debug, Clone, Copy, PartialEq, Eq, Structural)]
pub enum Keystroke {
    /// The keystroke did not reach the text (no session, finished session,
    /// control character, or text already fully typed).
    Ignored,
    /// `ch` was appended; `position` and `errors` are the counts after it, and
    /// `finished` tells whether it completed the text.
    Typed { ch: char, position: usize, errors: usize, finished: bool },
}

/// A session as plain values.
pub struct SessionModel {
    pub target: Seq<char>,
    pub typed: Seq<char>,
    pub errors: nat,
    pub start_time: Option<u64>,
    pub finished_at: Option<u64>,
}

impl View for Session {
    type V = SessionModel;

    open spec fn view(&self) -> SessionModel {
        SessionModel {
            target: self.target@,
            typed: self.typed@,
            errors: self.errors as nat,
            start_time: self.start_time,
            finished_at: self.finished_at,
        }
    }
}

/// What typing the first character of `text` at `now` does to a session,
/// and what it reports. A finished session, an empty `text` or a control
/// character changes nothing. Otherwise the clock starts if it has not yet;
/// past the end of the text nothing more happens; else the character is
/// appended, a mismatch with the expected character counts as an error, and
/// reaching the end of the text finishes the session at `now`.
pub open spec fn keystroke_spec(s: SessionModel, text: Seq<char>, now: u64) -> (SessionModel, Keystroke) {
    if s.finished_at is Some || text.len() == 0 || is_control_char(text[0]) {
        (s, Keystroke::Ignored)
    } else {
        let started = SessionModel {
            start_time: if s.start_time is None { Some(now) } else { s.start_time },
            ..s
        };
        if s.typed.len() >= s.target.len() {
            (started, Keystroke::Ignored)
        } else {
            let c = text[0];
            let errors = if c == s.target[s.typed.len() as int] { s.errors } else { s.errors + 1 };
            let typed = s.typed.push(c);
            let done = typed.len() >= s.target.len();
            (
                SessionModel {
                    typed,
                    errors,
                    finished_at: if done { Some(now) } else { None },
                    ..started
                },
                Keystroke::Typed {
                    ch: c,
                    position: typed.len() as usize,
                    errors: errors as usize,
                    finished: done,
                },
            )
        }
    }
}

/// What erasing does to a session: nothing when it is finished (and `None`
/// is reported); otherwise the last typed character, if any, goes, errors
/// stay counted, and the new position and error count are reported.
pub open spec fn backspace_spec(s: SessionModel) -> (SessionModel, Option<(usize, usize)>) {
    if s.finished_at is Some {
        (s, None)
    } else {
        let typed = if s.typed.len() > 0 { s.typed.drop_last() } else { s.typed };
        (SessionModel { typed, ..s }, Some((typed.len() as usize, s.errors as usize)))
    }
}

/// Erasing right after typing a character takes the character back, but
/// not the mistake it may have been: the typed text is as before, and the
/// error count keeps what the keystroke added. This holds whenever the
/// keystroke reached the text without completing it.
pub proof fn law_backspace_takes_back_a_keystroke(s: SessionModel, text: Seq<char>, now: u64)
    requires
        keystroke_spec(s, text, now).1 matches Keystroke::Typed { finished, .. } && !finished,
    ensures
        ({
            let after_key = keystroke_spec(s, text, now).0;
            let after_erase = backspace_spec(after_key).0;
            &&& after_erase.typed == s.typed
            &&& after_erase.target == s.target
            &&& after_erase.errors == after_key.errors
            &&& after_erase.errors >= s.errors
            &&& after_erase.finished_at is None
        }),
{
    let after_key = keystroke_spec(s, text, now).0;
    assert(after_key.typed.drop_last() =~= s.typed);
}

/// The error count never goes down: typing adds at most one, erasing none.
pub proof fn law_errors_never_decrease(s: SessionModel, text: Seq<char>, now: u64)
    ensures
        s.errors <= keystroke_spec(s, text, now).0.errors <= s.errors + 1,
        backspace_spec(s).0.errors == s.errors,
{
}

/// What holds of every session: no more is typed than the text holds, and a
/// finished session has typed all of it, after its clock started.
pub open spec fn session_ok(s: SessionModel) -> bool {
    &&& s.typed.len() <= s.target.len()
    &&& s.finished_at is Some ==> s.typed.len() == s.target.len() && s.start_time is Some
}

/// Typing and erasing keep a session within its text.
pub proof fn law_session_stays_within_text(s: SessionModel, text: Seq<char>, now: u64)
    requires
        session_ok(s),
    ensures
        session_ok(keystroke_spec(s, text, now).0),
        session_ok(backspace_spec(s).0),
{
}

/// A finished session no longer changes: keystrokes are ignored and erasing
/// does nothing.
pub proof fn law_finished_session_is_frozen(s: SessionModel, text: Seq<char>, now: u64)
    requires
        s.finished_at is Some,
    ensures
        keystroke_spec(s, text, now) == (s, Keystroke::Ignored),
        backspace_spec(s) == (s, None::<(usize, usize)>),
{
}

/// A keystroke that reaches the text appends the typed character, counts one
/// mistake exactly when it differs from the character expected at the
/// cursor (any difference, letter case included), starts the clock if it was
/// not running, and finishes the session exactly when the text is complete.
pub proof fn law_keystroke_counts_a_mistake_per_wrong_character(
    s: SessionModel,
    text: Seq<char>,
    now: u64,
)
    requires
        s.finished_at is None,
        text.len() > 0,
        !is_control_char(text[0]),
        s.typed.len() < s.target.len(),
    ensures
        ({
            let (t, k) = keystroke_spec(s, text, now);
            let expected = s.target[s.typed.len() as int];
            &&& t.typed == s.typed.push(text[0])
            &&& t.target == s.target
            &&& t.errors == s.errors + (if text[0] != expected { 1int } else { 0int })
            &&& t.start_time is Some
            &&& (s.start_time is Some ==> t.start_time == s.start_time)
            &&& (t.finished_at is Some <==> s.typed.len() + 1 == s.target.len())
            &&& k == Keystroke::Typed {
                ch: text[0],
                position: (s.typed.len() + 1) as usize,
                errors: t.errors as usize,
                finished: s.typed.len() + 1 == s.target.len(),
            }
        }),
{
}

/// The positions below `n` where `typed` and `target` hold the same
/// character.
pub open spec fn matching_positions(typed: Seq<char>, target: Seq<char>, n: int) -> Set<int> {
    Set::new(|i: int| 0 <= i < n && typed[i] == target[i])
}

/// The count of correct characters is the number of positions, among those
/// both texts have, where the typed character is the one of the text: every
/// matching position counts, wherever it lies and whatever comes before it.
pub proof fn law_correct_count_is_the_number_of_matching_positions(
    typed: Seq<char>,
    target: Seq<char>,
    n: int,
)
    requires
        0 <= n,
    ensures
        matching_positions(typed, target, n).finite(),
        count_matching(typed, target, n) == matching_positions(typed, target, n).len(),
    decreases n,
{
    let m = matching_positions(typed, target, n);
    if n == 0 {
        assert(m =~= Set::<int>::empty());
    } else {
        law_correct_count_is_the_number_of_matching_positions(typed, target, n - 1);
        let p = matching_positions(typed, target, n - 1);
        assert(!p.contains(n - 1));
        if typed[n - 1] == target[n - 1] {
            assert(m =~= p.insert(n - 1));
        } else {
            assert(m =~= p);
        }
    }
}

/// How a character of the text is drawn, told from the typed text alone: in
/// the "typed correctly" state exactly when it has been typed and the typed
/// character is the same one, "typed wrong" when it has been typed as any
/// other character (letter case counts), the cursor right after what is
/// typed, and "not typed yet" further on.
pub proof fn law_cell_state_tells_right_from_wrong(typed: Seq<char>, target: Seq<char>, i: int)
    requires
        0 <= i < target.len(),
    ensures
        (cell_state(typed, target, i) == 1) == (i < typed.len() && typed[i] == target[i]),
        (cell_state(typed, target, i) == 2) == (i < typed.len() && typed[i] != target[i]),
        (cell_state(typed, target, i) == 3) == (i == typed.len()),
        (cell_state(typed, target, i) == 0) == (i > typed.len()),
{
}

impl Session {
    /// The characters typed correctly so far.
    pub open spec fn correct_spec(&self) -> nat {
        count_matching(self.typed@, self.target@, common_len(self.typed@, self.target@))
    }

    /// A session on `text`, with nothing typed yet.
    pub fn new(text: &str) -> (s: Session)
        ensures
            s.target@ == text@,
            s.typed@.len() == 0,
            s.errors == 0,
            s.start_time is None,
            s.finished_at is None,
            session_ok(s@),
    {
        Session {
            target: chars_of(text),
            typed: Vec::new(),
            errors: 0,
            start_time: None,
            finished_at: None,
        }
    }

    /// How many characters have been typed.
    pub fn position(&self) -> (p: usize)
        ensures
            p == self.typed@.len(),
    {
        self.typed.len()
    }

    /// Whether the whole text has been typed.
    pub fn is_finished(&self) -> (b: bool)
        ensures
            b == (self.finished_at is Some),
    {
        self.finished_at.is_some()
    }

    /// How long the session has run at `now`: from the first keystroke to the
    /// end of the text, or to `now` while it runs; 0 before the first
    /// keystroke. A clock that went backwards counts as no time.
    pub fn elapsed_nanos(&self, now: u64) -> (d: u64)
        ensures
            d == match (self.start_time, self.finished_at) {
                (Some(s), Some(f)) => if f >= s { (f - s) as u64 } else { 0 },
                (Some(s), None) => if now >= s { (now - s) as u64 } else { 0 },
                _ => 0,
            },
    {
        match (self.start_time, self.finished_at) {
            (Some(s), Some(f)) => f.saturating_sub(s),
            (Some(s), None) => now.saturating_sub(s),
            _ => 0,
        }
    }

    /// How many typed characters match the text at their position.
    pub fn correct_chars(&self) -> (n: usize)
        ensures
            n == self.correct_spec(),
            n == matching_positions(self.typed@, self.target@, common_len(self.typed@, self.target@)).len(),
    {
        proof {
            law_correct_count_is_the_number_of_matching_positions(
                self.typed@,
                self.target@,
                common_len(self.typed@, self.target@),
            );
        }
        let m = if self.typed.len() < self.target.len() {
            self.typed.len()
        } else {
            self.target.len()
        };
        let mut n: usize = 0;
        let mut i: usize = 0;
        while i < m
            invariant
                m == common_len(self.typed@, self.target@),
                i <= m,
                m <= self.typed@.len(),
                m <= self.target@.len(),
                n == count_matching(self.typed@, self.target@, i as int),
                n <= i,
            decreases m - i,
        {
            if self.typed[i] == self.target[i] {
                n += 1;
            }
            i += 1;
        }
        n
    }

    /// What accuracy is computed from: `None` for a perfect score (nothing
    /// typed yet, or no keystroke at all), otherwise the correct characters
    /// and all keystrokes (correct characters plus errors).
    pub fn accuracy_counts(&self) -> (r: Option<(usize, usize)>)
        requires
            self.typed@.len() > 0 ==> self.correct_spec() + self.errors <= usize::MAX,
        ensures
            r == (if self.typed@.len() == 0 || self.correct_spec() + self.errors == 0 {
                None
            } else {
                Some((self.correct_spec() as usize, (self.correct_spec() + self.errors) as usize))
            }),
    {
        if self.typed.len() == 0 {
            return None;
        }
        let correct = self.correct_chars();
        let denominator = correct + self.errors;
        if denominator == 0 {
            return None;
        }
        Some((correct, denominator))
    }

    /// Types the first character of `text` at time `now`: starts the clock on
    /// the first keystroke, counts a mistake when the character differs from
    /// the one expected, and finishes the session when the text is complete.
    /// A finished session, an empty `text` or a control character changes
    /// nothing; a keystroke past the end of the text only starts the clock.
    pub fn type_text(&mut self, text: &str, now: u64) -> (k: Keystroke)
        requires
            old(self).errors < usize::MAX,
        ensures
            (final(self)@, k) == keystroke_spec(old(self)@, text@, now),
    {
        if self.is_finished() {
            return Keystroke::Ignored;
        }
        if text.unicode_len() == 0 {
            return Keystroke::Ignored;
        }
        let c = text.get_char(0);
        if is_control(c) {
            return Keystroke::Ignored;
        }
        if self.start_time.is_none() {
            self.start_time = Some(now);
        }
        let pos = self.typed.len();
        if pos >= self.target.len() {
            return Keystroke::Ignored;
        }
        if c != self.target[pos] {
            self.errors += 1;
        }
        self.typed.push(c);
        let position = self.typed.len();
        let finished = position >= self.target.len();
        if finished {
            self.finished_at = Some(now);
        }
        Keystroke::Typed { ch: c, position, errors: self.errors, finished }
    }

    /// Erases the last typed character, unless the session is finished or
    /// nothing is typed. Gives the position and error count afterwards, or
    /// `None` for a finished session; erasing never takes an error back.
    pub fn backspace(&mut self) -> (r: Option<(usize, usize)>)
        ensures
            (final(self)@, r) == backspace_spec(old(self)@),
    {
        if self.is_finished() {
            return None;
        }
        if self.position() > 0 {
            self.typed.pop();
        }
        Some((self.position(), self.errors))
    }
}

// ---------------------------------------------------------------------------
//  The text as it is drawn
// ---------------------------------------------------------------------------

/// How a character of the text is drawn: 0 not typed yet, 1 typed correctly,
/// 2 typed wrong, 3 the cursor (the next character to type).
pub open spec fn cell_state(typed: Seq<char>, target: Seq<char>, i: int) -> i32 {
    if i < typed.len() {
        if typed[i] == target[i] {
            1
        } else {
            2
        }
    } else if i == typed.len() {
        3
    } else {
        0
    }
}

/// One character of the text as it is drawn, with the finger that types it.
#[derive(Debug, Clone, Copy, PartialEq, Eq, Structural)]
pub struct CharCell {
    pub character: char,
    pub state: i32,
    pub finger: Finger,
}

impl CharCell {
    /// The cell for `character`, drawn in `state`, typed with `finger`.
    pub fn new(character: char, state: i32, finger: Finger) -> (c: CharCell)
        ensures
            c == (CharCell { character, state, finger }),
    {
        CharCell { character, state, finger }
    }
}

/// Whether `cells` draws the characters `target[start..end]`.
pub open spec fn draws_range(
    cells: Seq<CharCell>,
    typed: Seq<char>,
    target: Seq<char>,
    rows: Seq<Seq<crate::keyboard_layout::LayoutKey>>,
    start: int,
    end: int,
) -> bool {
    &&& cells.len() == end - start
    &&& forall|j: int|
        0 <= j < cells.len() ==> #[trigger] cells[j] == (CharCell {
            character: target[start + j],
            state: cell_state(typed, target, start + j),
            finger: finger_in_rows(rows, target[start + j]),
        })
}

/// Whether `rows` is the text of `s` drawn on lines of at most 56 characters,
/// as `wrap_indices` breaks it, on `layout`.
pub open spec fn draws_session(rows: Seq<Seq<CharCell>>, s: Session, layout: KeyboardLayout) -> bool {
    let lines = wrapped_rows(s.target@, 56);
    &&& rows.len() == lines.len()
    &&& forall|r: int|
        0 <= r < rows.len() ==> draws_range(
            #[trigger] rows[r],
            s.typed@,
            s.target@,
            layout.rows_view(),
            lines[r].0,
            lines[r].1,
        )
}

/// The text of a session as it is drawn: broken into lines of at most 56
/// characters, each character with its state and its finger on `layout`.
pub fn build_rows(session: &Session, layout: &KeyboardLayout) -> (rows: Vec<Vec<CharCell>>)
    ensures
        draws_session(rows@.map_values(|r: Vec<CharCell>| r@), *session, *layout),
{
    let ranges = wrap_indices(session.target.as_slice(), 56);
    let ghost lines = wrapped_rows(session.target@, 56);
    proof {
        if session.target@.len() > 0 {
            crate::wrap::law_rows_lay_out_the_text(session.target@, 56);
        }
    }
    let pos = session.position();
    let mut rows: Vec<Vec<CharCell>> = Vec::new();
    let mut r: usize = 0;
    while r < ranges.len()
        invariant
            range_pairs(ranges@) == lines,
            lines == wrapped_rows(session.target@, 56),
            session.target@.len() > 0 ==> crate::wrap::is_row_layout(session.target@, 56, 0, lines),
            session.target@.len() == 0 ==> lines == seq![(0int, 0int)],
            pos == session.typed@.len(),
            r <= ranges@.len(),
            rows@.len() == r,
            forall|q: int|
                0 <= q < r ==> draws_range(
                    #[trigger] rows@[q]@,
                    session.typed@,
                    session.target@,
                    layout.rows_view(),
                    lines[q].0,
                    lines[q].1,
                ),
        decreases ranges@.len() - r,
    {
        let range: &Range<usize> = &ranges[r];
        let start = range.start;
        let end = range.end;
        assert(lines[r as int] == (start as int, end as int));
        assert(lines[r as int].0 == start as int);
        assert(lines[r as int].1 == end as int);
        assert(start <= end <= session.target@.len());
        let mut cells: Vec<CharCell> = Vec::new();
        let mut i = start;
        while i < end
            invariant
                start <= i <= end <= session.target@.len(),
                pos == session.typed@.len(),
                cells@.len() == i - start,
                forall|j: int|
                    0 <= j < cells@.len() ==> #[trigger] cells@[j] == (CharCell {
                        character: session.target@[start + j],
                        state: cell_state(session.typed@, session.target@, start + j),
                        finger: finger_in_rows(layout.rows_view(), session.target@[start + j]),
                    }),
            decreases end - i,
        {
            let ch = session.target[i];
            let st: i32 = if i < pos {
                if session.typed[i] == ch {
                    1
                } else {
                    2
                }
            } else if i == pos {
                3
            } else {
                0
            };
            let finger = layout.finger_for_char(ch);
            let ghost old_cells = cells@;
            let cell = CharCell::new(ch, st, finger);
            cells.push(cell);
            assert(st == cell_state(session.typed@, session.target@, i as int));
            i += 1;
            assert forall|j: int| 0 <= j < cells@.len() implies #[trigger] cells@[j] == (CharCell {
                character: session.target@[start + j],
                state: cell_state(session.typed@, session.target@, start + j),
                finger: finger_in_rows(layout.rows_view(), session.target@[start + j]),
            }) by {
                if j < old_cells.len() {
                    assert(cells@[j] == old_cells[j]);
                }
            }
        }
        rows.push(cells);
        r += 1;
    }
    proof {
        let v = rows@.map_values(|rw: Vec<CharCell>| rw@);
        assert forall|q: int| 0 <= q < v.len() implies draws_range(
            #[trigger] v[q],
            session.typed@,
            session.target@,
            layout.rows_view(),
            lines[q].0,
            lines[q].1,
        ) by {
            assert(v[q] == rows@[q]@);
        }
    }
    rows
}

} // verus!

verus! {

/// What the typing hint shows: the next character to type (if any), the
/// finger for it, and the sentence under the text.
pub struct Hint {
    pub next: Option<char>,
    pub finger: Finger,
    pub text: String,
}

/// How the hint writes a character: `space` for a space, otherwise the
/// character in single quotes.
pub open spec fn hint_char(c: char) -> Seq<char> {
    if c == ' ' {
        "space"@
    } else {
        seq!['\''] + seq![c] + seq!['\'']
    }
}

/// The hint sentence for the next character `c`, pressed with `f`.
pub open spec fn hint_text(c: char, f: Finger) -> Seq<char> {
    if f == Finger::Any {
        "Next: "@ + hint_char(c)
    } else {
        "Next: "@ + hint_char(c) + "  \u{2014}  use your "@ + crate::finger::finger_name(f)
    }
}

/// The hint for a session on `layout`: the character at the cursor and its
/// finger, or, once everything is typed, the sentence saying so.
pub fn typing_hint(session: &Session, layout: &KeyboardLayout) -> (h: Hint)
    ensures
        session.typed@.len() < session.target@.len() ==> {
            let c = session.target@[session.typed@.len() as int];
            let f = finger_in_rows(layout.rows_view(), c);
            &&& h.next == Some(c)
            &&& h.finger == f
            &&& h.text@ == hint_text(c, f)
        },
        session.typed@.len() >= session.target@.len() ==> {
            &&& h.next is None
            &&& h.finger == Finger::Any
            &&& h.text@ == "Lesson complete! Press Retry or move to the next one."@
        },
{
    let pos = session.position();
    if pos < session.target.len() {
        let c = session.target[pos];
        let f = layout.finger_for_char(c);
        let mut text = String::from_str("Next: ");
        if c == ' ' {
            text.append("space");
        } else {
            text.push('\'');
            text.push(c);
            text.push('\'');
        }
        if f != Finger::Any {
            text.append("  \u{2014}  use your ");
            text.append(crate::finger::finger_label(f));
        }
        assert(text@ =~= hint_text(c, f));
        Hint { next: Some(c), finger: f, text }
    } else {
        Hint {
            next: None,
            finger: Finger::Any,
            text: String::from_str("Lesson complete! Press Retry or move to the next one."),
        }
    }
}

} // verus!
