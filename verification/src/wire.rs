//! The LAN race protocol: tab-separated text lines, one message per line.
//!
//! * discovery datagram: `HELLO\t<id>\t<tcp_port>\t<name>`
//! * race handshake, client to server: `HELLO\t<id>\t<name>`
//! * server reply: `START\t<text>` or `REJECT\t<reason>`
//! * during the race: `PROGRESS\t<position>\t<errors>`, `DONE\t<wpm*100>\t<accuracy*100>`,
//!   `QUIT`

use vstd::prelude::*;
use crate::textutil::{lemma_trim_ws_settled, trim_start_ws, is_line_end, is_white_space, is_digit, lemma_dec_digits_shape, lemma_parse_unsigned_of_dec, lemma_parse_i64_of_dec, dec_digits, push_decimal, push_signed_decimal, signed_dec, trim, trim_end, trim_end_ws, trim_ws, chars_of, parse_i64, parse_i64_spec, parse_unsigned, parse_unsigned_spec, string_from_chars, trim_line_end, trim_line_end_of};

use crate::texts::{sample_text, text_content, TEXT_COUNT};

verus! {

// ---------------------------------------------------------------------------
//  Fields
// ---------------------------------------------------------------------------

/// Index of the first tab in `s` at or after `from`, or -1 when there is none.
pub open spec fn find_tab(s: Seq<char>, from: int) -> int
    decreases s.len() - from,
{
    if from < 0 || from >= s.len() {
        -1
    } else if s[from] == '\t' {
        from
    } else {
        find_tab(s, from + 1)
    }
}

/// Where the field that starts at `from` ends: at the next tab, or at the end
/// of `s`.
pub open spec fn field_end(s: Seq<char>, from: int) -> int {
    if find_tab(s, from) < 0 {
        s.len() as int
    } else {
        find_tab(s, from)
    }
}

/// The field of `s` that starts at `from`.
pub open spec fn field_at(s: Seq<char>, from: int) -> Seq<char> {
    s.subrange(from, field_end(s, from))
}

pub proof fn lemma_find_tab_bounds(s: Seq<char>, from: int)
    requires
        0 <= from,
    ensures
        find_tab(s, from) == -1 || (from <= find_tab(s, from) < s.len() && s[find_tab(s, from)]
            == '\t'),
        find_tab(s, from) == -1 ==> forall|k: int| from <= k < s.len() ==> s[k] != '\t',
        find_tab(s, from) >= 0 ==> forall|k: int| from <= k < find_tab(s, from) ==> s[k] != '\t',
    decreases s.len() - from,
{
    if from < s.len() && s[from] != '\t' {
        lemma_find_tab_bounds(s, from + 1);
    }
}

/// The first tab at or after `from` is the one at `k` when nothing between is
/// a tab.
pub proof fn lemma_find_tab_at(s: Seq<char>, from: int, k: int)
    requires
        0 <= from <= k < s.len(),
        s[k] == '\t',
        forall|j: int| from <= j < k ==> s[j] != '\t',
    ensures
        find_tab(s, from) == k,
    decreases k - from,
{
    if from < k {
        lemma_find_tab_at(s, from + 1, k);
    }
}

/// No tab lies at or after `from`.
pub proof fn lemma_find_tab_none(s: Seq<char>, from: int)
    requires
        0 <= from,
        forall|j: int| from <= j < s.len() ==> s[j] != '\t',
    ensures
        find_tab(s, from) == -1,
    decreases s.len() - from,
{
    if from < s.len() {
        lemma_find_tab_none(s, from + 1);
    }
}

/// The first tab of `v` at or after `from`.
fn find_tab_from(v: &Vec<char>, from: usize) -> (r: Option<usize>)
    requires
        from <= v@.len(),
    ensures
        match r {
            Some(k) => find_tab(v@, from as int) == k,
            None => find_tab(v@, from as int) == -1,
        },
{
    let mut k = from;
    while k < v.len()
        invariant
            from <= k <= v@.len(),
            find_tab(v@, from as int) == find_tab(v@, k as int),
        decreases v@.len() - k,
    {
        if v[k] == '\t' {
            return Some(k);
        }
        k += 1;
    }
    None
}

/// Whether `v[from..to]` spells `word`.
fn field_is(v: &Vec<char>, from: usize, to: usize, word: &str) -> (r: bool)
    requires
        from <= to <= v@.len(),
    ensures
        r == (v@.subrange(from as int, to as int) == word@),
{
    let w = chars_of(word);
    if to - from != w.len() {
        return false;
    }
    let mut i: usize = 0;
    while i < w.len()
        invariant
            to - from == w@.len(),
            from <= to <= v@.len(),
            w@ == word@,
            i <= w@.len(),
            forall|j: int| 0 <= j < i ==> v@[from + j] == w@[j],
        decreases w@.len() - i,
    {
        if v[from + i] != w[i] {
            assert(v@.subrange(from as int, to as int)[i as int] != word@[i as int]);
            return false;
        }
        i += 1;
    }
    assert(v@.subrange(from as int, to as int) =~= word@);
    true
}

/// Whether `v` starts with `word`.
fn starts_with_word(v: &Vec<char>, word: &str) -> (r: bool)
    ensures
        r == (word@.len() <= v@.len() && v@.subrange(0, word@.len() as int) == word@),
{
    let n = word.unicode_len();
    if n > v.len() {
        false
    } else {
        field_is(v, 0, n, word)
    }
}

// ---------------------------------------------------------------------------
//  HELLO
// ---------------------------------------------------------------------------

/// A `HELLO` frame: who sent it and how to reach them.
pub struct ParsedHello {
    pub id: String,
    /// Port of the sender's race listener; 0 in the TCP handshake, which has
    /// no port field.
    pub tcp_port: u16,
    pub name: String,
}

/// What the discovery frame `HELLO\t<id>\t<tcp_port>\t<name>` holds, as
/// (id, port, name): `None` unless the first field is `HELLO`, an id and a
/// port field follow, the id is not empty and the port reads as a `u16`. The
/// name is everything after the third tab, tabs included; without a third tab
/// it is `Player`.
pub open spec fn hello_udp_spec(line: Seq<char>) -> Option<(Seq<char>, u16, Seq<char>)> {
    let t1 = find_tab(line, 0);
    let t2 = find_tab(line, t1 + 1);
    let t3 = find_tab(line, t2 + 1);
    if t1 < 0 || line.subrange(0, t1) != "HELLO"@ || t2 < 0 {
        None
    } else {
        let id = line.subrange(t1 + 1, t2);
        let port = parse_unsigned_spec(field_at(line, t2 + 1), u16::MAX as nat);
        let name = if t3 < 0 {
            "Player"@
        } else {
            line.subrange(t3 + 1, line.len() as int)
        };
        if id.len() == 0 || port is None {
            None
        } else {
            Some((id, port->0 as u16, name))
        }
    }
}

/// What the handshake frame `HELLO\t<id>\t<name>` holds, as (id, name):
/// `None` unless the first field is `HELLO` and a non-empty id follows. The
/// name is everything after the second tab; without one it is `Player`.
pub open spec fn hello_tcp_spec(line: Seq<char>) -> Option<(Seq<char>, Seq<char>)> {
    let t1 = find_tab(line, 0);
    let t2 = find_tab(line, t1 + 1);
    if t1 < 0 || line.subrange(0, t1) != "HELLO"@ {
        None
    } else {
        let id = field_at(line, t1 + 1);
        let name = if t2 < 0 {
            "Player"@
        } else {
            line.subrange(t2 + 1, line.len() as int)
        };
        if id.len() == 0 {
            None
        } else {
            Some((id, name))
        }
    }
}

/// The name a `HELLO` carries when it has no name field.
fn default_name() -> (s: String)
    ensures
        s@ == "Player"@,
{
    String::from_str("Player")
}

/// Reads a discovery `HELLO` frame: `HELLO\t<id>\t<tcp_port>\t<name>`.
pub fn parse_hello(line: &str) -> (r: Option<ParsedHello>)
    ensures
        match hello_udp_spec(line@) {
            Some((id, port, name)) => r matches Some(h) && h.id@ == id && h.tcp_port == port
                && h.name@ == name,
            None => r is None,
        },
{
    let v = chars_of(line);
    let n = v.len();
    proof {
        lemma_find_tab_bounds(v@, 0);
    }
    let t1 = match find_tab_from(&v, 0) {
        Some(k) => k,
        None => return None,
    };
    if !field_is(&v, 0, t1, "HELLO") {
        return None;
    }
    proof {
        lemma_find_tab_bounds(v@, t1 + 1);
    }
    let t2 = match find_tab_from(&v, t1 + 1) {
        Some(k) => k,
        None => return None,
    };
    proof {
        lemma_find_tab_bounds(v@, t2 + 1);
    }
    let t3 = find_tab_from(&v, t2 + 1);
    let port_end = match t3 {
        Some(k) => k,
        None => v.len(),
    };
    let port = match parse_unsigned(&v, t2 + 1, port_end, 0xffff) {
        Some(p) => p as u16,
        None => return None,
    };
    if t2 == t1 + 1 {
        return None;
    }
    let id = string_from_chars(&v, t1 + 1, t2);
    let name = match t3 {
        Some(k) => string_from_chars(&v, k + 1, v.len()),
        None => default_name(),
    };
    Some(ParsedHello { id, tcp_port: port, name })
}

/// Reads the handshake `HELLO` frame that opens a race connection:
/// `HELLO\t<id>\t<name>`. It has no port field, so `tcp_port` is 0.
pub fn parse_hello_tcp(line: &str) -> (r: Option<ParsedHello>)
    ensures
        match hello_tcp_spec(line@) {
            Some((id, name)) => r matches Some(h) && h.id@ == id && h.tcp_port == 0 && h.name@
                == name,
            None => r is None,
        },
{
    let v = chars_of(line);
    let n = v.len();
    proof {
        lemma_find_tab_bounds(v@, 0);
    }
    let t1 = match find_tab_from(&v, 0) {
        Some(k) => k,
        None => return None,
    };
    if !field_is(&v, 0, t1, "HELLO") {
        return None;
    }
    proof {
        lemma_find_tab_bounds(v@, t1 + 1);
    }
    let t2 = find_tab_from(&v, t1 + 1);
    let id_end = match t2 {
        Some(k) => k,
        None => v.len(),
    };
    if id_end == t1 + 1 {
        return None;
    }
    let id = string_from_chars(&v, t1 + 1, id_end);
    let name = match t2 {
        Some(k) => string_from_chars(&v, k + 1, v.len()),
        None => default_name(),
    };
    Some(ParsedHello { id, tcp_port: 0, name })
}

// ---------------------------------------------------------------------------
//  Race messages
// ---------------------------------------------------------------------------

/// One message of a running race.
#[derive(Debug, Clone, Copy, PartialEq, Eq, Structural)]
pub enum RaceFrame {
    /// `PROGRESS\t<position>\t<errors>`: how far the opponent has typed.
    Progress { position: usize, errors: usize },
    /// `DONE\t<wpm*100>\t<accuracy*100>`: the opponent finished.
    Done { wpm_x100: i64, accuracy_x100: i64 },
    /// `QUIT`: the opponent left.
    Quit,
    /// Anything else, which the race ignores.
    Other,
}

/// The second field of `l`, if there is one.
pub open spec fn second_field(l: Seq<char>) -> Option<Seq<char>> {
    let t1 = find_tab(l, 0);
    if t1 < 0 {
        None
    } else {
        Some(field_at(l, t1 + 1))
    }
}

/// The third field of `l`, if there is one.
pub open spec fn third_field(l: Seq<char>) -> Option<Seq<char>> {
    let t1 = find_tab(l, 0);
    let t2 = find_tab(l, t1 + 1);
    if t1 < 0 || t2 < 0 {
        None
    } else {
        Some(field_at(l, t2 + 1))
    }
}

/// A field read as a `usize`, 0 when it is missing or is no such number.
pub open spec fn usize_or_zero(f: Option<Seq<char>>) -> usize {
    match f {
        Some(s) => match parse_unsigned_spec(s, usize::MAX as nat) {
            Some(n) => n as usize,
            None => 0,
        },
        None => 0,
    }
}

/// A field read as an `i64`, 0 when it is missing or is no such number.
pub open spec fn i64_or_zero(f: Option<Seq<char>>) -> i64 {
    match f {
        Some(s) => match parse_i64_spec(s) {
            Some(n) => n as i64,
            None => 0,
        },
        None => 0,
    }
}

/// What a line of a running race means, once its line ending is cut off:
/// the first tab-separated field names the message, and a number that is
/// missing or unreadable counts as 0.
pub open spec fn race_frame_spec(raw: Seq<char>) -> RaceFrame {
    let l = trim_line_end(raw);
    let head = l.subrange(0, field_end(l, 0));
    if head == "PROGRESS"@ {
        RaceFrame::Progress {
            position: usize_or_zero(second_field(l)),
            errors: usize_or_zero(third_field(l)),
        }
    } else if head == "DONE"@ {
        RaceFrame::Done {
            wpm_x100: i64_or_zero(second_field(l)),
            accuracy_x100: i64_or_zero(third_field(l)),
        }
    } else if head == "QUIT"@ {
        RaceFrame::Quit
    } else {
        RaceFrame::Other
    }
}

/// The positions of the second and third fields of `v`: where each starts and
/// ends, when it is there.
fn later_fields(v: &Vec<char>) -> (r: (Option<(usize, usize)>, Option<(usize, usize)>))
    ensures
        match second_field(v@) {
            Some(f) => r.0 matches Some((a, b)) && a <= b <= v@.len() && v@.subrange(
                a as int,
                b as int,
            ) == f,
            None => r.0 is None,
        },
        match third_field(v@) {
            Some(f) => r.1 matches Some((a, b)) && a <= b <= v@.len() && v@.subrange(
                a as int,
                b as int,
            ) == f,
            None => r.1 is None,
        },
{
    let n = v.len();
    proof {
        lemma_find_tab_bounds(v@, 0);
    }
    match find_tab_from(v, 0) {
        None => (None, None),
        Some(t1) => {
            proof {
                lemma_find_tab_bounds(v@, t1 + 1);
            }
            match find_tab_from(v, t1 + 1) {
                None => (Some((t1 + 1, v.len())), None),
                Some(t2) => {
                    proof {
                        lemma_find_tab_bounds(v@, t2 + 1);
                    }
                    let e3 = match find_tab_from(v, t2 + 1) {
                        Some(k) => k,
                        None => v.len(),
                    };
                    (Some((t1 + 1, t2)), Some((t2 + 1, e3)))
                },
            }
        },
    }
}

fn field_usize(v: &Vec<char>, f: Option<(usize, usize)>) -> (n: usize)
    requires
        f matches Some((a, b)) ==> a <= b <= v@.len(),
    ensures
        n == usize_or_zero(
            match f {
                Some((a, b)) => Some(v@.subrange(a as int, b as int)),
                None => None,
            },
        ),
{
    match f {
        Some((a, b)) => match parse_unsigned(v, a, b, usize::MAX as u64) {
            Some(n) => n as usize,
            None => 0,
        },
        None => 0,
    }
}

fn field_i64(v: &Vec<char>, f: Option<(usize, usize)>) -> (n: i64)
    requires
        f matches Some((a, b)) ==> a <= b <= v@.len(),
    ensures
        n == i64_or_zero(
            match f {
                Some((a, b)) => Some(v@.subrange(a as int, b as int)),
                None => None,
            },
        ),
{
    match f {
        Some((a, b)) => match parse_i64(v, a, b) {
            Some(n) => n,
            None => 0,
        },
        None => 0,
    }
}

/// Reads one line received during a race.
pub fn parse_race_frame(raw: &str) -> (r: RaceFrame)
    ensures
        r == race_frame_spec(raw@),
{
    let trimmed = trim_line_end_of(raw);
    let v = chars_of(trimmed.as_str());
    proof {
        lemma_find_tab_bounds(v@, 0);
    }
    let head_end = match find_tab_from(&v, 0) {
        Some(k) => k,
        None => v.len(),
    };
    if field_is(&v, 0, head_end, "PROGRESS") {
        let (f2, f3) = later_fields(&v);
        let position = field_usize(&v, f2);
        let errors = field_usize(&v, f3);
        RaceFrame::Progress { position, errors }
    } else if field_is(&v, 0, head_end, "DONE") {
        let (f2, f3) = later_fields(&v);
        let wpm_x100 = field_i64(&v, f2);
        let accuracy_x100 = field_i64(&v, f3);
        RaceFrame::Done { wpm_x100, accuracy_x100 }
    } else if field_is(&v, 0, head_end, "QUIT") {
        RaceFrame::Quit
    } else {
        RaceFrame::Other
    }
}

} // verus!

verus! {

// ---------------------------------------------------------------------------
//  Writing frames
// ---------------------------------------------------------------------------

/// `HELLO\t<id>\t<tcp_port>\t<name>\n`, the discovery frame.
pub open spec fn hello_udp_line_spec(id: Seq<char>, port: u16, name: Seq<char>) -> Seq<char> {
    "HELLO"@ + seq!['\t'] + id + seq!['\t'] + dec_digits(port as nat) + seq!['\t'] + name + seq![
        '\n',
    ]
}

/// `HELLO\t<id>\t<name>\n`, the frame that opens a race connection.
pub open spec fn hello_tcp_line_spec(id: Seq<char>, name: Seq<char>) -> Seq<char> {
    "HELLO"@ + seq!['\t'] + id + seq!['\t'] + name + seq!['\n']
}

/// `PROGRESS\t<position>\t<errors>\n`.
pub open spec fn progress_line_spec(position: usize, errors: usize) -> Seq<char> {
    "PROGRESS"@ + seq!['\t'] + dec_digits(position as nat) + seq!['\t'] + dec_digits(
        errors as nat,
    ) + seq!['\n']
}

/// `DONE\t<wpm*100>\t<accuracy*100>\n`.
pub open spec fn done_line_spec(wpm_x100: i64, accuracy_x100: i64) -> Seq<char> {
    "DONE"@ + seq!['\t'] + signed_dec(wpm_x100 as int) + seq!['\t'] + signed_dec(
        accuracy_x100 as int,
    ) + seq!['\n']
}

/// `text` with each tab and line feed turned into a space, so that it fits in
/// one field of one line.
pub open spec fn one_line_field(text: Seq<char>) -> Seq<char> {
    text.map_values(|c: char| if c == '\t' || c == '\n' { ' ' } else { c })
}

/// `START\t<text>\n`, the server's answer when the race is accepted.
pub open spec fn start_line_spec(text: Seq<char>) -> Seq<char> {
    "START"@ + seq!['\t'] + one_line_field(text) + seq!['\n']
}

/// The discovery frame that announces `id`, reachable on `port`, as `name`.
pub fn hello_udp_line(id: &str, port: u16, name: &str) -> (s: String)
    ensures
        s@ == hello_udp_line_spec(id@, port, name@),
{
    let mut s = String::new();
    s.append("HELLO");
    s.push('\t');
    s.append(id);
    s.push('\t');
    push_decimal(&mut s, port as u64);
    s.push('\t');
    s.append(name);
    s.push('\n');
    assert(s@ =~= hello_udp_line_spec(id@, port, name@));
    s
}

/// The frame that opens a race connection from `id`, known as `name`.
pub fn hello_tcp_line(id: &str, name: &str) -> (s: String)
    ensures
        s@ == hello_tcp_line_spec(id@, name@),
{
    let mut s = String::new();
    s.append("HELLO");
    s.push('\t');
    s.append(id);
    s.push('\t');
    s.append(name);
    s.push('\n');
    assert(s@ =~= hello_tcp_line_spec(id@, name@));
    s
}

/// The frame that reports how far we have typed.
pub fn progress_line(position: usize, errors: usize) -> (s: String)
    ensures
        s@ == progress_line_spec(position, errors),
{
    let mut s = String::new();
    s.append("PROGRESS");
    s.push('\t');
    push_decimal(&mut s, position as u64);
    s.push('\t');
    push_decimal(&mut s, errors as u64);
    s.push('\n');
    assert(s@ =~= progress_line_spec(position, errors));
    s
}

/// The frame that reports our final speed and accuracy, each times 100.
pub fn done_line(wpm_x100: i64, accuracy_x100: i64) -> (s: String)
    ensures
        s@ == done_line_spec(wpm_x100, accuracy_x100),
{
    let mut s = String::new();
    s.append("DONE");
    s.push('\t');
    push_signed_decimal(&mut s, wpm_x100);
    s.push('\t');
    push_signed_decimal(&mut s, accuracy_x100);
    s.push('\n');
    assert(s@ =~= done_line_spec(wpm_x100, accuracy_x100));
    s
}

/// The frame that starts a race on `text`.
pub fn start_line(text: &str) -> (s: String)
    ensures
        s@ == start_line_spec(text@),
{
    let v = chars_of(text);
    let mut s = String::new();
    s.append("START");
    s.push('\t');
    let ghost head = s@;
    let mut i: usize = 0;
    while i < v.len()
        invariant
            v@ == text@,
            i <= v@.len(),
            s@ == head + one_line_field(v@.subrange(0, i as int)),
        decreases v@.len() - i,
    {
        let c = v[i];
        if c == '\t' || c == '\n' {
            s.push(' ');
        } else {
            s.push(c);
        }
        i += 1;
        assert(one_line_field(v@.subrange(0, i as int)) =~= one_line_field(
            v@.subrange(0, i - 1),
        ).push(if c == '\t' || c == '\n' { ' ' } else { c }));
    }
    s.push('\n');
    assert(v@.subrange(0, v@.len() as int) =~= v@);
    assert(s@ =~= start_line_spec(text@));
    s
}

/// `Listening on TCP port <port> as "<name>"`, the lobby's status line.
pub open spec fn listening_status_spec(port: u16, name: Seq<char>) -> Seq<char> {
    "Listening on TCP port "@ + dec_digits(port as nat) + " as \""@ + name + "\""@
}

/// The lobby's status line for a listener on `port` announcing `name`.
pub fn listening_status(port: u16, name: &str) -> (s: String)
    ensures
        s@ == listening_status_spec(port, name@),
{
    let mut s = String::new();
    s.append("Listening on TCP port ");
    push_decimal(&mut s, port as u64);
    s.append(" as \"");
    s.append(name);
    s.append("\"");
    assert(s@ =~= listening_status_spec(port, name@));
    s
}

/// The name a player goes by: what they typed without surrounding white
/// space, or `Player` when nothing is left.
pub open spec fn display_name_spec(raw: Seq<char>) -> Seq<char> {
    if trim_ws(raw).len() == 0 {
        "Player"@
    } else {
        trim_ws(raw)
    }
}

/// A name that was settled once is settled: resolving it again gives it back.
pub proof fn law_display_name_is_settled(raw: Seq<char>)
    ensures
        display_name_spec(display_name_spec(raw)) == display_name_spec(raw),
{
    reveal_strlit("Player");
    lemma_trim_ws_settled(raw);
    let p = "Player"@;
    assert(!is_white_space(p[0]) && !is_white_space(p.last()));
    assert(trim_end_ws(p) == p);
    assert(trim_start_ws(p) == p);
}

/// The name to announce for what the player typed.
pub fn resolve_display_name(raw: &str) -> (s: String)
    ensures
        s@ == display_name_spec(raw@),
{
    let t = trim(raw);
    if t.as_str().unicode_len() == 0 {
        default_name()
    } else {
        t
    }
}

// ---------------------------------------------------------------------------
//  The server's answer to an invitation
// ---------------------------------------------------------------------------

/// How the server answered a race invitation.
pub enum InviteReply {
    /// `START\t<text>`: the race is on, on this text.
    Start(String),
    /// A line starting with `REJECT` or `QUIT`: the invitation was declined.
    Rejected,
    /// Anything else.
    Invalid,
}

/// Whether `s` starts with `p`.
pub open spec fn has_prefix(s: Seq<char>, p: Seq<char>) -> bool {
    p.len() <= s.len() && s.subrange(0, p.len() as int) == p
}

/// Reads the server's first line, with white space cut from its end.
pub fn classify_invite_reply(raw: &str) -> (r: InviteReply)
    ensures
        ({
            let l = trim_end_ws(raw@);
            if has_prefix(l, "START\t"@) {
                r matches InviteReply::Start(t) && t@ == l.subrange(
                    "START\t"@.len() as int,
                    l.len() as int,
                )
            } else if has_prefix(l, "REJECT"@) || has_prefix(l, "QUIT"@) {
                r is Rejected
            } else {
                r is Invalid
            }
        }),
{
    let t = trim_end(raw);
    let v = chars_of(t.as_str());
    if starts_with_word(&v, "START\t") {
        let n = "START\t".unicode_len();
        InviteReply::Start(string_from_chars(&v, n, v.len()))
    } else if starts_with_word(&v, "REJECT") || starts_with_word(&v, "QUIT") {
        InviteReply::Rejected
    } else {
        InviteReply::Invalid
    }
}

/// What the accepting side sends to a new race connection before reading
/// anything: `REJECT\tbusy` when a race runs or another invitation waits for
/// an answer, otherwise nothing.
pub fn busy_reply(race_active: bool, request_pending: bool) -> (r: Option<String>)
    ensures
        race_active || request_pending ==> (r matches Some(l) && l@ == "REJECT\tbusy\n"@),
        !(race_active || request_pending) ==> r is None,
{
    if race_active || request_pending {
        Some(String::from_str("REJECT\tbusy\n"))
    } else {
        None
    }
}

/// How the accepting side answers once the user has decided.
pub enum ServerAnswer {
    /// Send this `REJECT` line and close.
    Decline(String),
    /// Send `line` (a `START` frame) and race on `text`.
    Start { line: String, text: String },
}

/// The accepting side's answer to the user's decision, taken at `now`: only an
/// explicit accept starts a race, on the sample text the clock picks;
/// otherwise (declined, or no answer in time) `REJECT\tdeclined`.
pub fn server_answer(decision: Option<bool>, now: u64) -> (r: ServerAnswer)
    ensures
        decision == Some(true) ==> (r matches ServerAnswer::Start { line, text } && text@
            == text_content((now % (TEXT_COUNT as u64)) as int) && line@ == start_line_spec(text@)),
        decision != Some(true) ==> (r matches ServerAnswer::Decline(l) && l@
            == "REJECT\tdeclined\n"@),
{
    if decision_accepts(decision) {
        let i = (now % (TEXT_COUNT as u64)) as usize;
        let text = String::from_str(sample_text(i).content);
        let line = start_line(text.as_str());
        ServerAnswer::Start { line, text }
    } else {
        ServerAnswer::Decline(String::from_str("REJECT\tdeclined\n"))
    }
}

/// Whether a waited-for accept/decline decision means the race goes ahead:
/// only an explicit accept does; no decision (the wait timed out) declines.
pub fn decision_accepts(decision: Option<bool>) -> (r: bool)
    ensures
        r == (decision == Some(true)),
{
    match decision {
        Some(d) => d,
        None => false,
    }
}

} // verus!

verus! {

// ---------------------------------------------------------------------------
//  What is written reads back
// ---------------------------------------------------------------------------

proof fn lemma_trim_line_end_newline(x: Seq<char>)
    requires
        x.len() == 0 || !is_line_end(x.last()),
    ensures
        trim_line_end(x.push('\n')) == x,
{
    assert(x.push('\n').drop_last() =~= x);
    assert(trim_line_end(x) == x);
    assert(is_line_end(x.push('\n').last()));
}

proof fn lemma_trim_end_ws_newline(x: Seq<char>)
    requires
        x.len() > 0 && !is_white_space(x.last()),
    ensures
        trim_end_ws(x.push('\n')) == x,
{
    assert(x.push('\n').drop_last() =~= x);
    assert(trim_end_ws(x) == x);
    assert(('\n' as u32) == 10);
    assert(is_white_space(x.push('\n').last()));
}

proof fn lemma_digits_no_tab(n: nat)
    ensures
        forall|i: int| 0 <= i < dec_digits(n).len() ==> dec_digits(n)[i] != '\t' && !is_line_end(
            dec_digits(n)[i],
        ) && !is_white_space(dec_digits(n)[i]),
        dec_digits(n).len() > 0,
{
    lemma_dec_digits_shape(n);
    assert forall|i: int| 0 <= i < dec_digits(n).len() implies dec_digits(n)[i] != '\t'
        && !is_line_end(dec_digits(n)[i]) && !is_white_space(dec_digits(n)[i]) by {
        assert(is_digit(dec_digits(n)[i]));
    }
}

proof fn lemma_signed_dec_shape(n: int)
    requires
        i64::MIN <= n <= i64::MAX,
    ensures
        forall|i: int| 0 <= i < signed_dec(n).len() ==> signed_dec(n)[i] != '\t' && !is_line_end(
            signed_dec(n)[i],
        ),
        signed_dec(n).len() > 0,
        parse_i64_spec(signed_dec(n)) == Some(n),
{
    lemma_parse_i64_of_dec(n as i64);
    if n < 0 {
        lemma_digits_no_tab((-n) as nat);
        let s = signed_dec(n);
        assert forall|i: int| 0 <= i < s.len() implies s[i] != '\t' && !is_line_end(s[i]) by {
            if i > 0 {
                assert(s[i] == dec_digits((-n) as nat)[i - 1]);
            }
        }
    } else {
        lemma_digits_no_tab(n as nat);
    }
}

/// A line made of a head word, a tab, a field `a`, a tab and a field `b`,
/// where neither field holds a tab, splits back into those three fields.
proof fn lemma_three_fields(w: Seq<char>, a: Seq<char>, b: Seq<char>)
    requires
        forall|i: int| 0 <= i < w.len() ==> w[i] != '\t',
        forall|i: int| 0 <= i < a.len() ==> a[i] != '\t',
        forall|i: int| 0 <= i < b.len() ==> b[i] != '\t',
    ensures
        ({
            let l = w + seq!['\t'] + a + seq!['\t'] + b;
            &&& field_end(l, 0) == w.len()
            &&& l.subrange(0, field_end(l, 0)) == w
            &&& second_field(l) == Some(a)
            &&& third_field(l) == Some(b)
            &&& find_tab(l, 0) == w.len()
            &&& find_tab(l, w.len() + 1int) == w.len() + 1 + a.len()
        }),
{
    let l = w + seq!['\t'] + a + seq!['\t'] + b;
    let t1 = w.len() as int;
    let t2 = t1 + 1 + a.len();
    assert(l[t1] == '\t');
    assert forall|j: int| 0 <= j < t1 implies l[j] != '\t' by {
        assert(l[j] == w[j]);
    }
    lemma_find_tab_at(l, 0, t1);
    assert(l[t2] == '\t');
    assert forall|j: int| t1 + 1 <= j < t2 implies l[j] != '\t' by {
        assert(l[j] == a[j - t1 - 1]);
    }
    lemma_find_tab_at(l, t1 + 1, t2);
    assert forall|j: int| t2 + 1 <= j < l.len() implies l[j] != '\t' by {
        assert(l[j] == b[j - t2 - 1]);
    }
    lemma_find_tab_none(l, t2 + 1);
    assert(l.subrange(0, t1) =~= w);
    assert(l.subrange(t1 + 1, t2) =~= a);
    assert(l.subrange(t2 + 1, l.len() as int) =~= b);
}

/// A `PROGRESS` frame reads back as the position and error count it was
/// written with.
pub proof fn law_progress_frame_reads_back(position: usize, errors: usize)
    ensures
        race_frame_spec(progress_line_spec(position, errors)) == (RaceFrame::Progress {
            position,
            errors,
        }),
{
    reveal_strlit("PROGRESS");
    let a = dec_digits(position as nat);
    let b = dec_digits(errors as nat);
    lemma_digits_no_tab(position as nat);
    lemma_digits_no_tab(errors as nat);
    lemma_parse_unsigned_of_dec(position as nat, usize::MAX as nat);
    lemma_parse_unsigned_of_dec(errors as nat, usize::MAX as nat);
    let l = "PROGRESS"@ + seq!['\t'] + a + seq!['\t'] + b;
    assert(l.last() == b.last());
    lemma_trim_line_end_newline(l);
    assert(progress_line_spec(position, errors) =~= l.push('\n'));
    lemma_three_fields("PROGRESS"@, a, b);
}

/// A `DONE` frame reads back as the speed and accuracy it was written with.
pub proof fn law_done_frame_reads_back(wpm_x100: i64, accuracy_x100: i64)
    ensures
        race_frame_spec(done_line_spec(wpm_x100, accuracy_x100)) == (RaceFrame::Done {
            wpm_x100,
            accuracy_x100,
        }),
{
    reveal_strlit("DONE");
    reveal_strlit("PROGRESS");
    let a = signed_dec(wpm_x100 as int);
    let b = signed_dec(accuracy_x100 as int);
    lemma_signed_dec_shape(wpm_x100 as int);
    lemma_signed_dec_shape(accuracy_x100 as int);
    let l = "DONE"@ + seq!['\t'] + a + seq!['\t'] + b;
    assert(l.last() == b.last());
    lemma_trim_line_end_newline(l);
    assert(done_line_spec(wpm_x100, accuracy_x100) =~= l.push('\n'));
    lemma_three_fields("DONE"@, a, b);
    assert(l.subrange(0, field_end(l, 0)) != "PROGRESS"@);
}

/// A discovery frame reads back, once its line ending is cut, as the id, port
/// and name it was written with, provided the id is not empty and holds no
/// tab and the name does not end with a line-ending character.
pub proof fn law_hello_udp_reads_back(id: Seq<char>, port: u16, name: Seq<char>)
    requires
        id.len() > 0,
        forall|i: int| 0 <= i < id.len() ==> id[i] != '\t',
        name.len() == 0 || !is_line_end(name.last()),
    ensures
        hello_udp_spec(trim_line_end(hello_udp_line_spec(id, port, name))) == Some(
            (id, port, name),
        ),
{
    reveal_strlit("HELLO");
    let d = dec_digits(port as nat);
    lemma_digits_no_tab(port as nat);
    lemma_parse_unsigned_of_dec(port as nat, u16::MAX as nat);
    let l = "HELLO"@ + seq!['\t'] + id + seq!['\t'] + d + seq!['\t'] + name;
    if name.len() > 0 {
        assert(l.last() == name.last());
    } else {
        assert(l.last() == '\t');
    }
    lemma_trim_line_end_newline(l);
    assert(hello_udp_line_spec(id, port, name) =~= l.push('\n'));
    let t1 = 5int;
    let t2 = t1 + 1 + id.len();
    let t3 = t2 + 1 + d.len();
    assert forall|j: int| 0 <= j < t1 implies l[j] != '\t' by {}
    lemma_find_tab_at(l, 0, t1);
    assert forall|j: int| t1 + 1 <= j < t2 implies l[j] != '\t' by {
        assert(l[j] == id[j - t1 - 1]);
    }
    lemma_find_tab_at(l, t1 + 1, t2);
    assert forall|j: int| t2 + 1 <= j < t3 implies l[j] != '\t' by {
        assert(l[j] == d[j - t2 - 1]);
    }
    lemma_find_tab_at(l, t2 + 1, t3);
    assert(l.subrange(0, t1) =~= "HELLO"@);
    assert(l.subrange(t1 + 1, t2) =~= id);
    assert(l.subrange(t2 + 1, t3) =~= d);
    assert(l.subrange(t3 + 1, l.len() as int) =~= name);
}

/// The frame that opens a race connection reads back, once white space is
/// cut from its end, as the id and name it was written with, provided the id
/// is not empty and holds no tab and the name is not empty and does not end
/// with white space.
pub proof fn law_hello_tcp_reads_back(id: Seq<char>, name: Seq<char>)
    requires
        id.len() > 0,
        forall|i: int| 0 <= i < id.len() ==> id[i] != '\t',
        name.len() > 0,
        !is_white_space(name.last()),
    ensures
        hello_tcp_spec(trim_end_ws(hello_tcp_line_spec(id, name))) == Some((id, name)),
{
    reveal_strlit("HELLO");
    let l = "HELLO"@ + seq!['\t'] + id + seq!['\t'] + name;
    assert(l.last() == name.last());
    lemma_trim_end_ws_newline(l);
    assert(hello_tcp_line_spec(id, name) =~= l.push('\n'));
    let t1 = 5int;
    let t2 = t1 + 1 + id.len();
    assert forall|j: int| 0 <= j < t1 implies l[j] != '\t' by {}
    lemma_find_tab_at(l, 0, t1);
    assert forall|j: int| t1 + 1 <= j < t2 implies l[j] != '\t' by {
        assert(l[j] == id[j - t1 - 1]);
    }
    lemma_find_tab_at(l, t1 + 1, t2);
    assert(l.subrange(0, t1) =~= "HELLO"@);
    assert(l.subrange(t1 + 1, t2) =~= id);
    assert(l.subrange(t2 + 1, l.len() as int) =~= name);
}

/// The `QUIT` frame reads back as `Quit`.
pub proof fn law_quit_frame_reads_back()
    ensures
        race_frame_spec("QUIT\n"@) == RaceFrame::Quit,
{
    reveal_strlit("QUIT\n");
    reveal_strlit("QUIT");
    reveal_strlit("DONE");
    reveal_strlit("PROGRESS");
    let l = "QUIT"@;
    assert("QUIT\n"@ =~= l.push('\n'));
    lemma_trim_line_end_newline(l);
    lemma_find_tab_none(l, 0);
    assert(l.subrange(0, field_end(l, 0)) =~= l);
}


/// The `START` line reads back, once white space is cut from its end, as an
/// acceptance that carries the text it was written with (tabs and line feeds
/// turned into spaces), provided the text is not empty and does not end with
/// white space.
pub proof fn law_start_line_reads_back(text: Seq<char>)
    requires
        text.len() > 0,
        !is_white_space(one_line_field(text).last()),
    ensures
        ({
            let l = trim_end_ws(start_line_spec(text));
            &&& has_prefix(l, "START\t"@)
            &&& l.subrange("START\t"@.len() as int, l.len() as int) == one_line_field(text)
        }),
{
    reveal_strlit("START");
    reveal_strlit("START\t");
    let f = one_line_field(text);
    let l = "START"@ + seq!['\t'] + f;
    assert(l.last() == f.last());
    lemma_trim_end_ws_newline(l);
    assert(start_line_spec(text) =~= l.push('\n'));
    assert(l.subrange(0, 6) =~= "START\t"@);
    assert(l.subrange(6, l.len() as int) =~= f);
}

} // verus!
