//! Keyboard layouts: which character each key types, with and without Shift,
//! and which finger presses it; and picking a layout from a Windows keyboard
//! layout identifier (KLID).

use vstd::prelude::*;
use vstd::string::StringSliceAdditionalSpecFns;
use crate::finger::Finger;
use crate::textutil::chars_of;

verus! {

/// One key of the on-screen keyboard.
#[derive(Debug, Clone, Copy)]
pub struct LayoutKey {
    /// The text printed on the key cap (`"A"`, `"& 1"`, `"Tab"`).
    pub label: &'static str,
    /// The character the key types without Shift, or `'\0'` for a key that
    /// types nothing (Shift, Tab, ...).
    pub unshifted: char,
    /// The character the key types with Shift, or `'\0'` when Shift changes
    /// nothing.
    pub shifted: char,
    /// How wide the key is drawn, in quarters of the width of a letter key.
    pub width_quarters: u32,
    /// The finger that presses the key.
    pub finger: Finger,
}

/// A keyboard layout.
pub struct KeyboardLayout {
    /// Name shown to the user, e.g. `"US English (QWERTY)"`.
    pub name: &'static str,
    /// Windows keyboard layout identifier, e.g. `"00000409"`.
    pub klid: &'static str,
    /// The rows of keys, top to bottom.
    pub rows: Vec<Vec<LayoutKey>>,
}

/// A key with its label, its two characters, its width in quarter units and
/// its finger.
#[verifier::allow_in_spec]
pub fn key(label: &'static str, unshifted: char, shifted: char, width_quarters: u32, finger: Finger) -> LayoutKey
    returns
        (LayoutKey { label, unshifted, shifted, width_quarters, finger }),
{
    LayoutKey { label, unshifted, shifted, width_quarters, finger }
}

/// Whether the key types `c`, with or without Shift. `'\0'` only marks a
/// key or a Shift state that types nothing, so no key types it.
pub open spec fn key_types(k: LayoutKey, c: char) -> bool {
    c != '\0' && (k.unshifted == c || k.shifted == c)
}

/// The finger of the first key of `row` that types `c`, if any.
pub open spec fn finger_in_row(row: Seq<LayoutKey>, c: char) -> Option<Finger>
    decreases row.len(),
{
    if row.len() == 0 {
        None
    } else if key_types(row[0], c) {
        Some(row[0].finger)
    } else {
        finger_in_row(row.drop_first(), c)
    }
}

/// The finger of the first key, row by row from the top, that types `c`, or
/// `Any` when no key does.
pub open spec fn finger_in_rows(rows: Seq<Seq<LayoutKey>>, c: char) -> Finger
    decreases rows.len(),
{
    if rows.len() == 0 {
        Finger::Any
    } else {
        match finger_in_row(rows[0], c) {
            Some(f) => f,
            None => finger_in_rows(rows.drop_first(), c),
        }
    }
}

/// No key types `'\0'`, on any layout.
pub proof fn lemma_no_finger_for_nul(rows: Seq<Seq<LayoutKey>>)
    ensures
        finger_in_rows(rows, '\0') == Finger::Any,
    decreases rows.len(),
{
    if rows.len() > 0 {
        lemma_no_finger_in_row_for_nul(rows[0]);
        lemma_no_finger_for_nul(rows.drop_first());
    }
}

proof fn lemma_no_finger_in_row_for_nul(row: Seq<LayoutKey>)
    ensures
        finger_in_row(row, '\0') is None,
    decreases row.len(),
{
    if row.len() > 0 {
        lemma_no_finger_in_row_for_nul(row.drop_first());
    }
}

impl KeyboardLayout {
    /// The rows of keys as sequences.
    pub open spec fn rows_view(&self) -> Seq<Seq<LayoutKey>> {
        self.rows@.map_values(|r: Vec<LayoutKey>| r@)
    }

    /// The finger that should press `c` on this layout: that of the first key,
    /// top row first and left to right, that types `c` with or without Shift;
    /// [`Finger::Any`] when no single key types it (`'\0'` among them).
    pub fn finger_for_char(&self, c: char) -> (f: Finger)
        ensures
            f == finger_in_rows(self.rows_view(), c),
            c == '\0' ==> f == Finger::Any,
    {
        proof {
            lemma_no_finger_for_nul(self.rows_view());
        }
        let ghost rows = self.rows_view();
        let mut r: usize = 0;
        assert(rows.skip(0) =~= rows);
        while r < self.rows.len()
            invariant
                rows == self.rows_view(),
                r <= self.rows@.len(),
                finger_in_rows(rows, c) == finger_in_rows(rows.skip(r as int), c),
            decreases self.rows@.len() - r,
        {
            let row = &self.rows[r];
            let ghost keys = row@;
            assert(rows.skip(r as int)[0] == keys);
            let mut i: usize = 0;
            assert(keys.skip(0) =~= keys);
            while i < row.len()
                invariant
                    rows == self.rows_view(),
                    r < self.rows@.len(),
                    rows.skip(r as int)[0] == keys,
                    rows.skip(r as int).len() > 0,
                    finger_in_rows(rows, c) == finger_in_rows(rows.skip(r as int), c),
                    keys == row@,
                    i <= keys.len(),
                    finger_in_row(keys, c) == finger_in_row(keys.skip(i as int), c),
                decreases keys.len() - i,
            {
                let k = &row[i];
                if c != '\0' && (k.unshifted == c || k.shifted == c) {
                    assert(keys.skip(i as int)[0] == *k);
                    assert(finger_in_row(keys, c) == Some(k.finger));
                    return k.finger;
                }
                assert(keys.skip(i as int).drop_first() =~= keys.skip(i + 1));
                i += 1;
            }
            assert(keys.skip(i as int).len() == 0);
            assert(finger_in_row(keys, c) is None);
            assert(rows.skip(r as int).drop_first() =~= rows.skip(r + 1));
            r += 1;
        }
        assert(rows.skip(r as int).len() == 0);
        Finger::Any
    }
}

/// What the on-screen keyboard prints for a key's character: nothing for
/// `'\0'`, otherwise the character itself.
pub fn char_to_string(c: char) -> (s: String)
    ensures
        s@ == (if c == '\0' { Seq::<char>::empty() } else { seq![c] }),
{
    let mut s = String::new();
    if c != '\0' {
        s.push(c);
    }
    assert(s@ =~= (if c == '\0' { Seq::<char>::empty() } else { seq![c] }));
    s
}

// ---------------------------------------------------------------------------
//  The layouts
// ---------------------------------------------------------------------------

/// The layouts this program knows, in the order in which they are searched.
#[derive(Debug, Clone, Copy, PartialEq, Eq, Structural)]
pub enum LayoutId {
    Us,
    Uk,
    Fr,
    De,
    Es,
    No,
}

/// The name shown for a layout.
pub open spec fn layout_name(id: LayoutId) -> Seq<char> {
    match id {
        LayoutId::Us => "US English (QWERTY)"@,
        LayoutId::Uk => "UK English (QWERTY)"@,
        LayoutId::Fr => "French (AZERTY)"@,
        LayoutId::De => "German (QWERTZ)"@,
        LayoutId::Es => "Spanish (QWERTY)"@,
        LayoutId::No => "Norwegian (QWERTY)"@,
    }
}

/// The Windows KLID of a layout.
pub open spec fn klid_of(id: LayoutId) -> Seq<char> {
    match id {
        LayoutId::Us => "00000409"@,
        LayoutId::Uk => "00000809"@,
        LayoutId::Fr => "0000040C"@,
        LayoutId::De => "00000407"@,
        LayoutId::Es => "0000040A"@,
        LayoutId::No => "00000414"@,
    }
}

fn layout_name_of(id: LayoutId) -> (s: &'static str)
    ensures
        s@ == layout_name(id),
{
    match id {
        LayoutId::Us => "US English (QWERTY)",
        LayoutId::Uk => "UK English (QWERTY)",
        LayoutId::Fr => "French (AZERTY)",
        LayoutId::De => "German (QWERTZ)",
        LayoutId::Es => "Spanish (QWERTY)",
        LayoutId::No => "Norwegian (QWERTY)",
    }
}

fn klid_text(id: LayoutId) -> (s: &'static str)
    ensures
        s@ == klid_of(id),
{
    match id {
        LayoutId::Us => "00000409",
        LayoutId::Uk => "00000809",
        LayoutId::Fr => "0000040C",
        LayoutId::De => "00000407",
        LayoutId::Es => "0000040A",
        LayoutId::No => "00000414",
    }
}

/// Row 0 of the US layout.
pub open spec fn us_row0_keys() -> Seq<LayoutKey> {
    seq![
        key("`", '`', '~', 4, Finger::LeftPinky),
        key("1", '1', '!', 4, Finger::LeftPinky),
        key("2", '2', '@', 4, Finger::LeftRing),
        key("3", '3', '#', 4, Finger::LeftMiddle),
        key("4", '4', '$', 4, Finger::LeftIndex),
        key("5", '5', '%', 4, Finger::LeftIndex),
        key("6", '6', '^', 4, Finger::RightIndex),
        key("7", '7', '&', 4, Finger::RightIndex),
        key("8", '8', '*', 4, Finger::RightMiddle),
        key("9", '9', '(', 4, Finger::RightRing),
        key("0", '0', ')', 4, Finger::RightPinky),
        key("-", '-', '_', 4, Finger::RightPinky),
        key("=", '=', '+', 4, Finger::RightPinky),
        key("⌫", '\0', '\0', 8, Finger::RightPinky),
    ]
}

/// Row 1 of the US layout.
pub open spec fn us_row1_keys() -> Seq<LayoutKey> {
    seq![
        key("Tab", '\0', '\0', 6, Finger::LeftPinky),
        key("Q", 'q', 'Q', 4, Finger::LeftPinky),
        key("W", 'w', 'W', 4, Finger::LeftRing),
        key("E", 'e', 'E', 4, Finger::LeftMiddle),
        key("R", 'r', 'R', 4, Finger::LeftIndex),
        key("T", 't', 'T', 4, Finger::LeftIndex),
        key("Y", 'y', 'Y', 4, Finger::RightIndex),
        key("U", 'u', 'U', 4, Finger::RightIndex),
        key("I", 'i', 'I', 4, Finger::RightMiddle),
        key("O", 'o', 'O', 4, Finger::RightRing),
        key("P", 'p', 'P', 4, Finger::RightPinky),
        key("[", '[', '{', 4, Finger::RightPinky),
        key("]", ']', '}', 4, Finger::RightPinky),
        key("\\", '\\', '|', 6, Finger::RightPinky),
    ]
}

/// Row 2 of the US layout.
pub open spec fn us_row2_keys() -> Seq<LayoutKey> {
    seq![
        key("Caps", '\0', '\0', 7, Finger::LeftPinky),
        key("A", 'a', 'A', 4, Finger::LeftPinky),
        key("S", 's', 'S', 4, Finger::LeftRing),
        key("D", 'd', 'D', 4, Finger::LeftMiddle),
        key("F", 'f', 'F', 4, Finger::LeftIndex),
        key("G", 'g', 'G', 4, Finger::LeftIndex),
        key("H", 'h', 'H', 4, Finger::RightIndex),
        key("J", 'j', 'J', 4, Finger::RightIndex),
        key("K", 'k', 'K', 4, Finger::RightMiddle),
        key("L", 'l', 'L', 4, Finger::RightRing),
        key(";", ';', ':', 4, Finger::RightPinky),
        key("'", '\'', '"', 4, Finger::RightPinky),
        key("Enter", '\0', '\0', 9, Finger::RightPinky),
    ]
}

/// Row 3 of the US layout.
pub open spec fn us_row3_keys() -> Seq<LayoutKey> {
    seq![
        key("Shift", '\0', '\0', 9, Finger::LeftPinky),
        key("Z", 'z', 'Z', 4, Finger::LeftPinky),
        key("X", 'x', 'X', 4, Finger::LeftRing),
        key("C", 'c', 'C', 4, Finger::LeftMiddle),
        key("V", 'v', 'V', 4, Finger::LeftIndex),
        key("B", 'b', 'B', 4, Finger::LeftIndex),
        key("N", 'n', 'N', 4, Finger::RightIndex),
        key("M", 'm', 'M', 4, Finger::RightIndex),
        key(",", ',', '<', 4, Finger::RightMiddle),
        key(".", '.', '>', 4, Finger::RightRing),
        key("/", '/', '?', 4, Finger::RightPinky),
        key("Shift", '\0', '\0', 11, Finger::RightPinky),
    ]
}

/// Row 4 of the US layout.
pub open spec fn us_row4_keys() -> Seq<LayoutKey> {
    seq![
        key("Ctrl", '\0', '\0', 6, Finger::LeftPinky),
        key("Alt", '\0', '\0', 5, Finger::LeftPinky),
        key("Space", ' ', ' ', 32, Finger::RightThumb),
        key("Alt", '\0', '\0', 5, Finger::RightPinky),
        key("Ctrl", '\0', '\0', 6, Finger::RightPinky),
    ]
}

/// Row 0 of the UK layout.
pub open spec fn uk_row0_keys() -> Seq<LayoutKey> {
    seq![
        key("`", '`', '¬', 4, Finger::LeftPinky),
        key("1", '1', '!', 4, Finger::LeftPinky),
        key("2", '2', '"', 4, Finger::LeftRing),
        key("3", '3', '£', 4, Finger::LeftMiddle),
        key("4", '4', '$', 4, Finger::LeftIndex),
        key("5", '5', '%', 4, Finger::LeftIndex),
        key("6", '6', '^', 4, Finger::RightIndex),
        key("7", '7', '&', 4, Finger::RightIndex),
        key("8", '8', '*', 4, Finger::RightMiddle),
        key("9", '9', '(', 4, Finger::RightRing),
        key("0", '0', ')', 4, Finger::RightPinky),
        key("-", '-', '_', 4, Finger::RightPinky),
        key("=", '=', '+', 4, Finger::RightPinky),
        key("⌫", '\0', '\0', 8, Finger::RightPinky),
    ]
}

/// Row 2 of the UK layout.
pub open spec fn uk_row2_keys() -> Seq<LayoutKey> {
    seq![
        key("Caps", '\0', '\0', 7, Finger::LeftPinky),
        key("A", 'a', 'A', 4, Finger::LeftPinky),
        key("S", 's', 'S', 4, Finger::LeftRing),
        key("D", 'd', 'D', 4, Finger::LeftMiddle),
        key("F", 'f', 'F', 4, Finger::LeftIndex),
        key("G", 'g', 'G', 4, Finger::LeftIndex),
        key("H", 'h', 'H', 4, Finger::RightIndex),
        key("J", 'j', 'J', 4, Finger::RightIndex),
        key("K", 'k', 'K', 4, Finger::RightMiddle),
        key("L", 'l', 'L', 4, Finger::RightRing),
        key(";", ';', ':', 4, Finger::RightPinky),
        key("'", '\'', '@', 4, Finger::RightPinky),
        key("Enter", '\0', '\0', 9, Finger::RightPinky),
    ]
}

/// Row 0 of the FR layout.
pub open spec fn fr_row0_keys() -> Seq<LayoutKey> {
    seq![
        key("²", '²', '³', 4, Finger::LeftPinky),
        key("& 1", '&', '1', 4, Finger::LeftPinky),
        key("é 2", 'é', '2', 4, Finger::LeftRing),
        key("\" 3", '"', '3', 4, Finger::LeftMiddle),
        key("' 4", '\'', '4', 4, Finger::LeftIndex),
        key("( 5", '(', '5', 4, Finger::LeftIndex),
        key("- 6", '-', '6', 4, Finger::RightIndex),
        key("è 7", 'è', '7', 4, Finger::RightIndex),
        key("_ 8", '_', '8', 4, Finger::RightMiddle),
        key("ç 9", 'ç', '9', 4, Finger::RightRing),
        key("à 0", 'à', '0', 4, Finger::RightPinky),
        key(") °", ')', '°', 4, Finger::RightPinky),
        key("= +", '=', '+', 4, Finger::RightPinky),
        key("⌫", '\0', '\0', 8, Finger::RightPinky),
    ]
}

/// Row 1 of the FR layout.
pub open spec fn fr_row1_keys() -> Seq<LayoutKey> {
    seq![
        key("Tab", '\0', '\0', 6, Finger::LeftPinky),
        key("A", 'a', 'A', 4, Finger::LeftPinky),
        key("Z", 'z', 'Z', 4, Finger::LeftRing),
        key("E", 'e', 'E', 4, Finger::LeftMiddle),
        key("R", 'r', 'R', 4, Finger::LeftIndex),
        key("T", 't', 'T', 4, Finger::LeftIndex),
        key("Y", 'y', 'Y', 4, Finger::RightIndex),
        key("U", 'u', 'U', 4, Finger::RightIndex),
        key("I", 'i', 'I', 4, Finger::RightMiddle),
        key("O", 'o', 'O', 4, Finger::RightRing),
        key("P", 'p', 'P', 4, Finger::RightPinky),
        key("^", '^', '¨', 4, Finger::RightPinky),
        key("$", '$', '£', 4, Finger::RightPinky),
        key("*", '*', 'µ', 6, Finger::RightPinky),
    ]
}

/// Row 2 of the FR layout.
pub open spec fn fr_row2_keys() -> Seq<LayoutKey> {
    seq![
        key("Caps", '\0', '\0', 7, Finger::LeftPinky),
        key("Q", 'q', 'Q', 4, Finger::LeftPinky),
        key("S", 's', 'S', 4, Finger::LeftRing),
        key("D", 'd', 'D', 4, Finger::LeftMiddle),
        key("F", 'f', 'F', 4, Finger::LeftIndex),
        key("G", 'g', 'G', 4, Finger::LeftIndex),
        key("H", 'h', 'H', 4, Finger::RightIndex),
        key("J", 'j', 'J', 4, Finger::RightIndex),
        key("K", 'k', 'K', 4, Finger::RightMiddle),
        key("L", 'l', 'L', 4, Finger::RightRing),
        key("M", 'm', 'M', 4, Finger::RightPinky),
        key("ù %", 'ù', '%', 4, Finger::RightPinky),
        key("Enter", '\0', '\0', 9, Finger::RightPinky),
    ]
}

/// Row 3 of the FR layout.
pub open spec fn fr_row3_keys() -> Seq<LayoutKey> {
    seq![
        key("Shift", '\0', '\0', 9, Finger::LeftPinky),
        key("W", 'w', 'W', 4, Finger::LeftPinky),
        key("X", 'x', 'X', 4, Finger::LeftRing),
        key("C", 'c', 'C', 4, Finger::LeftMiddle),
        key("V", 'v', 'V', 4, Finger::LeftIndex),
        key("B", 'b', 'B', 4, Finger::LeftIndex),
        key("N", 'n', 'N', 4, Finger::RightIndex),
        key(", ?", ',', '?', 4, Finger::RightIndex),
        key("; .", ';', '.', 4, Finger::RightMiddle),
        key(": /", ':', '/', 4, Finger::RightRing),
        key("! §", '!', '§', 4, Finger::RightPinky),
        key("Shift", '\0', '\0', 11, Finger::RightPinky),
    ]
}

/// Row 0 of the DE layout.
pub open spec fn de_row0_keys() -> Seq<LayoutKey> {
    seq![
        key("^ °", '^', '°', 4, Finger::LeftPinky),
        key("1 !", '1', '!', 4, Finger::LeftPinky),
        key("2 \"", '2', '"', 4, Finger::LeftRing),
        key("3 §", '3', '§', 4, Finger::LeftMiddle),
        key("4 $", '4', '$', 4, Finger::LeftIndex),
        key("5 %", '5', '%', 4, Finger::LeftIndex),
        key("6 &", '6', '&', 4, Finger::RightIndex),
        key("7 /", '7', '/', 4, Finger::RightIndex),
        key("8 (", '8', '(', 4, Finger::RightMiddle),
        key("9 )", '9', ')', 4, Finger::RightRing),
        key("0 =", '0', '=', 4, Finger::RightPinky),
        key("ß ?", 'ß', '?', 4, Finger::RightPinky),
        key("´ `", '´', '`', 4, Finger::RightPinky),
        key("⌫", '\0', '\0', 8, Finger::RightPinky),
    ]
}

/// Row 1 of the DE layout.
pub open spec fn de_row1_keys() -> Seq<LayoutKey> {
    seq![
        key("Tab", '\0', '\0', 6, Finger::LeftPinky),
        key("Q", 'q', 'Q', 4, Finger::LeftPinky),
        key("W", 'w', 'W', 4, Finger::LeftRing),
        key("E", 'e', 'E', 4, Finger::LeftMiddle),
        key("R", 'r', 'R', 4, Finger::LeftIndex),
        key("T", 't', 'T', 4, Finger::LeftIndex),
        key("Z", 'z', 'Z', 4, Finger::RightIndex),
        key("U", 'u', 'U', 4, Finger::RightIndex),
        key("I", 'i', 'I', 4, Finger::RightMiddle),
        key("O", 'o', 'O', 4, Finger::RightRing),
        key("P", 'p', 'P', 4, Finger::RightPinky),
        key("Ü", 'ü', 'Ü', 4, Finger::RightPinky),
        key("+ *", '+', '*', 4, Finger::RightPinky),
        key("# '", '#', '\'', 6, Finger::RightPinky),
    ]
}

/// Row 2 of the DE layout.
pub open spec fn de_row2_keys() -> Seq<LayoutKey> {
    seq![
        key("Caps", '\0', '\0', 7, Finger::LeftPinky),
        key("A", 'a', 'A', 4, Finger::LeftPinky),
        key("S", 's', 'S', 4, Finger::LeftRing),
        key("D", 'd', 'D', 4, Finger::LeftMiddle),
        key("F", 'f', 'F', 4, Finger::LeftIndex),
        key("G", 'g', 'G', 4, Finger::LeftIndex),
        key("H", 'h', 'H', 4, Finger::RightIndex),
        key("J", 'j', 'J', 4, Finger::RightIndex),
        key("K", 'k', 'K', 4, Finger::RightMiddle),
        key("L", 'l', 'L', 4, Finger::RightRing),
        key("Ö", 'ö', 'Ö', 4, Finger::RightPinky),
        key("Ä", 'ä', 'Ä', 4, Finger::RightPinky),
        key("Enter", '\0', '\0', 9, Finger::RightPinky),
    ]
}

/// Row 3 of the DE layout.
pub open spec fn de_row3_keys() -> Seq<LayoutKey> {
    seq![
        key("Shift", '\0', '\0', 9, Finger::LeftPinky),
        key("Y", 'y', 'Y', 4, Finger::LeftPinky),
        key("X", 'x', 'X', 4, Finger::LeftRing),
        key("C", 'c', 'C', 4, Finger::LeftMiddle),
        key("V", 'v', 'V', 4, Finger::LeftIndex),
        key("B", 'b', 'B', 4, Finger::LeftIndex),
        key("N", 'n', 'N', 4, Finger::RightIndex),
        key("M", 'm', 'M', 4, Finger::RightIndex),
        key(", ;", ',', ';', 4, Finger::RightMiddle),
        key(". :", '.', ':', 4, Finger::RightRing),
        key("- _", '-', '_', 4, Finger::RightPinky),
        key("Shift", '\0', '\0', 11, Finger::RightPinky),
    ]
}

/// Row 0 of the ES layout.
pub open spec fn es_row0_keys() -> Seq<LayoutKey> {
    seq![
        key("º ª", 'º', 'ª', 4, Finger::LeftPinky),
        key("1 !", '1', '!', 4, Finger::LeftPinky),
        key("2 \"", '2', '"', 4, Finger::LeftRing),
        key("3 ·", '3', '·', 4, Finger::LeftMiddle),
        key("4 $", '4', '$', 4, Finger::LeftIndex),
        key("5 %", '5', '%', 4, Finger::LeftIndex),
        key("6 &", '6', '&', 4, Finger::RightIndex),
        key("7 /", '7', '/', 4, Finger::RightIndex),
        key("8 (", '8', '(', 4, Finger::RightMiddle),
        key("9 )", '9', ')', 4, Finger::RightRing),
        key("0 =", '0', '=', 4, Finger::RightPinky),
        key("' ?", '\'', '?', 4, Finger::RightPinky),
        key("¡ ¿", '¡', '¿', 4, Finger::RightPinky),
        key("⌫", '\0', '\0', 8, Finger::RightPinky),
    ]
}

/// Row 2 of the ES layout.
pub open spec fn es_row2_keys() -> Seq<LayoutKey> {
    seq![
        key("Caps", '\0', '\0', 7, Finger::LeftPinky),
        key("A", 'a', 'A', 4, Finger::LeftPinky),
        key("S", 's', 'S', 4, Finger::LeftRing),
        key("D", 'd', 'D', 4, Finger::LeftMiddle),
        key("F", 'f', 'F', 4, Finger::LeftIndex),
        key("G", 'g', 'G', 4, Finger::LeftIndex),
        key("H", 'h', 'H', 4, Finger::RightIndex),
        key("J", 'j', 'J', 4, Finger::RightIndex),
        key("K", 'k', 'K', 4, Finger::RightMiddle),
        key("L", 'l', 'L', 4, Finger::RightRing),
        key("Ñ", 'ñ', 'Ñ', 4, Finger::RightPinky),
        key("´ ¨", '´', '¨', 4, Finger::RightPinky),
        key("Enter", '\0', '\0', 9, Finger::RightPinky),
    ]
}

/// Row 0 of the NO layout.
pub open spec fn no_row0_keys() -> Seq<LayoutKey> {
    seq![
        key("| §", '|', '§', 4, Finger::LeftPinky),
        key("1 !", '1', '!', 4, Finger::LeftPinky),
        key("2 \"", '2', '"', 4, Finger::LeftRing),
        key("3 #", '3', '#', 4, Finger::LeftMiddle),
        key("4 ¤", '4', '¤', 4, Finger::LeftIndex),
        key("5 %", '5', '%', 4, Finger::LeftIndex),
        key("6 &", '6', '&', 4, Finger::RightIndex),
        key("7 /", '7', '/', 4, Finger::RightIndex),
        key("8 (", '8', '(', 4, Finger::RightMiddle),
        key("9 )", '9', ')', 4, Finger::RightRing),
        key("0 =", '0', '=', 4, Finger::RightPinky),
        key("+ ?", '+', '?', 4, Finger::RightPinky),
        key("\\ `", '\\', '`', 4, Finger::RightPinky),
        key("⌫", '\0', '\0', 8, Finger::RightPinky),
    ]
}

/// Row 1 of the NO layout.
pub open spec fn no_row1_keys() -> Seq<LayoutKey> {
    seq![
        key("Tab", '\0', '\0', 6, Finger::LeftPinky),
        key("Q", 'q', 'Q', 4, Finger::LeftPinky),
        key("W", 'w', 'W', 4, Finger::LeftRing),
        key("E", 'e', 'E', 4, Finger::LeftMiddle),
        key("R", 'r', 'R', 4, Finger::LeftIndex),
        key("T", 't', 'T', 4, Finger::LeftIndex),
        key("Y", 'y', 'Y', 4, Finger::RightIndex),
        key("U", 'u', 'U', 4, Finger::RightIndex),
        key("I", 'i', 'I', 4, Finger::RightMiddle),
        key("O", 'o', 'O', 4, Finger::RightRing),
        key("P", 'p', 'P', 4, Finger::RightPinky),
        key("Å", 'å', 'Å', 4, Finger::RightPinky),
        key("¨ ^", '¨', '^', 4, Finger::RightPinky),
        key("' *", '\'', '*', 6, Finger::RightPinky),
    ]
}

/// Row 2 of the NO layout.
pub open spec fn no_row2_keys() -> Seq<LayoutKey> {
    seq![
        key("Caps", '\0', '\0', 7, Finger::LeftPinky),
        key("A", 'a', 'A', 4, Finger::LeftPinky),
        key("S", 's', 'S', 4, Finger::LeftRing),
        key("D", 'd', 'D', 4, Finger::LeftMiddle),
        key("F", 'f', 'F', 4, Finger::LeftIndex),
        key("G", 'g', 'G', 4, Finger::LeftIndex),
        key("H", 'h', 'H', 4, Finger::RightIndex),
        key("J", 'j', 'J', 4, Finger::RightIndex),
        key("K", 'k', 'K', 4, Finger::RightMiddle),
        key("L", 'l', 'L', 4, Finger::RightRing),
        key("Ø", 'ø', 'Ø', 4, Finger::RightPinky),
        key("Æ", 'æ', 'Æ', 4, Finger::RightPinky),
        key("Enter", '\0', '\0', 9, Finger::RightPinky),
    ]
}

/// Row 3 of the NO layout.
pub open spec fn no_row3_keys() -> Seq<LayoutKey> {
    seq![
        key("Shift", '\0', '\0', 5, Finger::LeftPinky),
        key("< >", '<', '>', 4, Finger::LeftPinky),
        key("Z", 'z', 'Z', 4, Finger::LeftPinky),
        key("X", 'x', 'X', 4, Finger::LeftRing),
        key("C", 'c', 'C', 4, Finger::LeftMiddle),
        key("V", 'v', 'V', 4, Finger::LeftIndex),
        key("B", 'b', 'B', 4, Finger::LeftIndex),
        key("N", 'n', 'N', 4, Finger::RightIndex),
        key("M", 'm', 'M', 4, Finger::RightIndex),
        key(", ;", ',', ';', 4, Finger::RightMiddle),
        key(". :", '.', ':', 4, Finger::RightRing),
        key("- _", '-', '_', 4, Finger::RightPinky),
        key("Shift", '\0', '\0', 11, Finger::RightPinky),
    ]
}

fn us_row0() -> (r: Vec<LayoutKey>)
    ensures
        r@ == us_row0_keys(),
{
    let r = vec![
        key("`", '`', '~', 4, Finger::LeftPinky),
        key("1", '1', '!', 4, Finger::LeftPinky),
        key("2", '2', '@', 4, Finger::LeftRing),
        key("3", '3', '#', 4, Finger::LeftMiddle),
        key("4", '4', '$', 4, Finger::LeftIndex),
        key("5", '5', '%', 4, Finger::LeftIndex),
        key("6", '6', '^', 4, Finger::RightIndex),
        key("7", '7', '&', 4, Finger::RightIndex),
        key("8", '8', '*', 4, Finger::RightMiddle),
        key("9", '9', '(', 4, Finger::RightRing),
        key("0", '0', ')', 4, Finger::RightPinky),
        key("-", '-', '_', 4, Finger::RightPinky),
        key("=", '=', '+', 4, Finger::RightPinky),
        key("⌫", '\0', '\0', 8, Finger::RightPinky),
    ];
    assert(r@ =~= us_row0_keys());
    r
}

fn us_row1() -> (r: Vec<LayoutKey>)
    ensures
        r@ == us_row1_keys(),
{
    let r = vec![
        key("Tab", '\0', '\0', 6, Finger::LeftPinky),
        key("Q", 'q', 'Q', 4, Finger::LeftPinky),
        key("W", 'w', 'W', 4, Finger::LeftRing),
        key("E", 'e', 'E', 4, Finger::LeftMiddle),
        key("R", 'r', 'R', 4, Finger::LeftIndex),
        key("T", 't', 'T', 4, Finger::LeftIndex),
        key("Y", 'y', 'Y', 4, Finger::RightIndex),
        key("U", 'u', 'U', 4, Finger::RightIndex),
        key("I", 'i', 'I', 4, Finger::RightMiddle),
        key("O", 'o', 'O', 4, Finger::RightRing),
        key("P", 'p', 'P', 4, Finger::RightPinky),
        key("[", '[', '{', 4, Finger::RightPinky),
        key("]", ']', '}', 4, Finger::RightPinky),
        key("\\", '\\', '|', 6, Finger::RightPinky),
    ];
    assert(r@ =~= us_row1_keys());
    r
}

fn us_row2() -> (r: Vec<LayoutKey>)
    ensures
        r@ == us_row2_keys(),
{
    let r = vec![
        key("Caps", '\0', '\0', 7, Finger::LeftPinky),
        key("A", 'a', 'A', 4, Finger::LeftPinky),
        key("S", 's', 'S', 4, Finger::LeftRing),
        key("D", 'd', 'D', 4, Finger::LeftMiddle),
        key("F", 'f', 'F', 4, Finger::LeftIndex),
        key("G", 'g', 'G', 4, Finger::LeftIndex),
        key("H", 'h', 'H', 4, Finger::RightIndex),
        key("J", 'j', 'J', 4, Finger::RightIndex),
        key("K", 'k', 'K', 4, Finger::RightMiddle),
        key("L", 'l', 'L', 4, Finger::RightRing),
        key(";", ';', ':', 4, Finger::RightPinky),
        key("'", '\'', '"', 4, Finger::RightPinky),
        key("Enter", '\0', '\0', 9, Finger::RightPinky),
    ];
    assert(r@ =~= us_row2_keys());
    r
}

fn us_row3() -> (r: Vec<LayoutKey>)
    ensures
        r@ == us_row3_keys(),
{
    let r = vec![
        key("Shift", '\0', '\0', 9, Finger::LeftPinky),
        key("Z", 'z', 'Z', 4, Finger::LeftPinky),
        key("X", 'x', 'X', 4, Finger::LeftRing),
        key("C", 'c', 'C', 4, Finger::LeftMiddle),
        key("V", 'v', 'V', 4, Finger::LeftIndex),
        key("B", 'b', 'B', 4, Finger::LeftIndex),
        key("N", 'n', 'N', 4, Finger::RightIndex),
        key("M", 'm', 'M', 4, Finger::RightIndex),
        key(",", ',', '<', 4, Finger::RightMiddle),
        key(".", '.', '>', 4, Finger::RightRing),
        key("/", '/', '?', 4, Finger::RightPinky),
        key("Shift", '\0', '\0', 11, Finger::RightPinky),
    ];
    assert(r@ =~= us_row3_keys());
    r
}

fn us_row4() -> (r: Vec<LayoutKey>)
    ensures
        r@ == us_row4_keys(),
{
    let r = vec![
        key("Ctrl", '\0', '\0', 6, Finger::LeftPinky),
        key("Alt", '\0', '\0', 5, Finger::LeftPinky),
        key("Space", ' ', ' ', 32, Finger::RightThumb),
        key("Alt", '\0', '\0', 5, Finger::RightPinky),
        key("Ctrl", '\0', '\0', 6, Finger::RightPinky),
    ];
    assert(r@ =~= us_row4_keys());
    r
}

fn uk_row0() -> (r: Vec<LayoutKey>)
    ensures
        r@ == uk_row0_keys(),
{
    let r = vec![
        key("`", '`', '¬', 4, Finger::LeftPinky),
        key("1", '1', '!', 4, Finger::LeftPinky),
        key("2", '2', '"', 4, Finger::LeftRing),
        key("3", '3', '£', 4, Finger::LeftMiddle),
        key("4", '4', '$', 4, Finger::LeftIndex),
        key("5", '5', '%', 4, Finger::LeftIndex),
        key("6", '6', '^', 4, Finger::RightIndex),
        key("7", '7', '&', 4, Finger::RightIndex),
        key("8", '8', '*', 4, Finger::RightMiddle),
        key("9", '9', '(', 4, Finger::RightRing),
        key("0", '0', ')', 4, Finger::RightPinky),
        key("-", '-', '_', 4, Finger::RightPinky),
        key("=", '=', '+', 4, Finger::RightPinky),
        key("⌫", '\0', '\0', 8, Finger::RightPinky),
    ];
    assert(r@ =~= uk_row0_keys());
    r
}

fn uk_row2() -> (r: Vec<LayoutKey>)
    ensures
        r@ == uk_row2_keys(),
{
    let r = vec![
        key("Caps", '\0', '\0', 7, Finger::LeftPinky),
        key("A", 'a', 'A', 4, Finger::LeftPinky),
        key("S", 's', 'S', 4, Finger::LeftRing),
        key("D", 'd', 'D', 4, Finger::LeftMiddle),
        key("F", 'f', 'F', 4, Finger::LeftIndex),
        key("G", 'g', 'G', 4, Finger::LeftIndex),
        key("H", 'h', 'H', 4, Finger::RightIndex),
        key("J", 'j', 'J', 4, Finger::RightIndex),
        key("K", 'k', 'K', 4, Finger::RightMiddle),
        key("L", 'l', 'L', 4, Finger::RightRing),
        key(";", ';', ':', 4, Finger::RightPinky),
        key("'", '\'', '@', 4, Finger::RightPinky),
        key("Enter", '\0', '\0', 9, Finger::RightPinky),
    ];
    assert(r@ =~= uk_row2_keys());
    r
}

fn fr_row0() -> (r: Vec<LayoutKey>)
    ensures
        r@ == fr_row0_keys(),
{
    let r = vec![
        key("²", '²', '³', 4, Finger::LeftPinky),
        key("& 1", '&', '1', 4, Finger::LeftPinky),
        key("é 2", 'é', '2', 4, Finger::LeftRing),
        key("\" 3", '"', '3', 4, Finger::LeftMiddle),
        key("' 4", '\'', '4', 4, Finger::LeftIndex),
        key("( 5", '(', '5', 4, Finger::LeftIndex),
        key("- 6", '-', '6', 4, Finger::RightIndex),
        key("è 7", 'è', '7', 4, Finger::RightIndex),
        key("_ 8", '_', '8', 4, Finger::RightMiddle),
        key("ç 9", 'ç', '9', 4, Finger::RightRing),
        key("à 0", 'à', '0', 4, Finger::RightPinky),
        key(") °", ')', '°', 4, Finger::RightPinky),
        key("= +", '=', '+', 4, Finger::RightPinky),
        key("⌫", '\0', '\0', 8, Finger::RightPinky),
    ];
    assert(r@ =~= fr_row0_keys());
    r
}

fn fr_row1() -> (r: Vec<LayoutKey>)
    ensures
        r@ == fr_row1_keys(),
{
    let r = vec![
        key("Tab", '\0', '\0', 6, Finger::LeftPinky),
        key("A", 'a', 'A', 4, Finger::LeftPinky),
        key("Z", 'z', 'Z', 4, Finger::LeftRing),
        key("E", 'e', 'E', 4, Finger::LeftMiddle),
        key("R", 'r', 'R', 4, Finger::LeftIndex),
        key("T", 't', 'T', 4, Finger::LeftIndex),
        key("Y", 'y', 'Y', 4, Finger::RightIndex),
        key("U", 'u', 'U', 4, Finger::RightIndex),
        key("I", 'i', 'I', 4, Finger::RightMiddle),
        key("O", 'o', 'O', 4, Finger::RightRing),
        key("P", 'p', 'P', 4, Finger::RightPinky),
        key("^", '^', '¨', 4, Finger::RightPinky),
        key("$", '$', '£', 4, Finger::RightPinky),
        key("*", '*', 'µ', 6, Finger::RightPinky),
    ];
    assert(r@ =~= fr_row1_keys());
    r
}

fn fr_row2() -> (r: Vec<LayoutKey>)
    ensures
        r@ == fr_row2_keys(),
{
    let r = vec![
        key("Caps", '\0', '\0', 7, Finger::LeftPinky),
        key("Q", 'q', 'Q', 4, Finger::LeftPinky),
        key("S", 's', 'S', 4, Finger::LeftRing),
        key("D", 'd', 'D', 4, Finger::LeftMiddle),
        key("F", 'f', 'F', 4, Finger::LeftIndex),
        key("G", 'g', 'G', 4, Finger::LeftIndex),
        key("H", 'h', 'H', 4, Finger::RightIndex),
        key("J", 'j', 'J', 4, Finger::RightIndex),
        key("K", 'k', 'K', 4, Finger::RightMiddle),
        key("L", 'l', 'L', 4, Finger::RightRing),
        key("M", 'm', 'M', 4, Finger::RightPinky),
        key("ù %", 'ù', '%', 4, Finger::RightPinky),
        key("Enter", '\0', '\0', 9, Finger::RightPinky),
    ];
    assert(r@ =~= fr_row2_keys());
    r
}

fn fr_row3() -> (r: Vec<LayoutKey>)
    ensures
        r@ == fr_row3_keys(),
{
    let r = vec![
        key("Shift", '\0', '\0', 9, Finger::LeftPinky),
        key("W", 'w', 'W', 4, Finger::LeftPinky),
        key("X", 'x', 'X', 4, Finger::LeftRing),
        key("C", 'c', 'C', 4, Finger::LeftMiddle),
        key("V", 'v', 'V', 4, Finger::LeftIndex),
        key("B", 'b', 'B', 4, Finger::LeftIndex),
        key("N", 'n', 'N', 4, Finger::RightIndex),
        key(", ?", ',', '?', 4, Finger::RightIndex),
        key("; .", ';', '.', 4, Finger::RightMiddle),
        key(": /", ':', '/', 4, Finger::RightRing),
        key("! §", '!', '§', 4, Finger::RightPinky),
        key("Shift", '\0', '\0', 11, Finger::RightPinky),
    ];
    assert(r@ =~= fr_row3_keys());
    r
}

fn de_row0() -> (r: Vec<LayoutKey>)
    ensures
        r@ == de_row0_keys(),
{
    let r = vec![
        key("^ °", '^', '°', 4, Finger::LeftPinky),
        key("1 !", '1', '!', 4, Finger::LeftPinky),
        key("2 \"", '2', '"', 4, Finger::LeftRing),
        key("3 §", '3', '§', 4, Finger::LeftMiddle),
        key("4 $", '4', '$', 4, Finger::LeftIndex),
        key("5 %", '5', '%', 4, Finger::LeftIndex),
        key("6 &", '6', '&', 4, Finger::RightIndex),
        key("7 /", '7', '/', 4, Finger::RightIndex),
        key("8 (", '8', '(', 4, Finger::RightMiddle),
        key("9 )", '9', ')', 4, Finger::RightRing),
        key("0 =", '0', '=', 4, Finger::RightPinky),
        key("ß ?", 'ß', '?', 4, Finger::RightPinky),
        key("´ `", '´', '`', 4, Finger::RightPinky),
        key("⌫", '\0', '\0', 8, Finger::RightPinky),
    ];
    assert(r@ =~= de_row0_keys());
    r
}

fn de_row1() -> (r: Vec<LayoutKey>)
    ensures
        r@ == de_row1_keys(),
{
    let r = vec![
        key("Tab", '\0', '\0', 6, Finger::LeftPinky),
        key("Q", 'q', 'Q', 4, Finger::LeftPinky),
        key("W", 'w', 'W', 4, Finger::LeftRing),
        key("E", 'e', 'E', 4, Finger::LeftMiddle),
        key("R", 'r', 'R', 4, Finger::LeftIndex),
        key("T", 't', 'T', 4, Finger::LeftIndex),
        key("Z", 'z', 'Z', 4, Finger::RightIndex),
        key("U", 'u', 'U', 4, Finger::RightIndex),
        key("I", 'i', 'I', 4, Finger::RightMiddle),
        key("O", 'o', 'O', 4, Finger::RightRing),
        key("P", 'p', 'P', 4, Finger::RightPinky),
        key("Ü", 'ü', 'Ü', 4, Finger::RightPinky),
        key("+ *", '+', '*', 4, Finger::RightPinky),
        key("# '", '#', '\'', 6, Finger::RightPinky),
    ];
    assert(r@ =~= de_row1_keys());
    r
}

fn de_row2() -> (r: Vec<LayoutKey>)
    ensures
        r@ == de_row2_keys(),
{
    let r = vec![
        key("Caps", '\0', '\0', 7, Finger::LeftPinky),
        key("A", 'a', 'A', 4, Finger::LeftPinky),
        key("S", 's', 'S', 4, Finger::LeftRing),
        key("D", 'd', 'D', 4, Finger::LeftMiddle),
        key("F", 'f', 'F', 4, Finger::LeftIndex),
        key("G", 'g', 'G', 4, Finger::LeftIndex),
        key("H", 'h', 'H', 4, Finger::RightIndex),
        key("J", 'j', 'J', 4, Finger::RightIndex),
        key("K", 'k', 'K', 4, Finger::RightMiddle),
        key("L", 'l', 'L', 4, Finger::RightRing),
        key("Ö", 'ö', 'Ö', 4, Finger::RightPinky),
        key("Ä", 'ä', 'Ä', 4, Finger::RightPinky),
        key("Enter", '\0', '\0', 9, Finger::RightPinky),
    ];
    assert(r@ =~= de_row2_keys());
    r
}

fn de_row3() -> (r: Vec<LayoutKey>)
    ensures
        r@ == de_row3_keys(),
{
    let r = vec![
        key("Shift", '\0', '\0', 9, Finger::LeftPinky),
        key("Y", 'y', 'Y', 4, Finger::LeftPinky),
        key("X", 'x', 'X', 4, Finger::LeftRing),
        key("C", 'c', 'C', 4, Finger::LeftMiddle),
        key("V", 'v', 'V', 4, Finger::LeftIndex),
        key("B", 'b', 'B', 4, Finger::LeftIndex),
        key("N", 'n', 'N', 4, Finger::RightIndex),
        key("M", 'm', 'M', 4, Finger::RightIndex),
        key(", ;", ',', ';', 4, Finger::RightMiddle),
        key(". :", '.', ':', 4, Finger::RightRing),
        key("- _", '-', '_', 4, Finger::RightPinky),
        key("Shift", '\0', '\0', 11, Finger::RightPinky),
    ];
    assert(r@ =~= de_row3_keys());
    r
}

fn es_row0() -> (r: Vec<LayoutKey>)
    ensures
        r@ == es_row0_keys(),
{
    let r = vec![
        key("º ª", 'º', 'ª', 4, Finger::LeftPinky),
        key("1 !", '1', '!', 4, Finger::LeftPinky),
        key("2 \"", '2', '"', 4, Finger::LeftRing),
        key("3 ·", '3', '·', 4, Finger::LeftMiddle),
        key("4 $", '4', '$', 4, Finger::LeftIndex),
        key("5 %", '5', '%', 4, Finger::LeftIndex),
        key("6 &", '6', '&', 4, Finger::RightIndex),
        key("7 /", '7', '/', 4, Finger::RightIndex),
        key("8 (", '8', '(', 4, Finger::RightMiddle),
        key("9 )", '9', ')', 4, Finger::RightRing),
        key("0 =", '0', '=', 4, Finger::RightPinky),
        key("' ?", '\'', '?', 4, Finger::RightPinky),
        key("¡ ¿", '¡', '¿', 4, Finger::RightPinky),
        key("⌫", '\0', '\0', 8, Finger::RightPinky),
    ];
    assert(r@ =~= es_row0_keys());
    r
}

fn es_row2() -> (r: Vec<LayoutKey>)
    ensures
        r@ == es_row2_keys(),
{
    let r = vec![
        key("Caps", '\0', '\0', 7, Finger::LeftPinky),
        key("A", 'a', 'A', 4, Finger::LeftPinky),
        key("S", 's', 'S', 4, Finger::LeftRing),
        key("D", 'd', 'D', 4, Finger::LeftMiddle),
        key("F", 'f', 'F', 4, Finger::LeftIndex),
        key("G", 'g', 'G', 4, Finger::LeftIndex),
        key("H", 'h', 'H', 4, Finger::RightIndex),
        key("J", 'j', 'J', 4, Finger::RightIndex),
        key("K", 'k', 'K', 4, Finger::RightMiddle),
        key("L", 'l', 'L', 4, Finger::RightRing),
        key("Ñ", 'ñ', 'Ñ', 4, Finger::RightPinky),
        key("´ ¨", '´', '¨', 4, Finger::RightPinky),
        key("Enter", '\0', '\0', 9, Finger::RightPinky),
    ];
    assert(r@ =~= es_row2_keys());
    r
}

fn no_row0() -> (r: Vec<LayoutKey>)
    ensures
        r@ == no_row0_keys(),
{
    let r = vec![
        key("| §", '|', '§', 4, Finger::LeftPinky),
        key("1 !", '1', '!', 4, Finger::LeftPinky),
        key("2 \"", '2', '"', 4, Finger::LeftRing),
        key("3 #", '3', '#', 4, Finger::LeftMiddle),
        key("4 ¤", '4', '¤', 4, Finger::LeftIndex),
        key("5 %", '5', '%', 4, Finger::LeftIndex),
        key("6 &", '6', '&', 4, Finger::RightIndex),
        key("7 /", '7', '/', 4, Finger::RightIndex),
        key("8 (", '8', '(', 4, Finger::RightMiddle),
        key("9 )", '9', ')', 4, Finger::RightRing),
        key("0 =", '0', '=', 4, Finger::RightPinky),
        key("+ ?", '+', '?', 4, Finger::RightPinky),
        key("\\ `", '\\', '`', 4, Finger::RightPinky),
        key("⌫", '\0', '\0', 8, Finger::RightPinky),
    ];
    assert(r@ =~= no_row0_keys());
    r
}

fn no_row1() -> (r: Vec<LayoutKey>)
    ensures
        r@ == no_row1_keys(),
{
    let r = vec![
        key("Tab", '\0', '\0', 6, Finger::LeftPinky),
        key("Q", 'q', 'Q', 4, Finger::LeftPinky),
        key("W", 'w', 'W', 4, Finger::LeftRing),
        key("E", 'e', 'E', 4, Finger::LeftMiddle),
        key("R", 'r', 'R', 4, Finger::LeftIndex),
        key("T", 't', 'T', 4, Finger::LeftIndex),
        key("Y", 'y', 'Y', 4, Finger::RightIndex),
        key("U", 'u', 'U', 4, Finger::RightIndex),
        key("I", 'i', 'I', 4, Finger::RightMiddle),
        key("O", 'o', 'O', 4, Finger::RightRing),
        key("P", 'p', 'P', 4, Finger::RightPinky),
        key("Å", 'å', 'Å', 4, Finger::RightPinky),
        key("¨ ^", '¨', '^', 4, Finger::RightPinky),
        key("' *", '\'', '*', 6, Finger::RightPinky),
    ];
    assert(r@ =~= no_row1_keys());
    r
}

fn no_row2() -> (r: Vec<LayoutKey>)
    ensures
        r@ == no_row2_keys(),
{
    let r = vec![
        key("Caps", '\0', '\0', 7, Finger::LeftPinky),
        key("A", 'a', 'A', 4, Finger::LeftPinky),
        key("S", 's', 'S', 4, Finger::LeftRing),
        key("D", 'd', 'D', 4, Finger::LeftMiddle),
        key("F", 'f', 'F', 4, Finger::LeftIndex),
        key("G", 'g', 'G', 4, Finger::LeftIndex),
        key("H", 'h', 'H', 4, Finger::RightIndex),
        key("J", 'j', 'J', 4, Finger::RightIndex),
        key("K", 'k', 'K', 4, Finger::RightMiddle),
        key("L", 'l', 'L', 4, Finger::RightRing),
        key("Ø", 'ø', 'Ø', 4, Finger::RightPinky),
        key("Æ", 'æ', 'Æ', 4, Finger::RightPinky),
        key("Enter", '\0', '\0', 9, Finger::RightPinky),
    ];
    assert(r@ =~= no_row2_keys());
    r
}

fn no_row3() -> (r: Vec<LayoutKey>)
    ensures
        r@ == no_row3_keys(),
{
    let r = vec![
        key("Shift", '\0', '\0', 5, Finger::LeftPinky),
        key("< >", '<', '>', 4, Finger::LeftPinky),
        key("Z", 'z', 'Z', 4, Finger::LeftPinky),
        key("X", 'x', 'X', 4, Finger::LeftRing),
        key("C", 'c', 'C', 4, Finger::LeftMiddle),
        key("V", 'v', 'V', 4, Finger::LeftIndex),
        key("B", 'b', 'B', 4, Finger::LeftIndex),
        key("N", 'n', 'N', 4, Finger::RightIndex),
        key("M", 'm', 'M', 4, Finger::RightIndex),
        key(", ;", ',', ';', 4, Finger::RightMiddle),
        key(". :", '.', ':', 4, Finger::RightRing),
        key("- _", '-', '_', 4, Finger::RightPinky),
        key("Shift", '\0', '\0', 11, Finger::RightPinky),
    ];
    assert(r@ =~= no_row3_keys());
    r
}

/// The rows of keys of a layout.
pub open spec fn layout_rows(id: LayoutId) -> Seq<Seq<LayoutKey>> {
    match id {
        LayoutId::Us => seq![us_row0_keys(), us_row1_keys(), us_row2_keys(), us_row3_keys(), us_row4_keys()],
        LayoutId::Uk => seq![uk_row0_keys(), us_row1_keys(), uk_row2_keys(), us_row3_keys(), us_row4_keys()],
        LayoutId::Fr => seq![fr_row0_keys(), fr_row1_keys(), fr_row2_keys(), fr_row3_keys(), us_row4_keys()],
        LayoutId::De => seq![de_row0_keys(), de_row1_keys(), de_row2_keys(), de_row3_keys(), us_row4_keys()],
        LayoutId::Es => seq![es_row0_keys(), us_row1_keys(), es_row2_keys(), us_row3_keys(), us_row4_keys()],
        LayoutId::No => seq![no_row0_keys(), no_row1_keys(), no_row2_keys(), no_row3_keys(), us_row4_keys()],
    }
}

fn rows_of(id: LayoutId) -> (rows: Vec<Vec<LayoutKey>>)
    ensures
        rows@.map_values(|r: Vec<LayoutKey>| r@) == layout_rows(id),
{
    let rows = match id {
        LayoutId::Us => vec![us_row0(), us_row1(), us_row2(), us_row3(), us_row4()],
        LayoutId::Uk => vec![uk_row0(), us_row1(), uk_row2(), us_row3(), us_row4()],
        LayoutId::Fr => vec![fr_row0(), fr_row1(), fr_row2(), fr_row3(), us_row4()],
        LayoutId::De => vec![de_row0(), de_row1(), de_row2(), de_row3(), us_row4()],
        LayoutId::Es => vec![es_row0(), us_row1(), es_row2(), us_row3(), us_row4()],
        LayoutId::No => vec![no_row0(), no_row1(), no_row2(), no_row3(), us_row4()],
    };
    assert(rows@.map_values(|r: Vec<LayoutKey>| r@) =~= layout_rows(id));
    rows
}

/// The layout `id`.
pub fn layout(id: LayoutId) -> (l: KeyboardLayout)
    ensures
        l.name@ == layout_name(id),
        l.klid@ == klid_of(id),
        l.rows_view() == layout_rows(id),
{
    KeyboardLayout { name: layout_name_of(id), klid: klid_text(id), rows: rows_of(id) }
}

/// US English (QWERTY), the fallback layout.
pub fn us() -> (l: KeyboardLayout)
    ensures
        l.name@ == layout_name(LayoutId::Us),
        l.klid@ == klid_of(LayoutId::Us),
        l.rows_view() == layout_rows(LayoutId::Us),
{
    layout(LayoutId::Us)
}

/// UK English (QWERTY).
pub fn uk() -> (l: KeyboardLayout)
    ensures
        l.name@ == layout_name(LayoutId::Uk),
        l.klid@ == klid_of(LayoutId::Uk),
        l.rows_view() == layout_rows(LayoutId::Uk),
{
    layout(LayoutId::Uk)
}

/// French (AZERTY).
pub fn fr() -> (l: KeyboardLayout)
    ensures
        l.name@ == layout_name(LayoutId::Fr),
        l.klid@ == klid_of(LayoutId::Fr),
        l.rows_view() == layout_rows(LayoutId::Fr),
{
    layout(LayoutId::Fr)
}

/// German (QWERTZ).
pub fn de() -> (l: KeyboardLayout)
    ensures
        l.name@ == layout_name(LayoutId::De),
        l.klid@ == klid_of(LayoutId::De),
        l.rows_view() == layout_rows(LayoutId::De),
{
    layout(LayoutId::De)
}

/// Spanish (QWERTY).
pub fn es() -> (l: KeyboardLayout)
    ensures
        l.name@ == layout_name(LayoutId::Es),
        l.klid@ == klid_of(LayoutId::Es),
        l.rows_view() == layout_rows(LayoutId::Es),
{
    layout(LayoutId::Es)
}

/// Norwegian (QWERTY).
pub fn no() -> (l: KeyboardLayout)
    ensures
        l.name@ == layout_name(LayoutId::No),
        l.klid@ == klid_of(LayoutId::No),
        l.rows_view() == layout_rows(LayoutId::No),
{
    layout(LayoutId::No)
}

// ---------------------------------------------------------------------------
//  Picking a layout from a KLID
// ---------------------------------------------------------------------------

/// `b` with `A`..=`Z` turned into `a`..=`z`.
pub open spec fn lower_byte(b: u8) -> u8 {
    if 65 <= b <= 90 {
        (b + 32) as u8
    } else {
        b
    }
}

/// `b` with `a`..=`z` turned into `A`..=`Z`.
pub open spec fn upper_byte(b: u8) -> u8 {
    if 97 <= b <= 122 {
        (b - 32) as u8
    } else {
        b
    }
}

/// `s` with ASCII letters in lower case, as `to_ascii_lowercase` gives it.
pub open spec fn lower_bytes(s: Seq<u8>) -> Seq<u8> {
    s.map_values(|b: u8| lower_byte(b))
}

/// `s` with ASCII letters in upper case, as `to_ascii_uppercase` gives it.
pub open spec fn upper_bytes(s: Seq<u8>) -> Seq<u8> {
    s.map_values(|b: u8| upper_byte(b))
}

/// The bytes of an ASCII text.
pub open spec fn ascii_bytes(s: Seq<char>) -> Seq<u8> {
    s.map_values(|c: char| c as u8)
}

/// Whether `a` and `b` are equal once ASCII letters are put in one case.
pub open spec fn eq_ignore_ascii_case(a: Seq<u8>, b: Seq<u8>) -> bool {
    lower_bytes(a) == lower_bytes(b)
}

/// Whether `s` ends with `suffix`.
pub open spec fn ends_with(s: Seq<u8>, suffix: Seq<u8>) -> bool {
    suffix.len() <= s.len() && s.subrange(s.len() - suffix.len(), s.len() as int) == suffix
}

/// The KLID `k` names layout `id`, letter case aside.
pub open spec fn is_exact_klid(k: Seq<u8>, id: LayoutId) -> bool {
    eq_ignore_ascii_case(k, ascii_bytes(klid_of(id)))
}

/// The KLID of `id` ends with the four bytes `tail`, in upper or in lower case.
pub open spec fn klid_ends_with_tail(tail: Seq<u8>, id: LayoutId) -> bool {
    ends_with(ascii_bytes(klid_of(id)), upper_bytes(tail)) || ends_with(
        ascii_bytes(klid_of(id)),
        lower_bytes(tail),
    )
}

/// The first layout, in the order US, UK, French, German, Spanish, Norwegian,
/// for which `p` holds.
pub open spec fn first_layout(p: spec_fn(LayoutId) -> bool) -> Option<LayoutId> {
    if p(LayoutId::Us) {
        Some(LayoutId::Us)
    } else if p(LayoutId::Uk) {
        Some(LayoutId::Uk)
    } else if p(LayoutId::Fr) {
        Some(LayoutId::Fr)
    } else if p(LayoutId::De) {
        Some(LayoutId::De)
    } else if p(LayoutId::Es) {
        Some(LayoutId::Es)
    } else if p(LayoutId::No) {
        Some(LayoutId::No)
    } else {
        None
    }
}

/// The layout of a language family, from the last four hex digits of a KLID
/// (its primary language id), in lower case.
pub open spec fn language_family(t: Seq<u8>) -> Option<LayoutId> {
    if t == ascii_bytes("040c"@) || t == ascii_bytes("080c"@) || t == ascii_bytes("0c0c"@) || t
        == ascii_bytes("100c"@) || t == ascii_bytes("140c"@) {
        Some(LayoutId::Fr)
    } else if t == ascii_bytes("0407"@) || t == ascii_bytes("0807"@) || t == ascii_bytes("0c07"@)
        || t == ascii_bytes("1007"@) || t == ascii_bytes("1407"@) {
        Some(LayoutId::De)
    } else if t == ascii_bytes("040a"@) || t == ascii_bytes("080a"@) || t == ascii_bytes("0c0a"@)
        || t == ascii_bytes("100a"@) {
        Some(LayoutId::Es)
    } else if t == ascii_bytes("0409"@) || t == ascii_bytes("0809"@) || t == ascii_bytes("0c09"@)
        || t == ascii_bytes("1009"@) {
        Some(LayoutId::Us)
    } else if t == ascii_bytes("0414"@) || t == ascii_bytes("0814"@) {
        Some(LayoutId::No)
    } else {
        None
    }
}

/// The layout for the KLID whose bytes are `k`: the first layout whose KLID
/// equals it, letter case aside; otherwise, for a KLID of at least four
/// bytes, the first layout whose KLID ends with its last four bytes (in upper
/// or lower case), then the layout of its language family; otherwise US.
pub open spec fn layout_id_for_klid(k: Seq<u8>) -> LayoutId {
    match first_layout(|id: LayoutId| is_exact_klid(k, id)) {
        Some(id) => id,
        None => if k.len() >= 4 {
            let tail = k.subrange(k.len() - 4, k.len() as int);
            match first_layout(|id: LayoutId| klid_ends_with_tail(tail, id)) {
                Some(id) => id,
                None => match language_family(lower_bytes(tail)) {
                    Some(id) => id,
                    None => LayoutId::Us,
                },
            }
        } else {
            LayoutId::Us
        },
    }
}

/// Whether a KLID can be cut for its language id: its last four bytes must
/// start on a character boundary.
pub open spec fn klid_tail_sliceable(k: Seq<u8>) -> bool {
    k.len() >= 4 ==> vstd::utf8::is_char_boundary(k, k.len() - 4)
}

fn lower_byte_of(b: u8) -> (r: u8)
    ensures
        r == lower_byte(b),
{
    if 65 <= b && b <= 90 {
        b + 32
    } else {
        b
    }
}

fn upper_byte_of(b: u8) -> (r: u8)
    ensures
        r == upper_byte(b),
{
    if 97 <= b && b <= 122 {
        b - 32
    } else {
        b
    }
}

/// `s[from..to]` with ASCII letters in lower (`upper == false`) or upper case.
fn case_mapped(s: &[u8], from: usize, to: usize, upper: bool) -> (r: Vec<u8>)
    requires
        from <= to <= s@.len(),
    ensures
        r@ == (if upper {
            upper_bytes(s@.subrange(from as int, to as int))
        } else {
            lower_bytes(s@.subrange(from as int, to as int))
        }),
{
    let mut r: Vec<u8> = Vec::new();
    let mut i = from;
    while i < to
        invariant
            from <= i <= to <= s@.len(),
            r@ == (if upper {
                upper_bytes(s@.subrange(from as int, i as int))
            } else {
                lower_bytes(s@.subrange(from as int, i as int))
            }),
        decreases to - i,
    {
        let b = if upper {
            upper_byte_of(s[i])
        } else {
            lower_byte_of(s[i])
        };
        r.push(b);
        i += 1;
        assert(r@ =~= (if upper {
            upper_bytes(s@.subrange(from as int, i as int))
        } else {
            lower_bytes(s@.subrange(from as int, i as int))
        }));
    }
    r
}

/// The bytes of the ASCII text `s`.
fn ascii_bytes_of(s: &str) -> (r: Vec<u8>)
    ensures
        r@ == ascii_bytes(s@),
{
    let v = chars_of(s);
    let mut r: Vec<u8> = Vec::new();
    let mut i: usize = 0;
    while i < v.len()
        invariant
            v@ == s@,
            i <= v@.len(),
            r@ == ascii_bytes(v@.subrange(0, i as int)),
        decreases v@.len() - i,
    {
        r.push(v[i] as u8);
        i += 1;
        assert(r@ =~= ascii_bytes(v@.subrange(0, i as int)));
    }
    assert(v@.subrange(0, v@.len() as int) =~= v@);
    r
}

fn bytes_equal(a: &Vec<u8>, b: &Vec<u8>) -> (r: bool)
    ensures
        r == (a@ == b@),
{
    if a.len() != b.len() {
        return false;
    }
    let mut i: usize = 0;
    while i < a.len()
        invariant
            a@.len() == b@.len(),
            i <= a@.len(),
            forall|j: int| 0 <= j < i ==> a@[j] == b@[j],
        decreases a@.len() - i,
    {
        if a[i] != b[i] {
            return false;
        }
        i += 1;
    }
    assert(a@ =~= b@);
    true
}

fn ends_with_bytes(s: &Vec<u8>, suffix: &Vec<u8>) -> (r: bool)
    ensures
        r == ends_with(s@, suffix@),
{
    if suffix.len() > s.len() {
        return false;
    }
    let tail = case_mapped_identity(s, s.len() - suffix.len(), s.len());
    bytes_equal(&tail, suffix)
}

/// A copy of `s[from..to]`.
fn case_mapped_identity(s: &Vec<u8>, from: usize, to: usize) -> (r: Vec<u8>)
    requires
        from <= to <= s@.len(),
    ensures
        r@ == s@.subrange(from as int, to as int),
{
    let mut r: Vec<u8> = Vec::new();
    let mut i = from;
    while i < to
        invariant
            from <= i <= to <= s@.len(),
            r@ == s@.subrange(from as int, i as int),
        decreases to - i,
    {
        r.push(s[i]);
        i += 1;
        assert(r@ =~= s@.subrange(from as int, i as int));
    }
    r
}

fn klid_exact(k: &[u8], id: LayoutId) -> (r: bool)
    ensures
        r == is_exact_klid(k@, id),
{
    let a = case_mapped(k, 0, k.len(), false);
    let kb = ascii_bytes_of(klid_text(id));
    let b = case_mapped(kb.as_slice(), 0, kb.len(), false);
    assert(k@.subrange(0, k@.len() as int) =~= k@);
    assert(kb@.subrange(0, kb@.len() as int) =~= kb@);
    bytes_equal(&a, &b)
}

fn klid_tail_match(upper_tail: &Vec<u8>, lower_tail: &Vec<u8>, tail: Ghost<Seq<u8>>, id: LayoutId) -> (r: bool)
    requires
        upper_tail@ == upper_bytes(tail@),
        lower_tail@ == lower_bytes(tail@),
    ensures
        r == klid_ends_with_tail(tail@, id),
{
    let kb = ascii_bytes_of(klid_text(id));
    ends_with_bytes(&kb, upper_tail) || ends_with_bytes(&kb, lower_tail)
}

fn is_word(t: &Vec<u8>, w: &str) -> (r: bool)
    ensures
        r == (t@ == ascii_bytes(w@)),
{
    let wb = ascii_bytes_of(w);
    bytes_equal(t, &wb)
}

fn family_of(t: &Vec<u8>) -> (r: Option<LayoutId>)
    ensures
        r == language_family(t@),
{
    if is_word(t, "040c") || is_word(t, "080c") || is_word(t, "0c0c") || is_word(t, "100c")
        || is_word(t, "140c") {
        Some(LayoutId::Fr)
    } else if is_word(t, "0407") || is_word(t, "0807") || is_word(t, "0c07") || is_word(t, "1007")
        || is_word(t, "1407") {
        Some(LayoutId::De)
    } else if is_word(t, "040a") || is_word(t, "080a") || is_word(t, "0c0a") || is_word(
        t,
        "100a",
    ) {
        Some(LayoutId::Es)
    } else if is_word(t, "0409") || is_word(t, "0809") || is_word(t, "0c09") || is_word(
        t,
        "1009",
    ) {
        Some(LayoutId::Us)
    } else if is_word(t, "0414") || is_word(t, "0814") {
        Some(LayoutId::No)
    } else {
        None
    }
}

/// The first layout whose KLID equals `k`, letter case aside.
fn first_exact(k: &[u8]) -> (r: Option<LayoutId>)
    ensures
        r == first_layout(|id: LayoutId| is_exact_klid(k@, id)),
{
    if klid_exact(k, LayoutId::Us) {
        Some(LayoutId::Us)
    } else if klid_exact(k, LayoutId::Uk) {
        Some(LayoutId::Uk)
    } else if klid_exact(k, LayoutId::Fr) {
        Some(LayoutId::Fr)
    } else if klid_exact(k, LayoutId::De) {
        Some(LayoutId::De)
    } else if klid_exact(k, LayoutId::Es) {
        Some(LayoutId::Es)
    } else if klid_exact(k, LayoutId::No) {
        Some(LayoutId::No)
    } else {
        None
    }
}

/// Which layout a Windows KLID (or one whose language id alone is known)
/// stands for; US when it is unknown.
pub fn layout_id_for(klid: &str) -> (id: LayoutId)
    requires
        klid_tail_sliceable(klid.spec_bytes()),
    ensures
        id == layout_id_for_klid(klid.spec_bytes()),
{
    let k = klid.as_bytes();
    if let Some(id) = first_exact(k) {
        return id;
    }
    let n = k.len();
    if n >= 4 {
        let ghost tail = k@.subrange(n - 4, n as int);
        let up = case_mapped(k, n - 4, n, true);
        let low = case_mapped(k, n - 4, n, false);
        let found = if klid_tail_match(&up, &low, Ghost(tail), LayoutId::Us) {
            Some(LayoutId::Us)
        } else if klid_tail_match(&up, &low, Ghost(tail), LayoutId::Uk) {
            Some(LayoutId::Uk)
        } else if klid_tail_match(&up, &low, Ghost(tail), LayoutId::Fr) {
            Some(LayoutId::Fr)
        } else if klid_tail_match(&up, &low, Ghost(tail), LayoutId::De) {
            Some(LayoutId::De)
        } else if klid_tail_match(&up, &low, Ghost(tail), LayoutId::Es) {
            Some(LayoutId::Es)
        } else if klid_tail_match(&up, &low, Ghost(tail), LayoutId::No) {
            Some(LayoutId::No)
        } else {
            None
        };
        assert(found == first_layout(|id: LayoutId| klid_ends_with_tail(tail, id)));
        if let Some(id) = found {
            return id;
        }
        if let Some(id) = family_of(&low) {
            return id;
        }
    }
    LayoutId::Us
}

/// The layout for a Windows KLID (or one whose language id alone is known),
/// falling back to US when it is unknown.
pub fn layout_for_klid(klid: &str) -> (l: KeyboardLayout)
    requires
        klid_tail_sliceable(klid.spec_bytes()),
    ensures
        l.name@ == layout_name(layout_id_for_klid(klid.spec_bytes())),
        l.klid@ == klid_of(layout_id_for_klid(klid.spec_bytes())),
        l.rows_view() == layout_rows(layout_id_for_klid(klid.spec_bytes())),
{
    layout(layout_id_for(klid))
}

/// The outcome of looking for the user's keyboard layout.
pub struct Detected {
    /// The layout to draw and to look fingers up in.
    pub layout: KeyboardLayout,
    /// The KLID the system reported, if it reported one.
    pub detected_klid: Option<String>,
    /// Whether that KLID named a known layout exactly (letter case aside).
    pub is_exact_match: bool,
}

/// The layout for the KLID the system reported (if it reported one): the one
/// `layout_for_klid` picks, and whether the KLID named it exactly. With no
/// KLID, US, and no exact match.
pub fn detect_from_klid(klid: Option<String>) -> (d: Detected)
    requires
        klid matches Some(k) ==> klid_tail_sliceable(vstd::utf8::encode_utf8(k@)),
    ensures
        d.detected_klid == klid,
        match klid {
            Some(k) => {
                &&& d.layout.klid@ == klid_of(layout_id_for_klid(vstd::utf8::encode_utf8(k@)))
                &&& d.layout.name@ == layout_name(layout_id_for_klid(vstd::utf8::encode_utf8(k@)))
                &&& d.layout.rows_view() == layout_rows(layout_id_for_klid(vstd::utf8::encode_utf8(k@)))
                &&& d.is_exact_match == (first_layout(
                    |id: LayoutId| is_exact_klid(vstd::utf8::encode_utf8(k@), id),
                ) is Some)
            },
            None => {
                &&& d.layout.klid@ == klid_of(LayoutId::Us)
                &&& d.layout.name@ == layout_name(LayoutId::Us)
                &&& d.layout.rows_view() == layout_rows(LayoutId::Us)
                &&& !d.is_exact_match
            },
        },
{
    match klid {
        Some(k) => {
            let id = layout_id_for(k.as_str());
            let exact = first_exact(k.as_str().as_bytes()).is_some();
            Detected { layout: layout(id), detected_klid: Some(k), is_exact_match: exact }
        },
        None => Detected { layout: us(), detected_klid: None, is_exact_match: false },
    }
}


/// The lower-case bytes of the KLID of `id`, position by position.
proof fn lemma_klid_lower_bytes(id: LayoutId)
    ensures
        lower_bytes(ascii_bytes(klid_of(id))) == lower_bytes(lower_bytes(ascii_bytes(klid_of(id)))),
        lower_bytes(ascii_bytes(klid_of(id))).len() == 8,
        lower_bytes(ascii_bytes(klid_of(id)))[5] == (if id == LayoutId::Uk { 56u8 } else { 52u8 }),
        lower_bytes(ascii_bytes(klid_of(id)))[6] == (if id == LayoutId::No { 49u8 } else { 48u8 }),
        lower_bytes(ascii_bytes(klid_of(id)))[7] == match id {
            LayoutId::Us => 57u8,
            LayoutId::Uk => 57u8,
            LayoutId::Fr => 99u8,
            LayoutId::De => 55u8,
            LayoutId::Es => 97u8,
            LayoutId::No => 52u8,
        },
{
    reveal_strlit("00000409");
    reveal_strlit("00000809");
    reveal_strlit("0000040C");
    reveal_strlit("00000407");
    reveal_strlit("0000040A");
    reveal_strlit("00000414");
    let k = lower_bytes(ascii_bytes(klid_of(id)));
    assert(lower_bytes(k) =~= k);
}

/// Each layout's own KLID, in upper or in lower case, selects that layout.
pub proof fn law_klid_names_its_layout(id: LayoutId)
    ensures
        layout_id_for_klid(ascii_bytes(klid_of(id))) == id,
        layout_id_for_klid(lower_bytes(ascii_bytes(klid_of(id)))) == id,
{
    lemma_klid_lower_bytes(LayoutId::Us);
    lemma_klid_lower_bytes(LayoutId::Uk);
    lemma_klid_lower_bytes(LayoutId::Fr);
    lemma_klid_lower_bytes(LayoutId::De);
    lemma_klid_lower_bytes(LayoutId::Es);
    lemma_klid_lower_bytes(LayoutId::No);
    let k = ascii_bytes(klid_of(id));
    assert(is_exact_klid(k, id));
    assert(is_exact_klid(lower_bytes(k), id));
    assert forall|j: LayoutId| j != id implies !is_exact_klid(k, j) && !is_exact_klid(
        lower_bytes(k),
        j,
    ) by {
        let a = lower_bytes(k);
        let b = lower_bytes(ascii_bytes(klid_of(j)));
        assert(a[5] != b[5] || a[6] != b[6] || a[7] != b[7]);
    }
}

/// The top bar's text for a detection outcome: the layout's name, then the
/// KLID it came from, or that none could be read; a KLID that named no layout
/// exactly is marked as a fallback.
pub fn layout_label(d: &Detected) -> (s: String)
    ensures
        s@ == match d.detected_klid {
            None => d.layout.name@ + "  (default \u{2014} detection unavailable)"@,
            Some(k) => if d.is_exact_match {
                d.layout.name@ + "  (KLID "@ + k@ + ")"@
            } else {
                d.layout.name@ + "  (KLID "@ + k@ + " \u{2014} using fallback)"@
            },
        },
{
    let mut s = String::from_str(d.layout.name);
    match &d.detected_klid {
        None => {
            s.append("  (default \u{2014} detection unavailable)");
        },
        Some(k) => {
            s.append("  (KLID ");
            s.append(k.as_str());
            if d.is_exact_match {
                s.append(")");
            } else {
                s.append(" \u{2014} using fallback)");
            }
        },
    }
    s
}

} // verus!

verus! {

// ---------------------------------------------------------------------------
//  Letters and the touch-typing columns
// ---------------------------------------------------------------------------

/// Whether `c` is an ASCII letter.
pub open spec fn is_ascii_letter(c: char) -> bool {
    ('a' <= c && c <= 'z') || ('A' <= c && c <= 'Z')
}

/// The letter in lower case.
pub open spec fn lower_letter(c: char) -> char {
    if 'A' <= c && c <= 'Z' {
        ((c as u32) + 32) as char
    } else {
        c
    }
}

/// The finger that types a letter, in either case, by the touch-typing
/// method: the left pinky, ring and middle fingers each keep one column, the
/// left index two, the right index two, then the right middle, ring and
/// pinky. On QWERTY layouts the columns hold q a z, w s x, e d c, r f v,
/// t g b, y h n, u j m, i k, o l and p; AZERTY has a q w in the first
/// column, z s x in the second and m at the end of the home row; QWERTZ
/// swaps y and z.
pub open spec fn touch_finger(id: LayoutId, c: char) -> Finger {
    let l = lower_letter(c);
    let fr = id == LayoutId::Fr;
    let de = id == LayoutId::De;
    if l == 'q' || l == 'a' || (l == 'z' && !fr && !de) || (l == 'w' && fr) || (l == 'y' && de) {
        Finger::LeftPinky
    } else if (l == 'w' && !fr) || l == 's' || l == 'x' || (l == 'z' && fr) {
        Finger::LeftRing
    } else if l == 'e' || l == 'd' || l == 'c' {
        Finger::LeftMiddle
    } else if l == 'r' || l == 'f' || l == 'v' || l == 't' || l == 'g' || l == 'b' {
        Finger::LeftIndex
    } else if (l == 'y' && !de) || (l == 'z' && de) || l == 'h' || l == 'n' || l == 'u' || l
        == 'j' || (l == 'm' && !fr) {
        Finger::RightIndex
    } else if l == 'i' || l == 'k' {
        Finger::RightMiddle
    } else if l == 'o' || l == 'l' {
        Finger::RightRing
    } else {
        Finger::RightPinky
    }
}

/// Every key of `row` that types a letter is pressed with that letter's
/// touch-typing finger.
pub open spec fn row_follows_columns(id: LayoutId, row: Seq<LayoutKey>) -> bool {
    forall|i: int, c: char|
        0 <= i < row.len() && is_ascii_letter(c) && #[trigger] key_types(row[i], c) ==> row[i].finger
            == touch_finger(id, c)
}

proof fn lemma_rows_follow_columns(id: LayoutId)
    ensures
        forall|r: int| 0 <= r < layout_rows(id).len() ==> row_follows_columns(id, #[trigger] layout_rows(id)[r]),
{
    if id == LayoutId::Us {
        assert(row_follows_columns(id, us_row0_keys()));
        assert(row_follows_columns(id, us_row1_keys()));
        assert(row_follows_columns(id, us_row2_keys()));
        assert(row_follows_columns(id, us_row3_keys()));
        assert(row_follows_columns(id, us_row4_keys()));
    }
    if id == LayoutId::Uk {
        assert(row_follows_columns(id, uk_row0_keys()));
        assert(row_follows_columns(id, us_row1_keys()));
        assert(row_follows_columns(id, uk_row2_keys()));
        assert(row_follows_columns(id, us_row3_keys()));
        assert(row_follows_columns(id, us_row4_keys()));
    }
    if id == LayoutId::Fr {
        assert(row_follows_columns(id, fr_row0_keys()));
        assert(row_follows_columns(id, fr_row1_keys()));
        assert(row_follows_columns(id, fr_row2_keys()));
        assert(row_follows_columns(id, fr_row3_keys()));
        assert(row_follows_columns(id, us_row4_keys()));
    }
    if id == LayoutId::De {
        assert(row_follows_columns(id, de_row0_keys()));
        assert(row_follows_columns(id, de_row1_keys()));
        assert(row_follows_columns(id, de_row2_keys()));
        assert(row_follows_columns(id, de_row3_keys()));
        assert(row_follows_columns(id, us_row4_keys()));
    }
    if id == LayoutId::Es {
        assert(row_follows_columns(id, es_row0_keys()));
        assert(row_follows_columns(id, us_row1_keys()));
        assert(row_follows_columns(id, es_row2_keys()));
        assert(row_follows_columns(id, us_row3_keys()));
        assert(row_follows_columns(id, us_row4_keys()));
    }
    if id == LayoutId::No {
        assert(row_follows_columns(id, no_row0_keys()));
        assert(row_follows_columns(id, no_row1_keys()));
        assert(row_follows_columns(id, no_row2_keys()));
        assert(row_follows_columns(id, no_row3_keys()));
        assert(row_follows_columns(id, us_row4_keys()));
    }
}

/// A key of the layout that types the letter `c`, as (row, position).
proof fn lemma_letter_has_key(id: LayoutId, c: char) -> (ri: (int, int))
    requires
        is_ascii_letter(c),
    ensures
        0 <= ri.0 < layout_rows(id).len(),
        0 <= ri.1 < layout_rows(id)[ri.0].len(),
        key_types(layout_rows(id)[ri.0][ri.1], c),
{
    if id == LayoutId::Us {
        if c == 'a' { (2, 1)
        } else if c == 'b' { (3, 5)
        } else if c == 'c' { (3, 3)
        } else if c == 'd' { (2, 3)
        } else if c == 'e' { (1, 3)
        } else if c == 'f' { (2, 4)
        } else if c == 'g' { (2, 5)
        } else if c == 'h' { (2, 6)
        } else if c == 'i' { (1, 8)
        } else if c == 'j' { (2, 7)
        } else if c == 'k' { (2, 8)
        } else if c == 'l' { (2, 9)
        } else if c == 'm' { (3, 7)
        } else if c == 'n' { (3, 6)
        } else if c == 'o' { (1, 9)
        } else if c == 'p' { (1, 10)
        } else if c == 'q' { (1, 1)
        } else if c == 'r' { (1, 4)
        } else if c == 's' { (2, 2)
        } else if c == 't' { (1, 5)
        } else if c == 'u' { (1, 7)
        } else if c == 'v' { (3, 4)
        } else if c == 'w' { (1, 2)
        } else if c == 'x' { (3, 2)
        } else if c == 'y' { (1, 6)
        } else if c == 'z' { (3, 1)
        } else if c == 'A' { (2, 1)
        } else if c == 'B' { (3, 5)
        } else if c == 'C' { (3, 3)
        } else if c == 'D' { (2, 3)
        } else if c == 'E' { (1, 3)
        } else if c == 'F' { (2, 4)
        } else if c == 'G' { (2, 5)
        } else if c == 'H' { (2, 6)
        } else if c == 'I' { (1, 8)
        } else if c == 'J' { (2, 7)
        } else if c == 'K' { (2, 8)
        } else if c == 'L' { (2, 9)
        } else if c == 'M' { (3, 7)
        } else if c == 'N' { (3, 6)
        } else if c == 'O' { (1, 9)
        } else if c == 'P' { (1, 10)
        } else if c == 'Q' { (1, 1)
        } else if c == 'R' { (1, 4)
        } else if c == 'S' { (2, 2)
        } else if c == 'T' { (1, 5)
        } else if c == 'U' { (1, 7)
        } else if c == 'V' { (3, 4)
        } else if c == 'W' { (1, 2)
        } else if c == 'X' { (3, 2)
        } else if c == 'Y' { (1, 6)
        } else if c == 'Z' { (3, 1)
        } else {
            assert(false);
            (0, 0)
        }
    } else if id == LayoutId::Uk {
        if c == 'a' { (2, 1)
        } else if c == 'b' { (3, 5)
        } else if c == 'c' { (3, 3)
        } else if c == 'd' { (2, 3)
        } else if c == 'e' { (1, 3)
        } else if c == 'f' { (2, 4)
        } else if c == 'g' { (2, 5)
        } else if c == 'h' { (2, 6)
        } else if c == 'i' { (1, 8)
        } else if c == 'j' { (2, 7)
        } else if c == 'k' { (2, 8)
        } else if c == 'l' { (2, 9)
        } else if c == 'm' { (3, 7)
        } else if c == 'n' { (3, 6)
        } else if c == 'o' { (1, 9)
        } else if c == 'p' { (1, 10)
        } else if c == 'q' { (1, 1)
        } else if c == 'r' { (1, 4)
        } else if c == 's' { (2, 2)
        } else if c == 't' { (1, 5)
        } else if c == 'u' { (1, 7)
        } else if c == 'v' { (3, 4)
        } else if c == 'w' { (1, 2)
        } else if c == 'x' { (3, 2)
        } else if c == 'y' { (1, 6)
        } else if c == 'z' { (3, 1)
        } else if c == 'A' { (2, 1)
        } else if c == 'B' { (3, 5)
        } else if c == 'C' { (3, 3)
        } else if c == 'D' { (2, 3)
        } else if c == 'E' { (1, 3)
        } else if c == 'F' { (2, 4)
        } else if c == 'G' { (2, 5)
        } else if c == 'H' { (2, 6)
        } else if c == 'I' { (1, 8)
        } else if c == 'J' { (2, 7)
        } else if c == 'K' { (2, 8)
        } else if c == 'L' { (2, 9)
        } else if c == 'M' { (3, 7)
        } else if c == 'N' { (3, 6)
        } else if c == 'O' { (1, 9)
        } else if c == 'P' { (1, 10)
        } else if c == 'Q' { (1, 1)
        } else if c == 'R' { (1, 4)
        } else if c == 'S' { (2, 2)
        } else if c == 'T' { (1, 5)
        } else if c == 'U' { (1, 7)
        } else if c == 'V' { (3, 4)
        } else if c == 'W' { (1, 2)
        } else if c == 'X' { (3, 2)
        } else if c == 'Y' { (1, 6)
        } else if c == 'Z' { (3, 1)
        } else {
            assert(false);
            (0, 0)
        }
    } else if id == LayoutId::Fr {
        if c == 'a' { (1, 1)
        } else if c == 'b' { (3, 5)
        } else if c == 'c' { (3, 3)
        } else if c == 'd' { (2, 3)
        } else if c == 'e' { (1, 3)
        } else if c == 'f' { (2, 4)
        } else if c == 'g' { (2, 5)
        } else if c == 'h' { (2, 6)
        } else if c == 'i' { (1, 8)
        } else if c == 'j' { (2, 7)
        } else if c == 'k' { (2, 8)
        } else if c == 'l' { (2, 9)
        } else if c == 'm' { (2, 10)
        } else if c == 'n' { (3, 6)
        } else if c == 'o' { (1, 9)
        } else if c == 'p' { (1, 10)
        } else if c == 'q' { (2, 1)
        } else if c == 'r' { (1, 4)
        } else if c == 's' { (2, 2)
        } else if c == 't' { (1, 5)
        } else if c == 'u' { (1, 7)
        } else if c == 'v' { (3, 4)
        } else if c == 'w' { (3, 1)
        } else if c == 'x' { (3, 2)
        } else if c == 'y' { (1, 6)
        } else if c == 'z' { (1, 2)
        } else if c == 'A' { (1, 1)
        } else if c == 'B' { (3, 5)
        } else if c == 'C' { (3, 3)
        } else if c == 'D' { (2, 3)
        } else if c == 'E' { (1, 3)
        } else if c == 'F' { (2, 4)
        } else if c == 'G' { (2, 5)
        } else if c == 'H' { (2, 6)
        } else if c == 'I' { (1, 8)
        } else if c == 'J' { (2, 7)
        } else if c == 'K' { (2, 8)
        } else if c == 'L' { (2, 9)
        } else if c == 'M' { (2, 10)
        } else if c == 'N' { (3, 6)
        } else if c == 'O' { (1, 9)
        } else if c == 'P' { (1, 10)
        } else if c == 'Q' { (2, 1)
        } else if c == 'R' { (1, 4)
        } else if c == 'S' { (2, 2)
        } else if c == 'T' { (1, 5)
        } else if c == 'U' { (1, 7)
        } else if c == 'V' { (3, 4)
        } else if c == 'W' { (3, 1)
        } else if c == 'X' { (3, 2)
        } else if c == 'Y' { (1, 6)
        } else if c == 'Z' { (1, 2)
        } else {
            assert(false);
            (0, 0)
        }
    } else if id == LayoutId::De {
        if c == 'a' { (2, 1)
        } else if c == 'b' { (3, 5)
        } else if c == 'c' { (3, 3)
        } else if c == 'd' { (2, 3)
        } else if c == 'e' { (1, 3)
        } else if c == 'f' { (2, 4)
        } else if c == 'g' { (2, 5)
        } else if c == 'h' { (2, 6)
        } else if c == 'i' { (1, 8)
        } else if c == 'j' { (2, 7)
        } else if c == 'k' { (2, 8)
        } else if c == 'l' { (2, 9)
        } else if c == 'm' { (3, 7)
        } else if c == 'n' { (3, 6)
        } else if c == 'o' { (1, 9)
        } else if c == 'p' { (1, 10)
        } else if c == 'q' { (1, 1)
        } else if c == 'r' { (1, 4)
        } else if c == 's' { (2, 2)
        } else if c == 't' { (1, 5)
        } else if c == 'u' { (1, 7)
        } else if c == 'v' { (3, 4)
        } else if c == 'w' { (1, 2)
        } else if c == 'x' { (3, 2)
        } else if c == 'y' { (3, 1)
        } else if c == 'z' { (1, 6)
        } else if c == 'A' { (2, 1)
        } else if c == 'B' { (3, 5)
        } else if c == 'C' { (3, 3)
        } else if c == 'D' { (2, 3)
        } else if c == 'E' { (1, 3)
        } else if c == 'F' { (2, 4)
        } else if c == 'G' { (2, 5)
        } else if c == 'H' { (2, 6)
        } else if c == 'I' { (1, 8)
        } else if c == 'J' { (2, 7)
        } else if c == 'K' { (2, 8)
        } else if c == 'L' { (2, 9)
        } else if c == 'M' { (3, 7)
        } else if c == 'N' { (3, 6)
        } else if c == 'O' { (1, 9)
        } else if c == 'P' { (1, 10)
        } else if c == 'Q' { (1, 1)
        } else if c == 'R' { (1, 4)
        } else if c == 'S' { (2, 2)
        } else if c == 'T' { (1, 5)
        } else if c == 'U' { (1, 7)
        } else if c == 'V' { (3, 4)
        } else if c == 'W' { (1, 2)
        } else if c == 'X' { (3, 2)
        } else if c == 'Y' { (3, 1)
        } else if c == 'Z' { (1, 6)
        } else {
            assert(false);
            (0, 0)
        }
    } else if id == LayoutId::Es {
        if c == 'a' { (2, 1)
        } else if c == 'b' { (3, 5)
        } else if c == 'c' { (3, 3)
        } else if c == 'd' { (2, 3)
        } else if c == 'e' { (1, 3)
        } else if c == 'f' { (2, 4)
        } else if c == 'g' { (2, 5)
        } else if c == 'h' { (2, 6)
        } else if c == 'i' { (1, 8)
        } else if c == 'j' { (2, 7)
        } else if c == 'k' { (2, 8)
        } else if c == 'l' { (2, 9)
        } else if c == 'm' { (3, 7)
        } else if c == 'n' { (3, 6)
        } else if c == 'o' { (1, 9)
        } else if c == 'p' { (1, 10)
        } else if c == 'q' { (1, 1)
        } else if c == 'r' { (1, 4)
        } else if c == 's' { (2, 2)
        } else if c == 't' { (1, 5)
        } else if c == 'u' { (1, 7)
        } else if c == 'v' { (3, 4)
        } else if c == 'w' { (1, 2)
        } else if c == 'x' { (3, 2)
        } else if c == 'y' { (1, 6)
        } else if c == 'z' { (3, 1)
        } else if c == 'A' { (2, 1)
        } else if c == 'B' { (3, 5)
        } else if c == 'C' { (3, 3)
        } else if c == 'D' { (2, 3)
        } else if c == 'E' { (1, 3)
        } else if c == 'F' { (2, 4)
        } else if c == 'G' { (2, 5)
        } else if c == 'H' { (2, 6)
        } else if c == 'I' { (1, 8)
        } else if c == 'J' { (2, 7)
        } else if c == 'K' { (2, 8)
        } else if c == 'L' { (2, 9)
        } else if c == 'M' { (3, 7)
        } else if c == 'N' { (3, 6)
        } else if c == 'O' { (1, 9)
        } else if c == 'P' { (1, 10)
        } else if c == 'Q' { (1, 1)
        } else if c == 'R' { (1, 4)
        } else if c == 'S' { (2, 2)
        } else if c == 'T' { (1, 5)
        } else if c == 'U' { (1, 7)
        } else if c == 'V' { (3, 4)
        } else if c == 'W' { (1, 2)
        } else if c == 'X' { (3, 2)
        } else if c == 'Y' { (1, 6)
        } else if c == 'Z' { (3, 1)
        } else {
            assert(false);
            (0, 0)
        }
    } else if id == LayoutId::No {
        if c == 'a' { (2, 1)
        } else if c == 'b' { (3, 6)
        } else if c == 'c' { (3, 4)
        } else if c == 'd' { (2, 3)
        } else if c == 'e' { (1, 3)
        } else if c == 'f' { (2, 4)
        } else if c == 'g' { (2, 5)
        } else if c == 'h' { (2, 6)
        } else if c == 'i' { (1, 8)
        } else if c == 'j' { (2, 7)
        } else if c == 'k' { (2, 8)
        } else if c == 'l' { (2, 9)
        } else if c == 'm' { (3, 8)
        } else if c == 'n' { (3, 7)
        } else if c == 'o' { (1, 9)
        } else if c == 'p' { (1, 10)
        } else if c == 'q' { (1, 1)
        } else if c == 'r' { (1, 4)
        } else if c == 's' { (2, 2)
        } else if c == 't' { (1, 5)
        } else if c == 'u' { (1, 7)
        } else if c == 'v' { (3, 5)
        } else if c == 'w' { (1, 2)
        } else if c == 'x' { (3, 3)
        } else if c == 'y' { (1, 6)
        } else if c == 'z' { (3, 2)
        } else if c == 'A' { (2, 1)
        } else if c == 'B' { (3, 6)
        } else if c == 'C' { (3, 4)
        } else if c == 'D' { (2, 3)
        } else if c == 'E' { (1, 3)
        } else if c == 'F' { (2, 4)
        } else if c == 'G' { (2, 5)
        } else if c == 'H' { (2, 6)
        } else if c == 'I' { (1, 8)
        } else if c == 'J' { (2, 7)
        } else if c == 'K' { (2, 8)
        } else if c == 'L' { (2, 9)
        } else if c == 'M' { (3, 8)
        } else if c == 'N' { (3, 7)
        } else if c == 'O' { (1, 9)
        } else if c == 'P' { (1, 10)
        } else if c == 'Q' { (1, 1)
        } else if c == 'R' { (1, 4)
        } else if c == 'S' { (2, 2)
        } else if c == 'T' { (1, 5)
        } else if c == 'U' { (1, 7)
        } else if c == 'V' { (3, 5)
        } else if c == 'W' { (1, 2)
        } else if c == 'X' { (3, 3)
        } else if c == 'Y' { (1, 6)
        } else if c == 'Z' { (3, 2)
        } else {
            assert(false);
            (0, 0)
        }
    } else {
        assert(false);
        (0, 0)
    }
}

/// The finger of a column of the touch-typing method, counting from the
/// column of `1`, `q`, `a` and `z` on QWERTY: left pinky (and every key left
/// of that column), left ring, left middle, left index for two columns,
/// right index for two, right middle, right ring, and the right pinky for the
/// rest.
pub open spec fn column_finger(col: int) -> Finger {
    if col <= 0 {
        Finger::LeftPinky
    } else if col == 1 {
        Finger::LeftRing
    } else if col == 2 {
        Finger::LeftMiddle
    } else if col <= 4 {
        Finger::LeftIndex
    } else if col <= 6 {
        Finger::RightIndex
    } else if col == 7 {
        Finger::RightMiddle
    } else if col == 8 {
        Finger::RightRing
    } else {
        Finger::RightPinky
    }
}

/// Where the first letter or digit column starts in row `r` of a layout: one
/// key in (after the key at the left edge), two on the Norwegian bottom row,
/// which has an extra `<` key.
pub open spec fn first_column(id: LayoutId, r: int) -> int {
    if id == LayoutId::No && r == 3 {
        2
    } else {
        1
    }
}

/// Every key of `row` is pressed with the finger of its column.
pub open spec fn row_in_columns(row: Seq<LayoutKey>, first: int) -> bool {
    forall|p: int| 0 <= p < row.len() ==> (#[trigger] row[p]).finger == column_finger(p - first)
}

/// Every key of `row` that types a space is pressed with the right thumb.
pub open spec fn spaces_by_thumb(row: Seq<LayoutKey>) -> bool {
    forall|p: int| 0 <= p < row.len() && #[trigger] key_types(row[p], ' ') ==> row[p].finger
        == Finger::RightThumb
}

/// On every layout, each key of the four character rows is pressed with the
/// finger of its column (see `column_finger`), and the space bar with the
/// right thumb.
pub proof fn law_keys_sit_in_their_columns(id: LayoutId)
    ensures
        forall|r: int, p: int|
            0 <= r < 4 && 0 <= p < layout_rows(id)[r].len() ==> (#[trigger] layout_rows(id)[r][p]).finger
                == column_finger(p - first_column(id, r)),
        finger_in_rows(layout_rows(id), ' ') == Finger::RightThumb,
{
    let rows = layout_rows(id);
    if id == LayoutId::Us {
        assert(row_in_columns(us_row0_keys(), 1));
        assert(row_in_columns(us_row1_keys(), 1));
        assert(row_in_columns(us_row2_keys(), 1));
        assert(row_in_columns(us_row3_keys(), 1));
        assert(spaces_by_thumb(us_row0_keys()));
        assert(spaces_by_thumb(us_row1_keys()));
        assert(spaces_by_thumb(us_row2_keys()));
        assert(spaces_by_thumb(us_row3_keys()));
        assert(spaces_by_thumb(us_row4_keys()));
    }
    if id == LayoutId::Uk {
        assert(row_in_columns(uk_row0_keys(), 1));
        assert(row_in_columns(us_row1_keys(), 1));
        assert(row_in_columns(uk_row2_keys(), 1));
        assert(row_in_columns(us_row3_keys(), 1));
        assert(spaces_by_thumb(uk_row0_keys()));
        assert(spaces_by_thumb(us_row1_keys()));
        assert(spaces_by_thumb(uk_row2_keys()));
        assert(spaces_by_thumb(us_row3_keys()));
        assert(spaces_by_thumb(us_row4_keys()));
    }
    if id == LayoutId::Fr {
        assert(row_in_columns(fr_row0_keys(), 1));
        assert(row_in_columns(fr_row1_keys(), 1));
        assert(row_in_columns(fr_row2_keys(), 1));
        assert(row_in_columns(fr_row3_keys(), 1));
        assert(spaces_by_thumb(fr_row0_keys()));
        assert(spaces_by_thumb(fr_row1_keys()));
        assert(spaces_by_thumb(fr_row2_keys()));
        assert(spaces_by_thumb(fr_row3_keys()));
        assert(spaces_by_thumb(us_row4_keys()));
    }
    if id == LayoutId::De {
        assert(row_in_columns(de_row0_keys(), 1));
        assert(row_in_columns(de_row1_keys(), 1));
        assert(row_in_columns(de_row2_keys(), 1));
        assert(row_in_columns(de_row3_keys(), 1));
        assert(spaces_by_thumb(de_row0_keys()));
        assert(spaces_by_thumb(de_row1_keys()));
        assert(spaces_by_thumb(de_row2_keys()));
        assert(spaces_by_thumb(de_row3_keys()));
        assert(spaces_by_thumb(us_row4_keys()));
    }
    if id == LayoutId::Es {
        assert(row_in_columns(es_row0_keys(), 1));
        assert(row_in_columns(us_row1_keys(), 1));
        assert(row_in_columns(es_row2_keys(), 1));
        assert(row_in_columns(us_row3_keys(), 1));
        assert(spaces_by_thumb(es_row0_keys()));
        assert(spaces_by_thumb(us_row1_keys()));
        assert(spaces_by_thumb(es_row2_keys()));
        assert(spaces_by_thumb(us_row3_keys()));
        assert(spaces_by_thumb(us_row4_keys()));
    }
    if id == LayoutId::No {
        assert(row_in_columns(no_row0_keys(), 1));
        assert(row_in_columns(no_row1_keys(), 1));
        assert(row_in_columns(no_row2_keys(), 1));
        assert(row_in_columns(no_row3_keys(), 2));
        assert(spaces_by_thumb(no_row0_keys()));
        assert(spaces_by_thumb(no_row1_keys()));
        assert(spaces_by_thumb(no_row2_keys()));
        assert(spaces_by_thumb(no_row3_keys()));
        assert(spaces_by_thumb(us_row4_keys()));
    }
    assert forall|r: int, p: int|
        0 <= r < 4 && 0 <= p < rows[r].len() implies (#[trigger] rows[r][p]).finger == column_finger(
            p - first_column(id, r),
        ) by {
        assert(row_in_columns(rows[r], first_column(id, r)));
    }
    assert(key_types(rows[4][2], ' '));
    let ri = lemma_rows_first(rows, ' ', 4, 2);
    assert(spaces_by_thumb(rows[ri.0]));
}

/// The finger of a row that holds a key typing `c` is that of one such key.
proof fn lemma_row_some(row: Seq<LayoutKey>, c: char) -> (j: int)
    requires
        finger_in_row(row, c) is Some,
    ensures
        0 <= j < row.len(),
        key_types(row[j], c),
        finger_in_row(row, c) == Some(row[j].finger),
    decreases row.len(),
{
    if key_types(row[0], c) {
        0
    } else {
        let j = lemma_row_some(row.drop_first(), c);
        j + 1
    }
}

proof fn lemma_row_has(row: Seq<LayoutKey>, c: char, i0: int)
    requires
        0 <= i0 < row.len(),
        key_types(row[i0], c),
    ensures
        finger_in_row(row, c) is Some,
    decreases row.len(),
{
    if !key_types(row[0], c) {
        assert(row.drop_first()[i0 - 1] == row[i0]);
        lemma_row_has(row.drop_first(), c, i0 - 1);
    }
}

/// When some key types `c`, the lookup gives the finger of a key that types
/// it.
proof fn lemma_rows_first(rows: Seq<Seq<LayoutKey>>, c: char, r0: int, i0: int) -> (ri: (int, int))
    requires
        0 <= r0 < rows.len(),
        0 <= i0 < rows[r0].len(),
        key_types(rows[r0][i0], c),
    ensures
        0 <= ri.0 < rows.len(),
        0 <= ri.1 < rows[ri.0].len(),
        key_types(rows[ri.0][ri.1], c),
        finger_in_rows(rows, c) == rows[ri.0][ri.1].finger,
    decreases rows.len(),
{
    if finger_in_row(rows[0], c) is Some {
        let j = lemma_row_some(rows[0], c);
        (0, j)
    } else {
        if r0 == 0 {
            lemma_row_has(rows[0], c, i0);
        }
        assert(rows.drop_first()[r0 - 1] == rows[r0]);
        let ri = lemma_rows_first(rows.drop_first(), c, r0 - 1, i0);
        assert(rows.drop_first()[ri.0] == rows[ri.0 + 1]);
        (ri.0 + 1, ri.1)
    }
}

/// On every layout, each letter, in either case, is typed with the finger
/// the touch-typing method gives it (see `touch_finger`).
pub proof fn law_letters_follow_the_touch_typing_columns(id: LayoutId, c: char)
    requires
        is_ascii_letter(c),
    ensures
        finger_in_rows(layout_rows(id), c) == touch_finger(id, c),
{
    let rows = layout_rows(id);
    let w = lemma_letter_has_key(id, c);
    let ri = lemma_rows_first(rows, c, w.0, w.1);
    lemma_rows_follow_columns(id);
    assert(row_follows_columns(id, rows[ri.0]));
}

} // verus!

verus! {

// ---------------------------------------------------------------------------
//  Language families
// ---------------------------------------------------------------------------

proof fn lemma_byte_cases(b: u8)
    ensures
        lower_byte(upper_byte(b)) == lower_byte(b),
        upper_byte(lower_byte(b)) == upper_byte(b),
        lower_byte(lower_byte(b)) == lower_byte(b),
{
}

/// The last four bytes of the KLID of `id`, in lower case: its language id.
pub open spec fn klid_language(id: LayoutId) -> Seq<u8> {
    lower_bytes(ascii_bytes(klid_of(id))).subrange(4, 8)
}

proof fn lemma_klid_bytes(id: LayoutId)
    ensures
        ascii_bytes(klid_of(id)).len() == 8,
        upper_bytes(ascii_bytes(klid_of(id))) == ascii_bytes(klid_of(id)),
        klid_language(id) == match id {
            LayoutId::Us => ascii_bytes("0409"@),
            LayoutId::Uk => ascii_bytes("0809"@),
            LayoutId::Fr => ascii_bytes("040c"@),
            LayoutId::De => ascii_bytes("0407"@),
            LayoutId::Es => ascii_bytes("040a"@),
            LayoutId::No => ascii_bytes("0414"@),
        },
{
    reveal_strlit("00000409");
    reveal_strlit("00000809");
    reveal_strlit("0000040C");
    reveal_strlit("00000407");
    reveal_strlit("0000040A");
    reveal_strlit("00000414");
    reveal_strlit("0409");
    reveal_strlit("0809");
    reveal_strlit("040c");
    reveal_strlit("0407");
    reveal_strlit("040a");
    reveal_strlit("0414");
    let k = ascii_bytes(klid_of(id));
    assert(upper_bytes(k) =~= k);
    assert(klid_language(id) =~= match id {
        LayoutId::Us => ascii_bytes("0409"@),
        LayoutId::Uk => ascii_bytes("0809"@),
        LayoutId::Fr => ascii_bytes("040c"@),
        LayoutId::De => ascii_bytes("0407"@),
        LayoutId::Es => ascii_bytes("040a"@),
        LayoutId::No => ascii_bytes("0414"@),
    });
}

/// A KLID of `id` ends with four bytes, in upper or lower case, exactly when
/// those bytes, put in lower case, are its language id.
proof fn lemma_tail_match(tail: Seq<u8>, id: LayoutId)
    requires
        tail.len() == 4,
    ensures
        klid_ends_with_tail(tail, id) == (lower_bytes(tail) == klid_language(id)),
{
    lemma_klid_bytes(id);
    let k = ascii_bytes(klid_of(id));
    let k4 = k.subrange(4, 8);
    assert(klid_language(id) =~= lower_bytes(k4));
    if ends_with(k, upper_bytes(tail)) {
        assert(k4 =~= upper_bytes(tail));
        assert forall|i: int| 0 <= i < 4 implies lower_bytes(k4)[i] == lower_bytes(tail)[i] by {
            lemma_byte_cases(tail[i]);
        }
        assert(lower_bytes(k4) =~= lower_bytes(tail));
    }
    if ends_with(k, lower_bytes(tail)) {
        assert(k4 =~= lower_bytes(tail));
        assert forall|i: int| 0 <= i < 4 implies lower_bytes(k4)[i] == lower_bytes(tail)[i] by {
            lemma_byte_cases(tail[i]);
        }
        assert(lower_bytes(k4) =~= lower_bytes(tail));
    }
    if lower_bytes(tail) == klid_language(id) {
        // the KLID is written in upper case, so it is the tail in upper case
        assert(upper_bytes(k4) =~= k4) by {
            assert forall|i: int| 0 <= i < 4 implies upper_bytes(k4)[i] == k4[i] by {
                assert(upper_bytes(k)[4 + i] == k[4 + i]);
            }
        }
        assert forall|i: int| 0 <= i < 4 implies upper_bytes(tail)[i] == k4[i] by {
            lemma_byte_cases(tail[i]);
            lemma_byte_cases(k4[i]);
            assert(lower_bytes(tail)[i] == lower_bytes(k4)[i]);
            assert(upper_bytes(k4)[i] == k4[i]);
        }
        assert(k4 =~= upper_bytes(tail));
        assert(ends_with(k, upper_bytes(tail)));
    }
}

proof fn lemma_four_bytes(a: Seq<u8>, b: Seq<u8>)
    requires
        a.len() == 4,
        b.len() == 4,
    ensures
        (a == b) == (a[0] == b[0] && a[1] == b[1] && a[2] == b[2] && a[3] == b[3]),
{
    if a[0] == b[0] && a[1] == b[1] && a[2] == b[2] && a[3] == b[3] {
        assert(a =~= b);
    }
}

/// A KLID that names `id` exactly has its language id.
proof fn lemma_exact_language(k: Seq<u8>, id: LayoutId)
    requires
        k.len() >= 4,
        is_exact_klid(k, id),
    ensures
        lower_bytes(k.subrange(k.len() - 4, k.len() as int)) == klid_language(id),
{
    lemma_klid_bytes(id);
    assert(lower_bytes(k).len() == 8);
    assert(lower_bytes(k.subrange(k.len() - 4, k.len() as int)) =~= lower_bytes(k).subrange(4, 8));
}

/// The layout a KLID selects is fixed by its language id, its last four hex
/// digits in either case: any French variant (040c, 080c, 0c0c, 100c, 140c)
/// gives French, any German one (0407, 0807, 0c07, 1007, 1407) German, any
/// Spanish one (040a, 080a, 0c0a, 100a) Spanish, British English (0809) UK,
/// the other English ones (0409, 0c09, 1009) US, and Norwegian Bokmål or
/// Nynorsk (0414, 0814) Norwegian.
pub proof fn law_klid_language_picks_the_layout(k: Seq<u8>)
    requires
        k.len() >= 4,
    ensures
        ({
            let t = lower_bytes(k.subrange(k.len() - 4, k.len() as int));
            &&& (t == ascii_bytes("040c"@) || t == ascii_bytes("080c"@) || t == ascii_bytes("0c0c"@)
                || t == ascii_bytes("100c"@) || t == ascii_bytes("140c"@)) ==> layout_id_for_klid(k)
                == LayoutId::Fr
            &&& (t == ascii_bytes("0407"@) || t == ascii_bytes("0807"@) || t == ascii_bytes("0c07"@)
                || t == ascii_bytes("1007"@) || t == ascii_bytes("1407"@)) ==> layout_id_for_klid(k)
                == LayoutId::De
            &&& (t == ascii_bytes("040a"@) || t == ascii_bytes("080a"@) || t == ascii_bytes("0c0a"@)
                || t == ascii_bytes("100a"@)) ==> layout_id_for_klid(k) == LayoutId::Es
            &&& t == ascii_bytes("0809"@) ==> layout_id_for_klid(k) == LayoutId::Uk
            &&& (t == ascii_bytes("0409"@) || t == ascii_bytes("0c09"@) || t == ascii_bytes("1009"@))
                ==> layout_id_for_klid(k) == LayoutId::Us
            &&& (t == ascii_bytes("0414"@) || t == ascii_bytes("0814"@)) ==> layout_id_for_klid(k)
                == LayoutId::No
        }),
{
    reveal_strlit("040c");
    reveal_strlit("080c");
    reveal_strlit("0c0c");
    reveal_strlit("100c");
    reveal_strlit("140c");
    reveal_strlit("0407");
    reveal_strlit("0807");
    reveal_strlit("0c07");
    reveal_strlit("1007");
    reveal_strlit("1407");
    reveal_strlit("040a");
    reveal_strlit("080a");
    reveal_strlit("0c0a");
    reveal_strlit("100a");
    reveal_strlit("0409");
    reveal_strlit("0809");
    reveal_strlit("0c09");
    reveal_strlit("1009");
    reveal_strlit("0414");
    reveal_strlit("0814");
    let tail = k.subrange(k.len() - 4, k.len() as int);
    let t = lower_bytes(tail);
    assert(lower_bytes(t) =~= t) by {
        assert forall|i: int| 0 <= i < 4 implies lower_bytes(t)[i] == t[i] by {
            lemma_byte_cases(tail[i]);
        }
    }
    assert forall|id: LayoutId| is_exact_klid(k, id) implies t == klid_language(id) by {
        lemma_exact_language(k, id);
    }
    assert forall|id: LayoutId| klid_ends_with_tail(tail, id) == (t == klid_language(id)) by {
        lemma_tail_match(tail, id);
    }
    lemma_klid_bytes(LayoutId::Us);
    lemma_klid_bytes(LayoutId::Uk);
    lemma_klid_bytes(LayoutId::Fr);
    lemma_klid_bytes(LayoutId::De);
    lemma_klid_bytes(LayoutId::Es);
    lemma_klid_bytes(LayoutId::No);
    lemma_four_bytes(t, ascii_bytes("040c"@));
    lemma_four_bytes(t, ascii_bytes("080c"@));
    lemma_four_bytes(t, ascii_bytes("0c0c"@));
    lemma_four_bytes(t, ascii_bytes("100c"@));
    lemma_four_bytes(t, ascii_bytes("140c"@));
    lemma_four_bytes(t, ascii_bytes("0407"@));
    lemma_four_bytes(t, ascii_bytes("0807"@));
    lemma_four_bytes(t, ascii_bytes("0c07"@));
    lemma_four_bytes(t, ascii_bytes("1007"@));
    lemma_four_bytes(t, ascii_bytes("1407"@));
    lemma_four_bytes(t, ascii_bytes("040a"@));
    lemma_four_bytes(t, ascii_bytes("080a"@));
    lemma_four_bytes(t, ascii_bytes("0c0a"@));
    lemma_four_bytes(t, ascii_bytes("100a"@));
    lemma_four_bytes(t, ascii_bytes("0409"@));
    lemma_four_bytes(t, ascii_bytes("0809"@));
    lemma_four_bytes(t, ascii_bytes("0c09"@));
    lemma_four_bytes(t, ascii_bytes("1009"@));
    lemma_four_bytes(t, ascii_bytes("0414"@));
    lemma_four_bytes(t, ascii_bytes("0814"@));
}

} // verus!
