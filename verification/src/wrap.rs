//! Breaking a text into display rows at word boundaries.

use vstd::prelude::*;
use std::ops::Range;

verus! {

/// Index of the last space in `t[r..i]`, or -1 when that part holds none.
pub open spec fn last_space_before(t: Seq<char>, r: int, i: int) -> int
    decreases i - r,
{
    if i <= r {
        -1
    } else if t[i - 1] == ' ' {
        i - 1
    } else {
        last_space_before(t, r, i - 1)
    }
}

/// Where a row that starts at `r` ends when the text goes on past
/// `r + max` characters: the character at `r + max` overflows the row.
/// If that character is a space, or the row holds no earlier space, the row
/// is cut right before it; otherwise it is cut just after its last space.
pub open spec fn row_break(t: Seq<char>, r: int, max: nat) -> int {
    let i = r + max;
    if t[i] == ' ' {
        i
    } else if last_space_before(t, r, i) >= 0 {
        last_space_before(t, r, i) + 1
    } else {
        i
    }
}

/// The rows, as (start, end) pairs, that cover `t[r..]`.
pub open spec fn rows_from(t: Seq<char>, max: nat, r: int) -> Seq<(int, int)>
    decreases t.len() - r,
{
    if r < 0 || r >= t.len() {
        seq![]
    } else if t.len() - r <= max {
        seq![(r, t.len() as int)]
    } else {
        let b = row_break(t, r, max);
        if b <= r || b > t.len() {
            seq![]
        } else {
            seq![(r, b)] + rows_from(t, max, b)
        }
    }
}

/// The rows that `wrap_indices` gives for `t`: those of `rows_from` at 0, or a
/// single empty row for an empty text.
pub open spec fn wrapped_rows(t: Seq<char>, max: nat) -> Seq<(int, int)> {
    if t.len() == 0 {
        seq![(0, 0)]
    } else {
        rows_from(t, max, 0)
    }
}

/// The (start, end) pairs of a sequence of ranges.
pub open spec fn range_pairs(v: Seq<Range<usize>>) -> Seq<(int, int)> {
    v.map_values(|rg: Range<usize>| (rg.start as int, rg.end as int))
}

pub proof fn lemma_last_space_before_bounds(t: Seq<char>, r: int, i: int)
    ensures
        last_space_before(t, r, i) == -1 || (r <= last_space_before(t, r, i) < i && t[last_space_before(t, r, i)] == ' '),
        forall|k: int| last_space_before(t, r, i) < k < i && r <= k ==> t[k] != ' ',
    decreases i - r,
{
    if i > r && t[i - 1] != ' ' {
        lemma_last_space_before_bounds(t, r, i - 1);
    }
}

/// No space lies in `t[r..i]` exactly when `last_space_before` finds none.
pub proof fn lemma_no_space_before(t: Seq<char>, r: int, i: int)
    requires
        forall|k: int| r <= k < i ==> t[k] != ' ',
    ensures
        last_space_before(t, r, i) == -1,
    decreases i - r,
{
    if i > r {
        lemma_no_space_before(t, r, i - 1);
    }
}

pub proof fn lemma_row_break_bounds(t: Seq<char>, r: int, max: nat)
    requires
        0 <= r,
        max > 0,
        r + max < t.len(),
    ensures
        r < row_break(t, r, max) <= r + max,
{
    lemma_last_space_before_bounds(t, r, r + max);
}


/// Whether `rows` are the rows of a layout of `t` with at most `max`
/// characters per row: they follow one another without gap or overlap from
/// `first` to the end of `t`, none is empty, none is longer than `max`, and a
/// row that does not end just after a space is a full row whose last word
/// did not fit: either a space comes right after it, or it holds no space;
/// and a row that is not full ends after the last space that fits: no space
/// lies from its end up to the first character that did not fit.
pub open spec fn is_row_layout(t: Seq<char>, max: nat, first: int, rows: Seq<(int, int)>) -> bool {
    &&& rows.len() > 0
    &&& rows[0].0 == first
    &&& rows[rows.len() - 1].1 == t.len()
    &&& forall|k: int| 0 <= k < rows.len() ==> first <= #[trigger] rows[k].0 < rows[k].1 <= t.len()
    &&& forall|k: int| 0 <= k < rows.len() ==> #[trigger] rows[k].1 - rows[k].0 <= max
    &&& forall|k: int| 0 <= k < rows.len() - 1 ==> #[trigger] rows[k].1 == rows[k + 1].0
    &&& forall|k: int|
        0 <= k < rows.len() - 1 && t[#[trigger] rows[k].1 - 1] != ' ' ==> {
            &&& rows[k].1 - rows[k].0 == max
            &&& (t[rows[k].1] == ' ' || forall|j: int| rows[k].0 <= j < rows[k].1 ==> t[j] != ' ')
        }
    &&& forall|k: int|
        0 <= k < rows.len() - 1 && #[trigger] rows[k].1 - rows[k].0 != max ==> {
            &&& t[rows[k].1 - 1] == ' '
            &&& forall|j: int| rows[k].1 <= j <= rows[k].0 + max ==> t[j] != ' '
        }
}

proof fn lemma_rows_from_layout(t: Seq<char>, max: nat, r: int)
    requires
        0 <= r < t.len(),
        max > 0,
    ensures
        is_row_layout(t, max, r, rows_from(t, max, r)),
    decreases t.len() - r,
{
    let rows = rows_from(t, max, r);
    if t.len() - r <= max {
        assert(rows == seq![(r, t.len() as int)]);
    } else {
        lemma_row_break_bounds(t, r, max);
        lemma_last_space_before_bounds(t, r, r + max);
        let b = row_break(t, r, max);
        let rest = rows_from(t, max, b);
        lemma_rows_from_layout(t, max, b);
        assert(rows == seq![(r, b)] + rest);
        assert forall|k: int| 1 <= k < rows.len() implies #[trigger] rows[k] == rest[k - 1] by {}
        assert(rows[0] == (r, b));
        assert forall|k: int| 0 <= k < rows.len() implies r <= #[trigger] rows[k].0 < rows[k].1
            <= t.len() by {
            if k > 0 {
                assert(rows[k] == rest[k - 1]);
            }
        }
        assert forall|k: int| 0 <= k < rows.len() implies #[trigger] rows[k].1 - rows[k].0
            <= max by {
            if k > 0 {
                assert(rows[k] == rest[k - 1]);
            }
        }
        assert forall|k: int| 0 <= k < rows.len() - 1 implies #[trigger] rows[k].1 == rows[k
            + 1].0 by {
            assert(rows[k + 1] == rest[k]);
            if k > 0 {
                assert(rows[k] == rest[k - 1]);
            }
        }
        assert forall|k: int|
            0 <= k < rows.len() - 1 && t[#[trigger] rows[k].1 - 1] != ' ' implies {
                &&& rows[k].1 - rows[k].0 == max
                &&& (t[rows[k].1] == ' ' || forall|j: int|
                    rows[k].0 <= j < rows[k].1 ==> t[j] != ' ')
            } by {
            if k > 0 {
                assert(rows[k] == rest[k - 1]);
            } else {
                assert(rows[k] == (r, b));
            }
        }
        assert forall|k: int|
            0 <= k < rows.len() - 1 && #[trigger] rows[k].1 - rows[k].0 != max implies {
                &&& t[rows[k].1 - 1] == ' '
                &&& forall|j: int| rows[k].1 <= j <= rows[k].0 + max ==> t[j] != ' '
            } by {
            if k > 0 {
                assert(rows[k] == rest[k - 1]);
            } else {
                assert(rows[k] == (r, b));
            }
        }
        assert(rows[rows.len() - 1] == rest[rest.len() - 1]);
    }
}

/// The rows of a non-empty text, at most `max_chars` wide, cover it from its
/// first character to its last, each row starting where the one before ended;
/// none is empty or longer than `max_chars`; a row is cut inside a word only
/// when that row is full and holds no space, or is cut right before a space;
/// and a row that is not full ends after the last space that fits in it.
pub proof fn law_rows_lay_out_the_text(t: Seq<char>, max_chars: nat)
    requires
        t.len() > 0,
        max_chars > 0,
    ensures
        is_row_layout(t, max_chars, 0, wrapped_rows(t, max_chars)),
{
    lemma_rows_from_layout(t, max_chars, 0);
}

/// An empty text is one empty row, whatever the width.
pub proof fn law_empty_text_is_one_empty_row(t: Seq<char>, max_chars: nat)
    requires
        t.len() == 0,
    ensures
        wrapped_rows(t, max_chars) == seq![(0int, 0int)],
{
}

/// A text that fits in one row stays one row.
pub proof fn law_short_text_is_one_row(t: Seq<char>, max_chars: nat)
    requires
        0 < t.len() <= max_chars,
    ensures
        wrapped_rows(t, max_chars) == seq![(0int, t.len() as int)],
{
}

/// Breaks `target` into rows of at most `max_chars` characters, cutting at
/// word boundaries when it can. Each range gives where a row starts and ends
/// in `target`; an empty text gives one empty row.
pub fn wrap_indices(target: &[char], max_chars: usize) -> (rows: Vec<Range<usize>>)
    requires
        target@.len() > 0 ==> max_chars > 0,
    ensures
        range_pairs(rows@) == wrapped_rows(target@, max_chars as nat),
{
    let mut rows: Vec<Range<usize>> = Vec::new();
    let mut row_start: usize = 0;
    let mut last_space: Option<usize> = None;
    let mut i: usize = 0;
    let ghost t = target@;
    let ghost max = max_chars as nat;
    while i < target.len()
        invariant
            t == target@,
            max == max_chars as nat,
            t.len() > 0 ==> max > 0,
            row_start <= i <= t.len(),
            i - row_start <= max,
            last_space_before(t, row_start as int, i as int) >= 0 ==> last_space == Some(
                last_space_before(t, row_start as int, i as int) as usize,
            ),
            last_space_before(t, row_start as int, i as int) < 0 ==> last_space is None,
            range_pairs(rows@) + rows_from(t, max, row_start as int) == rows_from(t, max, 0),
        decreases 2 * t.len() - i - row_start,
    {
        let len_so_far = i - row_start + 1;
        proof {
            lemma_last_space_before_bounds(t, row_start as int, i as int);
        }
        if target[i] == ' ' {
            last_space = Some(i);
        }
        if len_so_far > max_chars {
            let break_at = match last_space {
                Some(s) if s >= row_start && s < i => s + 1,
                _ => i,
            };
            proof {
                let r = row_start as int;
                assert(i as int == r + max);
                assert(t.len() - r > max);
                lemma_row_break_bounds(t, r, max);
                assert(break_at as int == row_break(t, r, max));
                let b = break_at as int;
                // the rest of the row holds no space before `i`
                assert forall|k: int| b <= k < i implies t[k] != ' ' by {}
                lemma_no_space_before(t, b, i as int);
                let old_rows = range_pairs(rows@);
                assert(rows_from(t, max, r) == seq![(r, b)] + rows_from(t, max, b));
                assert(range_pairs(rows@.push(row_start..break_at)) == old_rows.push((r, b)));
                assert(old_rows.push((r, b)) + rows_from(t, max, b) == old_rows + (seq![(r, b)]
                    + rows_from(t, max, b)));
            }
            rows.push(row_start..break_at);
            row_start = break_at;
            last_space = None;
            continue;
        }
        proof {
            let r = row_start as int;
            if t[i as int] == ' ' {
                assert(last_space_before(t, r, i + 1) == i);
            } else {
                assert(last_space_before(t, r, i + 1) == last_space_before(t, r, i as int));
            }
        }
        i += 1;
    }
    proof {
        let r = row_start as int;
        assert(t.len() - r <= max);
    }
    if row_start < target.len() {
        proof {
            let r = row_start as int;
            let old_rows = range_pairs(rows@);
            assert(rows_from(t, max, r) == seq![(r, t.len() as int)]);
            assert(range_pairs(rows@.push(row_start..target.len())) == old_rows.push(
                (r, t.len() as int),
            ));
        }
        rows.push(row_start..target.len());
    } else {
        proof {
            assert(rows_from(t, max, row_start as int) == Seq::<(int, int)>::empty());
            assert(range_pairs(rows@) + Seq::<(int, int)>::empty() == range_pairs(rows@));
        }
    }
    if rows.len() == 0 {
        proof {
            assert(rows_from(t, max, 0) == Seq::<(int, int)>::empty());
            if t.len() > 0 {
                if t.len() > max { lemma_row_break_bounds(t, 0, max); }
                assert(rows_from(t, max, 0).len() > 0);
            }
        }
        rows.push(0..0);
        proof {
            assert(range_pairs(rows@) =~= seq![(0int, 0int)]);
        }
    } else {
        proof {
            if t.len() == 0 {
                assert(rows_from(t, max, 0) == Seq::<(int, int)>::empty());
                assert(range_pairs(rows@).len() == 0);
            }
        }
    }
    rows
}

} // verus!
