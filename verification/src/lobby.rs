//! The lobby's list of peers as it is shown: one entry per peer, with its
//! address written out, ordered by name and then by address.

use vstd::prelude::*;
use crate::peers::{Peer, PeerView};
use crate::textutil::{chars_of, dec_digits, push_decimal};

verus! {

// ---------------------------------------------------------------------------
//  Addresses
// ---------------------------------------------------------------------------

/// The text of an IPv4 socket address, `a.b.c.d:port`, the four numbers
/// being the bytes of `ip` from the most significant one down.
pub open spec fn address_text(ip: u32, port: u16) -> Seq<char> {
    dec_digits((ip / 0x100_0000) as nat) + seq!['.'] + dec_digits(((ip / 0x1_0000) % 256) as nat)
        + seq!['.'] + dec_digits(((ip / 0x100) % 256) as nat) + seq!['.'] + dec_digits(
        (ip % 256) as nat,
    ) + seq![':'] + dec_digits(port as nat)
}

/// The address of a peer's race listener, as `a.b.c.d:port`.
pub fn peer_address(ip: u32, port: u16) -> (s: String)
    ensures
        s@ == address_text(ip, port),
{
    let mut s = String::new();
    push_decimal(&mut s, (ip / 0x100_0000) as u64);
    s.push('.');
    push_decimal(&mut s, ((ip / 0x1_0000) % 256) as u64);
    s.push('.');
    push_decimal(&mut s, ((ip / 0x100) % 256) as u64);
    s.push('.');
    push_decimal(&mut s, (ip % 256) as u64);
    s.push(':');
    push_decimal(&mut s, port as u64);
    assert(s@ =~= address_text(ip, port));
    s
}

// ---------------------------------------------------------------------------
//  Text order
// ---------------------------------------------------------------------------

/// Whether `a` comes strictly before `b` in the order of `str`: the first
/// character where they differ decides, by code point (the order of their
/// UTF-8 bytes), and a proper prefix comes first.
pub open spec fn text_before(a: Seq<char>, b: Seq<char>) -> bool
    decreases a.len(),
{
    if a.len() == 0 {
        b.len() > 0
    } else if b.len() == 0 {
        false
    } else if a[0] != b[0] {
        (a[0] as u32) < (b[0] as u32)
    } else {
        text_before(a.drop_first(), b.drop_first())
    }
}

proof fn lemma_char_code_injective(c: char, d: char)
    requires
        (c as u32) == (d as u32),
    ensures
        c == d,
{
}

/// No text comes before itself, and of two texts at most one comes first.
pub proof fn lemma_text_before_asymmetric(a: Seq<char>, b: Seq<char>)
    ensures
        !text_before(a, a),
        text_before(a, b) ==> !text_before(b, a),
    decreases a.len(),
{
    if a.len() > 0 {
        lemma_text_before_asymmetric(a.drop_first(), a.drop_first());
        if b.len() > 0 {
            lemma_text_before_asymmetric(a.drop_first(), b.drop_first());
            if a[0] != b[0] && (a[0] as u32) == (b[0] as u32) {
                lemma_char_code_injective(a[0], b[0]);
            }
        }
    }
}

/// Of two different texts, one comes first.
pub proof fn lemma_text_before_total(a: Seq<char>, b: Seq<char>)
    requires
        a != b,
    ensures
        text_before(a, b) || text_before(b, a),
    decreases a.len(),
{
    if a.len() == 0 {
        assert(b.len() > 0) by {
            if b.len() == 0 {
                assert(a =~= b);
            }
        }
    } else if b.len() > 0 {
        if a[0] == b[0] {
            if a.drop_first() == b.drop_first() {
                assert(a.drop_first().len() == b.drop_first().len());
                assert(a.len() == b.len());
                assert(a =~= b) by {
                    assert forall|i: int| 0 <= i < a.len() implies a[i] == b[i] by {
                        if i > 0 {
                            assert(a[i] == a.drop_first()[i - 1]);
                            assert(b[i] == b.drop_first()[i - 1]);
                        }
                    }
                }
            }
            lemma_text_before_total(a.drop_first(), b.drop_first());
        } else if (a[0] as u32) == (b[0] as u32) {
            lemma_char_code_injective(a[0], b[0]);
        }
    }
}

/// The text order is transitive.
pub proof fn lemma_text_before_transitive(a: Seq<char>, b: Seq<char>, c: Seq<char>)
    requires
        text_before(a, b),
        text_before(b, c),
    ensures
        text_before(a, c),
    decreases a.len(),
{
    if a.len() > 0 && b.len() > 0 && c.len() > 0 {
        if a[0] == b[0] && b[0] == c[0] {
            lemma_text_before_transitive(a.drop_first(), b.drop_first(), c.drop_first());
        } else if a[0] != c[0] && (a[0] as u32) == (c[0] as u32) {
            lemma_char_code_injective(a[0], c[0]);
        }
    }
}

/// The text order is dictionary order: a text comes before every longer
/// text it starts, and after a shared start the text whose next character has
/// the smaller code point comes first, whatever follows.
pub proof fn law_text_order_is_dictionary_order(
    p: Seq<char>,
    c: char,
    d: char,
    x: Seq<char>,
    y: Seq<char>,
)
    requires
        (c as u32) < (d as u32),
    ensures
        text_before(p, p.push(c) + x),
        text_before(p.push(c) + x, p.push(d) + y),
        !text_before(p.push(d) + y, p.push(c) + x),
    decreases p.len(),
{
    let a = p.push(c) + x;
    let b = p.push(d) + y;
    if p.len() == 0 {
        assert(a[0] == c);
        assert(b[0] == d);
    } else {
        law_text_order_is_dictionary_order(p.drop_first(), c, d, x, y);
        assert(a.drop_first() =~= p.drop_first().push(c) + x);
        assert(b.drop_first() =~= p.drop_first().push(d) + y);
        assert(a[0] == p[0]);
        assert(b[0] == p[0]);
        assert((p.push(c) + x)[0] == p[0]);
    }
    lemma_text_before_asymmetric(a, b);
}

/// Whether the text `a` comes strictly before `b`.
pub fn text_less(a: &str, b: &str) -> (r: bool)
    ensures
        r == text_before(a@, b@),
{
    let x = chars_of(a);
    let y = chars_of(b);
    let mut i: usize = 0;
    assert(x@.skip(0) =~= x@);
    assert(y@.skip(0) =~= y@);
    while i < x.len() && i < y.len()
        invariant
            x@ == a@,
            y@ == b@,
            i <= x@.len(),
            i <= y@.len(),
            text_before(a@, b@) == text_before(x@.skip(i as int), y@.skip(i as int)),
        decreases x@.len() - i,
    {
        if x[i] != y[i] {
            return (x[i] as u32) < (y[i] as u32);
        }
        assert(x@.skip(i as int).drop_first() =~= x@.skip(i + 1));
        assert(y@.skip(i as int).drop_first() =~= y@.skip(i + 1));
        i += 1;
    }
    i < y.len()
}

// ---------------------------------------------------------------------------
//  Entries
// ---------------------------------------------------------------------------

/// One line of the lobby's list.
pub struct PeerEntry {
    pub id: String,
    pub name: String,
    /// The peer's race listener, `a.b.c.d:port`.
    pub address: String,
}

/// A lobby line as plain values.
pub struct EntryView {
    pub id: Seq<char>,
    pub name: Seq<char>,
    pub address: Seq<char>,
}

impl View for PeerEntry {
    type V = EntryView;

    open spec fn view(&self) -> EntryView {
        EntryView { id: self.id@, name: self.name@, address: self.address@ }
    }
}

/// The lobby line of a peer.
pub open spec fn entry_of(p: PeerView) -> EntryView {
    EntryView { id: p.id, name: p.name, address: address_text(p.tcp_ip, p.tcp_port) }
}

/// Whether line `x` is shown above line `y`: by name, then by address.
pub open spec fn entry_before(x: EntryView, y: EntryView) -> bool {
    text_before(x.name, y.name) || (x.name == y.name && text_before(x.address, y.address))
}

/// The lines shown at the place of name `name` and address `address`.
pub open spec fn at_place(name: Seq<char>, address: Seq<char>) -> spec_fn(EntryView) -> bool {
    |e: EntryView| e.name == name && e.address == address
}

/// No line of `s` is shown above one that comes before it.
pub open spec fn in_display_order(s: Seq<EntryView>) -> bool {
    forall|i: int, j: int| 0 <= i < j < s.len() ==> !entry_before(#[trigger] s[j], #[trigger] s[i])
}

proof fn lemma_entry_order(x: EntryView, y: EntryView, z: EntryView)
    ensures
        !entry_before(x, x),
        entry_before(x, y) ==> !entry_before(y, x),
        !(x.name == y.name && x.address == y.address) ==> entry_before(x, y) || entry_before(y, x),
        entry_before(x, y) && entry_before(y, z) ==> entry_before(x, z),
        entry_before(x, y) && y.name == z.name && y.address == z.address ==> entry_before(x, z),
{
    lemma_text_before_asymmetric(x.name, y.name);
    lemma_text_before_asymmetric(x.address, y.address);
    if x.name != y.name {
        lemma_text_before_total(x.name, y.name);
    } else if x.address != y.address {
        lemma_text_before_total(x.address, y.address);
    }
    if entry_before(x, y) && entry_before(y, z) {
        if text_before(x.name, y.name) && text_before(y.name, z.name) {
            lemma_text_before_transitive(x.name, y.name, z.name);
        }
        if x.name == y.name && y.name == z.name {
            lemma_text_before_transitive(x.address, y.address, z.address);
        }
    }
}

/// Whether line `x` is shown above line `y`.
fn entry_less(x: &PeerEntry, y: &PeerEntry) -> (r: bool)
    ensures
        r == entry_before(x@, y@),
{
    if text_less(x.name.as_str(), y.name.as_str()) {
        true
    } else if crate::peers::str_equal(x.name.as_str(), y.name.as_str()) {
        text_less(x.address.as_str(), y.address.as_str())
    } else {
        false
    }
}

/// Putting `x` in front of the first line of `s` that it is shown above keeps
/// the order, adds `x` once, and puts it after the lines at its place.
proof fn lemma_insert_in_order(s: Seq<EntryView>, j: int, x: EntryView)
    requires
        in_display_order(s),
        0 <= j <= s.len(),
        forall|i: int| 0 <= i < j ==> !entry_before(x, #[trigger] s[i]),
        j < s.len() ==> entry_before(x, s[j]),
    ensures
        in_display_order(s.insert(j, x)),
        s.insert(j, x).to_multiset() == s.to_multiset().insert(x),
        forall|name: Seq<char>, address: Seq<char>|
            #![trigger at_place(name, address)]
            s.insert(j, x).filter(at_place(name, address)) == if at_place(name, address)(x) {
                s.filter(at_place(name, address)).push(x)
            } else {
                s.filter(at_place(name, address))
            },
{
    broadcast use vstd::seq_lib::group_to_multiset_ensures;

    let a = s.take(j);
    let b = s.skip(j);
    let t = s.insert(j, x);
    assert(t =~= a + seq![x] + b);
    assert(s =~= a + b);
    // every line after the insertion point is shown below `x`
    assert forall|i: int| 0 <= i < b.len() implies entry_before(x, #[trigger] b[i]) by {
        if i > 0 {
            lemma_entry_order(x, s[j], s[j + i]);
            lemma_entry_order(s[j + i], s[j], x);
            assert(!entry_before(s[j + i], s[j]));
        }
    }
    assert forall|p: int, q: int| 0 <= p < q < t.len() implies !entry_before(
        #[trigger] t[q],
        #[trigger] t[p],
    ) by {
        if q < j {
        } else if q == j {
            assert(t[q] == x);
            assert(t[p] == s[p]);
        } else if p == j {
            assert(t[p] == x);
            assert(t[q] == b[q - j - 1]);
            lemma_entry_order(x, b[q - j - 1], x);
        } else if p < j {
            assert(t[p] == s[p]);
            assert(t[q] == s[q - 1]);
        } else {
            assert(t[p] == s[p - 1]);
            assert(t[q] == s[q - 1]);
        }
    }
    vstd::seq_lib::lemma_multiset_commutative(a + seq![x], b);
    vstd::seq_lib::lemma_multiset_commutative(a, seq![x]);
    vstd::seq_lib::lemma_multiset_commutative(a, b);
    assert(seq![x].to_multiset() =~= vstd::multiset::Multiset::empty().insert(x)) by {
        assert(seq![x] =~= Seq::<EntryView>::empty().push(x));
    }
    assert forall|name: Seq<char>, address: Seq<char>|
        #![trigger at_place(name, address)]
        t.filter(at_place(name, address)) == if at_place(name, address)(x) {
            s.filter(at_place(name, address)).push(x)
        } else {
            s.filter(at_place(name, address))
        } by {
        let p = at_place(name, address);
        Seq::filter_distributes_over_add(a + seq![x], b, p);
        Seq::filter_distributes_over_add(a, seq![x], p);
        Seq::filter_distributes_over_add(a, b, p);
        Seq::<EntryView>::empty().lemma_filter_push(x, p);
        assert(seq![x] =~= Seq::<EntryView>::empty().push(x));
        assert(Seq::<EntryView>::empty().filter(p) =~= Seq::<EntryView>::empty()) by {
            reveal(Seq::filter);
        }
        if p(x) {
            assert(b.filter(p) =~= Seq::<EntryView>::empty()) by {
                b.lemma_filter_len(p);
                if b.filter(p).len() > 0 {
                    let e = b.filter(p)[0];
                    b.lemma_filter_pred(p, 0);
                    b.lemma_filter_contains_rev(p, e);
                    let i = choose|i: int| 0 <= i < b.len() && b[i] == e;
                    lemma_entry_order(x, b[i], x);
                }
            }
            assert(t.filter(p) =~= s.filter(p).push(x));
        } else {
            assert(t.filter(p) =~= s.filter(p));
        }
    }
}

/// The lobby's lines for `peers`, ordered by name and then by address; lines
/// at the same place keep the order of `peers`.
pub fn peer_entries(peers: &Vec<Peer>) -> (r: Vec<PeerEntry>)
    ensures
        ({
            let shown = r@.map_values(|e: PeerEntry| e@);
            let given = peers@.map_values(|p: Peer| entry_of(p@));
            &&& shown.to_multiset() == given.to_multiset()
            &&& in_display_order(shown)
            &&& forall|name: Seq<char>, address: Seq<char>|
                #![trigger at_place(name, address)]
                shown.filter(at_place(name, address)) == given.filter(at_place(name, address))
        }),
{
    let mut r: Vec<PeerEntry> = Vec::new();
    let ghost given = peers@.map_values(|p: Peer| entry_of(p@));
    let mut k: usize = 0;
    proof {
        broadcast use vstd::seq_lib::group_to_multiset_ensures;
        assert(r@.map_values(|e: PeerEntry| e@) =~= Seq::<EntryView>::empty());
        assert(given.take(0) =~= Seq::<EntryView>::empty());
        assert forall|name: Seq<char>, address: Seq<char>|
            #![trigger at_place(name, address)]
            Seq::<EntryView>::empty().filter(at_place(name, address)) == Seq::<EntryView>::empty() by {
            reveal(Seq::filter);
        }
    }
    while k < peers.len()
        invariant
            k <= peers@.len(),
            given == peers@.map_values(|p: Peer| entry_of(p@)),
            r@.map_values(|e: PeerEntry| e@).to_multiset() == given.take(k as int).to_multiset(),
            in_display_order(r@.map_values(|e: PeerEntry| e@)),
            forall|name: Seq<char>, address: Seq<char>|
                #![trigger at_place(name, address)]
                r@.map_values(|e: PeerEntry| e@).filter(at_place(name, address)) == given.take(
                    k as int,
                ).filter(at_place(name, address)),
        decreases peers@.len() - k,
    {
        let p = &peers[k];
        let x = PeerEntry {
            id: p.id.clone(),
            name: p.name.clone(),
            address: peer_address(p.tcp_ip, p.tcp_port),
        };
        let ghost s = r@.map_values(|e: PeerEntry| e@);
        assert(x@ == given[k as int]);
        let mut j: usize = 0;
        while j < r.len() && !entry_less(&x, &r[j])
            invariant
                j <= r@.len(),
                s == r@.map_values(|e: PeerEntry| e@),
                forall|i: int| 0 <= i < j ==> !entry_before(x@, #[trigger] s[i]),
            decreases r@.len() - j,
        {
            j += 1;
        }
        proof {
            lemma_insert_in_order(s, j as int, x@);
            assert(given.take(k + 1) =~= given.take(k as int).push(x@));
            broadcast use vstd::seq_lib::group_to_multiset_ensures;
            assert forall|name: Seq<char>, address: Seq<char>|
                #![trigger at_place(name, address)]
                given.take(k + 1).filter(at_place(name, address)) == if at_place(name, address)(
                    x@,
                ) {
                    given.take(k as int).filter(at_place(name, address)).push(x@)
                } else {
                    given.take(k as int).filter(at_place(name, address))
                } by {
                given.take(k as int).lemma_filter_push(x@, at_place(name, address));
            }
        }
        r.insert(j, x);
        assert(r@.map_values(|e: PeerEntry| e@) =~= s.insert(j as int, x@));
        k += 1;
    }
    assert(given.take(peers@.len() as int) =~= given);
    r
}

} // verus!
