//! Byte-sequence primitives: lexicographic order, searching, splitting into
//! delimited segments and lines, and trimming. All text handled by this
//! library is modelled as a sequence of bytes; for UTF-8 text, byte order
//! agrees with codepoint order.

use vstd::prelude::*;

verus! {

pub const NUL: u8 = 0;
pub const LF: u8 = 10;
pub const CR: u8 = 13;

/// Lexicographic (byte-wise) order: `a` sorts at or before `b`.
pub open spec fn lex_le(a: Seq<u8>, b: Seq<u8>) -> bool
    decreases a.len(),
{
    if a.len() == 0 {
        true
    } else if b.len() == 0 {
        false
    } else if a[0] < b[0] {
        true
    } else if a[0] > b[0] {
        false
    } else {
        lex_le(a.skip(1), b.skip(1))
    }
}

/// Strict lexicographic order.
pub open spec fn lex_lt(a: Seq<u8>, b: Seq<u8>) -> bool {
    lex_le(a, b) && a != b
}

/// `lex_le` relates every pair of byte sequences one way or the other.
pub proof fn lemma_lex_le_total(a: Seq<u8>, b: Seq<u8>)
    ensures
        lex_le(a, b) || lex_le(b, a),
    decreases a.len(),
{
    if a.len() != 0 && b.len() != 0 && a[0] == b[0] {
        lemma_lex_le_total(a.skip(1), b.skip(1));
    }
}

/// Two sequences each at or before the other are equal.
pub proof fn lemma_lex_le_antisym(a: Seq<u8>, b: Seq<u8>)
    requires
        lex_le(a, b),
        lex_le(b, a),
    ensures
        a == b,
    decreases a.len(),
{
    if a.len() == 0 {
        assert(b.len() == 0);
        assert(a =~= b);
    } else {
        assert(b.len() != 0);
        assert(a[0] == b[0]);
        lemma_lex_le_antisym(a.skip(1), b.skip(1));
        assert(a.len() == b.len());
        assert forall|i: int| 0 <= i < a.len() implies a[i] == b[i] by {
            if i > 0 {
                assert(a.skip(1)[i - 1] == a[i]);
                assert(b.skip(1)[i - 1] == b[i]);
            }
        }
        assert(a =~= b);
    }
}

/// `lex_le` is transitive.
pub proof fn lemma_lex_le_trans(a: Seq<u8>, b: Seq<u8>, c: Seq<u8>)
    requires
        lex_le(a, b),
        lex_le(b, c),
    ensures
        lex_le(a, c),
    decreases a.len(),
{
    if a.len() == 0 {
    } else {
        assert(b.len() != 0);
        assert(c.len() != 0);
        if a[0] == b[0] && b[0] == c[0] {
            lemma_lex_le_trans(a.skip(1), b.skip(1), c.skip(1));
        } else {
            assert(a[0] <= b[0] && b[0] <= c[0] && a[0] < c[0]);
        }
    }
}

/// Dropping an equal prefix of both sides does not change the order.
pub proof fn lemma_lex_le_common(a: Seq<u8>, b: Seq<u8>, i: int)
    requires
        0 <= i <= a.len(),
        i <= b.len(),
        a.subrange(0, i) == b.subrange(0, i),
    ensures
        lex_le(a, b) == lex_le(a.skip(i), b.skip(i)),
    decreases i,
{
    if i == 0 {
        assert(a.skip(0) =~= a);
        assert(b.skip(0) =~= b);
    } else {
        assert(a.subrange(0, i)[0] == a[0]);
        assert(b.subrange(0, i)[0] == b[0]);
        assert(a.skip(1).subrange(0, i - 1) =~= b.skip(1).subrange(0, i - 1)) by {
            assert forall|j: int| 0 <= j < i - 1 implies #[trigger] a.skip(1)[j] == b.skip(1)[j] by {
                assert(a.subrange(0, i)[j + 1] == a[j + 1]);
                assert(b.subrange(0, i)[j + 1] == b[j + 1]);
            }
        }
        lemma_lex_le_common(a.skip(1), b.skip(1), i - 1);
        assert(a.skip(1).skip(i - 1) =~= a.skip(i));
        assert(b.skip(1).skip(i - 1) =~= b.skip(i));
    }
}

/// Index of the first occurrence of `d` in `s`, if any.
pub open spec fn find_byte(s: Seq<u8>, d: u8) -> Option<int>
    decreases s.len(),
{
    if s.len() == 0 {
        None
    } else if s[0] == d {
        Some(0)
    } else {
        match find_byte(s.skip(1), d) {
            Some(i) => Some(i + 1),
            None => None,
        }
    }
}

/// What `find_byte` returns: the first index holding `d`, or `None` when
/// `d` does not occur.
pub proof fn lemma_find_byte_props(s: Seq<u8>, d: u8)
    ensures
        match find_byte(s, d) {
            None => forall|j: int| 0 <= j < s.len() ==> s[j] != d,
            Some(i) => 0 <= i < s.len() && s[i] == d && forall|j: int| 0 <= j < i ==> s[j] != d,
        },
    decreases s.len(),
{
    if s.len() == 0 {
    } else if s[0] == d {
    } else {
        lemma_find_byte_props(s.skip(1), d);
        assert forall|j: int| 1 <= j < s.len() implies s.skip(1)[j - 1] == s[j] by {}
    }
}

/// When the bytes before `i` avoid `d` and `s[i]` is `d`, the first hit is `i`.
pub proof fn lemma_find_byte_some(s: Seq<u8>, d: u8, i: int)
    requires
        0 <= i < s.len(),
        s[i] == d,
        forall|j: int| 0 <= j < i ==> s[j] != d,
    ensures
        find_byte(s, d) == Some(i),
    decreases i,
{
    if i == 0 {
    } else {
        assert forall|j: int| 0 <= j < i - 1 implies s.skip(1)[j] != d by {
            assert(s.skip(1)[j] == s[j + 1]);
        }
        assert(s.skip(1)[i - 1] == s[i]);
        lemma_find_byte_some(s.skip(1), d, i - 1);
    }
}

/// When `d` does not occur in `s`, the search fails.
pub proof fn lemma_find_byte_none(s: Seq<u8>, d: u8)
    requires
        forall|j: int| 0 <= j < s.len() ==> s[j] != d,
    ensures
        find_byte(s, d) == None::<int>,
    decreases s.len(),
{
    if s.len() > 0 {
        assert forall|j: int| 0 <= j < s.len() - 1 implies s.skip(1)[j] != d by {
            assert(s.skip(1)[j] == s[j + 1]);
        }
        lemma_find_byte_none(s.skip(1), d);
    }
}

/// Segments of `s` between occurrences of the delimiter `d`, as Rust's
/// `split`: always at least one segment, and an empty trailing segment when
/// `s` ends with `d`.
pub open spec fn split_by(s: Seq<u8>, d: u8) -> Seq<Seq<u8>>
    decreases s.len(),
    via split_by_decreases
{
    match find_byte(s, d) {
        None => seq![s],
        Some(i) => seq![s.take(i)] + split_by(s.skip(i + 1), d),
    }
}

#[via_fn]
proof fn split_by_decreases(s: Seq<u8>, d: u8) {
    lemma_find_byte_props(s, d);
}

/// Splitting a delimiter-free sequence yields that one segment.
pub proof fn lemma_split_by_absent(s: Seq<u8>, d: u8)
    requires
        forall|j: int| 0 <= j < s.len() ==> s[j] != d,
    ensures
        split_by(s, d) == seq![s],
{
    lemma_find_byte_none(s, d);
}

/// Peeling the first delimiter off: the bytes before it form the first
/// segment and the rest splits on its own.
pub proof fn lemma_split_by_step(u: Seq<u8>, rest: Seq<u8>, d: u8)
    requires
        forall|j: int| 0 <= j < u.len() ==> u[j] != d,
    ensures
        split_by(u + seq![d] + rest, d) == seq![u] + split_by(rest, d),
{
    let s = u + seq![d] + rest;
    assert(s[u.len() as int] == d);
    assert forall|j: int| 0 <= j < u.len() implies s[j] != d by {
        assert(s[j] == u[j]);
    }
    lemma_find_byte_some(s, d, u.len() as int);
    assert(s.take(u.len() as int) =~= u);
    assert(s.skip(u.len() as int + 1) =~= rest);
}

/// A line with a trailing carriage return loses it.
pub open spec fn strip_cr(l: Seq<u8>) -> Seq<u8> {
    if l.len() > 0 && l.last() == CR {
        l.drop_last()
    } else {
        l
    }
}

/// The lines of `s`, as Rust's `str::lines`: split on line feeds, drop a
/// final empty segment, and strip one trailing carriage return per line.
pub open spec fn lines_of(s: Seq<u8>) -> Seq<Seq<u8>> {
    let parts = split_by(s, LF);
    let kept = if parts.len() > 0 && parts.last().len() == 0 {
        parts.drop_last()
    } else {
        parts
    };
    kept.map_values(|l: Seq<u8>| strip_cr(l))
}

/// `s` without its trailing run of `d` bytes.
pub open spec fn trim_trailing(s: Seq<u8>, d: u8) -> Seq<u8>
    decreases s.len(),
{
    if s.len() > 0 && s.last() == d {
        trim_trailing(s.drop_last(), d)
    } else {
        s
    }
}

/// `s` without its leading run of `d` bytes.
pub open spec fn trim_leading(s: Seq<u8>, d: u8) -> Seq<u8>
    decreases s.len(),
{
    if s.len() > 0 && s[0] == d {
        trim_leading(s.skip(1), d)
    } else {
        s
    }
}

/// ASCII whitespace, the bytes Rust's `str::trim` removes from ASCII text.
pub open spec fn is_ws(b: u8) -> bool {
    b == 32 || b == 9 || b == 10 || b == 11 || b == 12 || b == 13
}

/// `s` without its trailing whitespace.
pub open spec fn trim_ws_end(s: Seq<u8>) -> Seq<u8>
    decreases s.len(),
{
    if s.len() > 0 && is_ws(s.last()) {
        trim_ws_end(s.drop_last())
    } else {
        s
    }
}

/// `s` without its leading whitespace.
pub open spec fn trim_ws_start(s: Seq<u8>) -> Seq<u8>
    decreases s.len(),
{
    if s.len() > 0 && is_ws(s[0]) {
        trim_ws_start(s.skip(1))
    } else {
        s
    }
}

/// `s` without leading and trailing whitespace.
pub open spec fn trim_ws(s: Seq<u8>) -> Seq<u8> {
    trim_ws_end(trim_ws_start(s))
}

// ---------------------------------------------------------------------------
// Executable counterparts
// ---------------------------------------------------------------------------

/// The bytes of `s` from `from` (inclusive) to `to` (exclusive).
pub fn subvec(s: &Vec<u8>, from: usize, to: usize) -> (r: Vec<u8>)
    requires
        from <= to <= s@.len(),
    ensures
        r@ == s@.subrange(from as int, to as int),
{
    let mut r: Vec<u8> = Vec::new();
    let mut i: usize = from;
    while i < to
        invariant
            from <= i <= to <= s@.len(),
            r@ =~= s@.subrange(from as int, i as int),
        decreases to - i,
    {
        r.push(s[i]);
        i = i + 1;
        assert(r@ =~= s@.subrange(from as int, i as int));
    }
    r
}

/// Appends all of `src` to `dst`.
pub fn push_all(dst: &mut Vec<u8>, src: &Vec<u8>)
    ensures
        final(dst)@ == old(dst)@ + src@,
{
    let mut i: usize = 0;
    while i < src.len()
        invariant
            i <= src@.len(),
            dst@ =~= old(dst)@ + src@.subrange(0, i as int),
        decreases src@.len() - i,
    {
        dst.push(src[i]);
        i = i + 1;
        assert(dst@ =~= old(dst)@ + src@.subrange(0, i as int));
    }
    assert(src@.subrange(0, src@.len() as int) =~= src@);
}

/// Position of the first occurrence of `d` in `s`, if any.
pub fn find_byte_vec(s: &Vec<u8>, d: u8) -> (r: Option<usize>)
    ensures
        match r {
            Some(i) => find_byte(s@, d) == Some(i as int),
            None => find_byte(s@, d) == None::<int>,
        },
{
    let mut i: usize = 0;
    while i < s.len()
        invariant
            i <= s@.len(),
            forall|j: int| 0 <= j < i ==> s@[j] != d,
        decreases s@.len() - i,
    {
        if s[i] == d {
            proof {
                lemma_find_byte_some(s@, d, i as int);
            }
            return Some(i);
        }
        i = i + 1;
    }
    proof {
        lemma_find_byte_none(s@, d);
    }
    None
}

/// Whether `a` and `b` hold the same bytes.
pub fn bytes_eq(a: &Vec<u8>, b: &Vec<u8>) -> (r: bool)
    ensures
        r == (a@ == b@),
{
    if a.len() != b.len() {
        return false;
    }
    let mut i: usize = 0;
    while i < a.len()
        invariant
            i <= a@.len(),
            a@.len() == b@.len(),
            forall|j: int| 0 <= j < i ==> a@[j] == b@[j],
        decreases a@.len() - i,
    {
        if a[i] != b[i] {
            return false;
        }
        i = i + 1;
    }
    assert(a@ =~= b@);
    true
}

/// Whether `a` sorts at or before `b` in lexicographic byte order.
pub fn bytes_le(a: &Vec<u8>, b: &Vec<u8>) -> (r: bool)
    ensures
        r == lex_le(a@, b@),
{
    let n = if a.len() < b.len() {
        a.len()
    } else {
        b.len()
    };
    let mut i: usize = 0;
    while i < n
        invariant
            i <= n,
            n == if a@.len() < b@.len() {
                a@.len()
            } else {
                b@.len()
            },
            a@.subrange(0, i as int) =~= b@.subrange(0, i as int),
        decreases n - i,
    {
        proof {
            lemma_lex_le_common(a@, b@, i as int);
        }
        if a[i] < b[i] {
            assert(lex_le(a@.skip(i as int), b@.skip(i as int)));
            return true;
        }
        if a[i] > b[i] {
            assert(!lex_le(a@.skip(i as int), b@.skip(i as int)));
            return false;
        }
        i = i + 1;
        assert(a@.subrange(0, i as int) =~= b@.subrange(0, i as int));
    }
    proof {
        lemma_lex_le_common(a@, b@, i as int);
        if a@.len() <= b@.len() {
            assert(a@.skip(i as int) =~= Seq::<u8>::empty());
        } else {
            assert(a@.skip(i as int).len() > 0);
            assert(b@.skip(i as int).len() == 0);
        }
    }
    a.len() <= b.len()
}

/// Whether `p` is a prefix of `s`.
pub fn starts_with(s: &Vec<u8>, p: &Vec<u8>) -> (r: bool)
    ensures
        r == p@.is_prefix_of(s@),
{
    if p.len() > s.len() {
        return false;
    }
    let mut i: usize = 0;
    while i < p.len()
        invariant
            i <= p@.len() <= s@.len(),
            forall|j: int| 0 <= j < i ==> s@[j] == p@[j],
        decreases p@.len() - i,
    {
        if s[i] != p[i] {
            assert(s@.subrange(0, p@.len() as int)[i as int] != p@[i as int]);
            return false;
        }
        i = i + 1;
    }
    assert(p@ =~= s@.subrange(0, p@.len() as int));
    true
}

/// Whether `p` is a suffix of `s`.
pub fn ends_with(s: &Vec<u8>, p: &Vec<u8>) -> (r: bool)
    ensures
        r == p@.is_suffix_of(s@),
{
    if p.len() > s.len() {
        return false;
    }
    let n = s.len();
    let off = n - p.len();
    let mut i: usize = 0;
    while i < p.len()
        invariant
            i <= p@.len() <= s@.len(),
            n == s@.len(),
            off == s@.len() - p@.len(),
            forall|j: int| 0 <= j < i ==> s@[off + j] == p@[j],
        decreases p@.len() - i,
    {
        assert(off + i < n);
        if s[off + i] != p[i] {
            assert(s@.subrange(off as int, s@.len() as int)[i as int] != p@[i as int]);
            return false;
        }
        i = i + 1;
    }
    assert(p@ =~= s@.subrange(off as int, s@.len() as int));
    true
}

/// Splits `s` into the segments between occurrences of `d`.
pub fn split_bytes(s: &Vec<u8>, d: u8) -> (r: Vec<Vec<u8>>)
    ensures
        r.deep_view() == split_by(s@, d),
{
    let mut r: Vec<Vec<u8>> = Vec::new();
    let mut cur: Vec<u8> = Vec::new();
    let ghost mut start: int = 0;
    let mut i: usize = 0;
    assert(s@.skip(0) =~= s@);
    while i < s.len()
        invariant
            0 <= start <= i <= s@.len(),
            cur@ =~= s@.subrange(start, i as int),
            forall|j: int| start <= j < i ==> s@[j] != d,
            split_by(s@, d) =~~= r.deep_view() + split_by(s@.skip(start), d),
        decreases s@.len() - i,
    {
        let b = s[i];
        if b == d {
            proof {
                assert(s@.skip(start) =~= cur@ + seq![d] + s@.skip(i as int + 1));
                lemma_split_by_step(cur@, s@.skip(i as int + 1), d);
            }
            let ghost old_r = r.deep_view();
            r.push(cur);
            assert(r.deep_view() =~~= old_r.push(cur@));
            cur = Vec::new();
            proof {
                start = i as int + 1;
            }
        } else {
            cur.push(b);
        }
        i = i + 1;
        assert(cur@ =~= s@.subrange(start, i as int));
    }
    proof {
        assert(s@.skip(start) =~= cur@);
        lemma_split_by_absent(cur@, d);
    }
    let ghost old_r = r.deep_view();
    r.push(cur);
    assert(r.deep_view() =~~= old_r.push(cur@));
    r
}

/// Splits `s` into its lines, as Rust's `str::lines`.
pub fn lines_bytes(s: &Vec<u8>) -> (r: Vec<Vec<u8>>)
    ensures
        r.deep_view() == lines_of(s@),
{
    let mut parts = split_bytes(s, LF);
    let ghost all = parts.deep_view();
    assert(all.len() > 0) by {
        lemma_find_byte_props(s@, LF);
    }
    let last_empty = parts[parts.len() - 1].len() == 0;
    if last_empty {
        parts.pop();
        assert(parts.deep_view() =~~= all.drop_last());
    }
    let ghost kept = parts.deep_view();
    assert(kept =~~= (if all.last().len() == 0 {
        all.drop_last()
    } else {
        all
    }));
    let mut r: Vec<Vec<u8>> = Vec::new();
    let mut i: usize = 0;
    while i < parts.len()
        invariant
            i <= parts@.len(),
            kept == parts.deep_view(),
            r.deep_view().len() == i,
            forall|j: int| 0 <= j < i ==> r.deep_view()[j] == strip_cr(kept[j]),
        decreases parts@.len() - i,
    {
        let line = &parts[i];
        let ghost old_r = r.deep_view();
        if line.len() > 0 && line[line.len() - 1] == CR {
            let stripped = subvec(line, 0, line.len() - 1);
            assert(stripped@ =~= line@.drop_last());
            r.push(stripped);
        } else {
            let copy = subvec(line, 0, line.len());
            assert(copy@ =~= line@);
            r.push(copy);
        }
        assert(r.deep_view() =~~= old_r.push(r.deep_view().last()));
        assert(parts.deep_view()[i as int] == parts@[i as int]@);
        i = i + 1;
    }
    assert(r.deep_view() =~~= kept.map_values(|l: Seq<u8>| strip_cr(l)));
    r
}

/// `s` without its trailing run of `d` bytes.
pub fn trim_trailing_bytes(s: &Vec<u8>, d: u8) -> (r: Vec<u8>)
    ensures
        r@ == trim_trailing(s@, d),
{
    let mut end: usize = s.len();
    assert(s@.take(s@.len() as int) =~= s@);
    while end > 0 && s[end - 1] == d
        invariant
            end <= s@.len(),
            trim_trailing(s@, d) == trim_trailing(s@.take(end as int), d),
        decreases end,
    {
        assert(s@.take(end as int).last() == d);
        assert(s@.take(end as int).drop_last() =~= s@.take(end as int - 1));
        end = end - 1;
    }
    assert(s@.take(end as int) =~= trim_trailing(s@.take(end as int), d));
    subvec(s, 0, end)
}

/// `s` without its leading run of `d` bytes.
pub fn trim_leading_bytes(s: &Vec<u8>, d: u8) -> (r: Vec<u8>)
    ensures
        r@ == trim_leading(s@, d),
{
    let mut start: usize = 0;
    assert(s@.skip(0) =~= s@);
    while start < s.len() && s[start] == d
        invariant
            start <= s@.len(),
            trim_leading(s@, d) == trim_leading(s@.skip(start as int), d),
        decreases s@.len() - start,
    {
        assert(s@.skip(start as int)[0] == d);
        assert(s@.skip(start as int).skip(1) =~= s@.skip(start as int + 1));
        start = start + 1;
    }
    assert(s@.skip(start as int) =~= trim_leading(s@.skip(start as int), d));
    subvec(s, start, s.len())
}

/// Whether `b` is ASCII whitespace.
pub fn is_ws_byte(b: u8) -> (r: bool)
    ensures
        r == is_ws(b),
{
    b == 32 || b == 9 || b == 10 || b == 11 || b == 12 || b == 13
}

/// `s` without leading and trailing ASCII whitespace.
pub fn trim_ws_bytes(s: &Vec<u8>) -> (r: Vec<u8>)
    ensures
        r@ == trim_ws(s@),
{
    let mut start: usize = 0;
    assert(s@.skip(0) =~= s@);
    while start < s.len() && is_ws_byte(s[start])
        invariant
            start <= s@.len(),
            trim_ws_start(s@) == trim_ws_start(s@.skip(start as int)),
        decreases s@.len() - start,
    {
        assert(s@.skip(start as int).skip(1) =~= s@.skip(start as int + 1));
        start = start + 1;
    }
    assert(s@.skip(start as int) =~= trim_ws_start(s@));
    let mut end: usize = s.len();
    while end > start && is_ws_byte(s[end - 1])
        invariant
            start <= end <= s@.len(),
            s@.skip(start as int) == trim_ws_start(s@),
            trim_ws_end(trim_ws_start(s@)) == trim_ws_end(
                s@.subrange(start as int, end as int),
            ),
        decreases end,
    {
        assert(s@.subrange(start as int, end as int).last() == s@[end - 1]);
        assert(s@.subrange(start as int, end as int).drop_last() =~= s@.subrange(
            start as int,
            end as int - 1,
        ));
        end = end - 1;
    }
    assert(s@.subrange(start as int, end as int) =~= trim_ws_end(
        s@.subrange(start as int, end as int),
    ));
    subvec(s, start, end)
}

} // verus!
