//! Parsing one descriptor file into an application record.
//!
//! A descriptor is line-oriented `Key=Value` text. Three keys are
//! recognized: the name, the description (`Comment`), and the launch
//! command (`Exec`). For each key the first matching line anywhere in the
//! file wins; sectioning of the file is deliberately not honored. A file
//! that yields no name or no launch command yields no record; a missing
//! description is replaced by a fixed placeholder.

use vstd::prelude::*;

use crate::bytes::lines_of;
use crate::bytes::lines_bytes;
use crate::bytes::subvec;
use crate::bytes::starts_with;
use crate::record::App;
use crate::record::AppView;

verus! {

/// The bytes of `"Name="`.
pub open spec fn name_prefix() -> Seq<u8> {
    seq!['N' as u8, 'a' as u8, 'm' as u8, 'e' as u8, '=' as u8]
}

/// The bytes of `"Comment="`.
pub open spec fn comment_prefix() -> Seq<u8> {
    seq![
        'C' as u8,
        'o' as u8,
        'm' as u8,
        'm' as u8,
        'e' as u8,
        'n' as u8,
        't' as u8,
        '=' as u8,
    ]
}

/// The bytes of `"Exec="`.
pub open spec fn exec_prefix() -> Seq<u8> {
    seq!['E' as u8, 'x' as u8, 'e' as u8, 'c' as u8, '=' as u8]
}

/// The bytes of `"No description available"`, the placeholder description.
pub open spec fn default_desc() -> Seq<u8> {
    seq![
        'N' as u8,
        'o' as u8,
        ' ' as u8,
        'd' as u8,
        'e' as u8,
        's' as u8,
        'c' as u8,
        'r' as u8,
        'i' as u8,
        'p' as u8,
        't' as u8,
        'i' as u8,
        'o' as u8,
        'n' as u8,
        ' ' as u8,
        'a' as u8,
        'v' as u8,
        'a' as u8,
        'i' as u8,
        'l' as u8,
        'a' as u8,
        'b' as u8,
        'l' as u8,
        'e' as u8,
    ]
}

/// The bytes of `"Name="`.
pub fn name_prefix_vec() -> (r: Vec<u8>)
    ensures
        r@ == name_prefix(),
{
    let v: Vec<u8> = vec!['N' as u8, 'a' as u8, 'm' as u8, 'e' as u8, '=' as u8];
    assert(v@ =~= name_prefix());
    v
}

/// The bytes of `"Comment="`.
pub fn comment_prefix_vec() -> (r: Vec<u8>)
    ensures
        r@ == comment_prefix(),
{
    let v: Vec<u8> = vec![
        'C' as u8,
        'o' as u8,
        'm' as u8,
        'm' as u8,
        'e' as u8,
        'n' as u8,
        't' as u8,
        '=' as u8,
    ];
    assert(v@ =~= comment_prefix());
    v
}

/// The bytes of `"Exec="`.
pub fn exec_prefix_vec() -> (r: Vec<u8>)
    ensures
        r@ == exec_prefix(),
{
    let v: Vec<u8> = vec!['E' as u8, 'x' as u8, 'e' as u8, 'c' as u8, '=' as u8];
    assert(v@ =~= exec_prefix());
    v
}

/// The bytes of the placeholder description.
pub fn default_desc_vec() -> (r: Vec<u8>)
    ensures
        r@ == default_desc(),
{
    let v: Vec<u8> = vec![
        'N' as u8,
        'o' as u8,
        ' ' as u8,
        'd' as u8,
        'e' as u8,
        's' as u8,
        'c' as u8,
        'r' as u8,
        'i' as u8,
        'p' as u8,
        't' as u8,
        'i' as u8,
        'o' as u8,
        'n' as u8,
        ' ' as u8,
        'a' as u8,
        'v' as u8,
        'a' as u8,
        'i' as u8,
        'l' as u8,
        'a' as u8,
        'b' as u8,
        'l' as u8,
        'e' as u8,
    ];
    assert(v@ =~= default_desc());
    v
}

/// The value of the first line of `ls` that begins with `p`, with the
/// prefix removed; `None` when no line does.
pub open spec fn first_with_prefix(ls: Seq<Seq<u8>>, p: Seq<u8>) -> Option<Seq<u8>>
    decreases ls.len(),
{
    if ls.len() == 0 {
        None
    } else if p.is_prefix_of(ls[0]) {
        Some(ls[0].skip(p.len() as int))
    } else {
        first_with_prefix(ls.skip(1), p)
    }
}

/// Appending a line changes nothing when an earlier line already matched,
/// and otherwise contributes its own value exactly when it carries the
/// prefix.
pub proof fn lemma_first_with_prefix_push(ls: Seq<Seq<u8>>, p: Seq<u8>, x: Seq<u8>)
    ensures
        first_with_prefix(ls.push(x), p) == (match first_with_prefix(ls, p) {
            Some(v) => Some(v),
            None => if p.is_prefix_of(x) {
                Some(x.skip(p.len() as int))
            } else {
                None
            },
        }),
    decreases ls.len(),
{
    let lp = ls.push(x);
    assert(lp.len() == ls.len() + 1);
    if ls.len() == 0 {
        assert(lp[0] == x);
        if p.is_prefix_of(x) {
            assert(first_with_prefix(lp, p) == Some(x.skip(p.len() as int)));
        } else {
            assert(lp.skip(1) =~= Seq::<Seq<u8>>::empty());
            assert(first_with_prefix(lp, p) == first_with_prefix(lp.skip(1), p));
            assert(first_with_prefix(lp, p) is None);
        }
    } else {
        assert(lp[0] == ls[0]);
        assert(lp.skip(1) =~= ls.skip(1).push(x));
        lemma_first_with_prefix_push(ls.skip(1), p, x);
        if p.is_prefix_of(ls[0]) {
            assert(first_with_prefix(lp, p) == Some(ls[0].skip(p.len() as int)));
            assert(first_with_prefix(ls, p) == Some(ls[0].skip(p.len() as int)));
        } else {
            assert(first_with_prefix(lp, p) == first_with_prefix(ls.skip(1).push(x), p));
            assert(first_with_prefix(ls, p) == first_with_prefix(ls.skip(1), p));
        }
    }
}

/// The record a descriptor file's bytes denote, if any: first-match-wins
/// for each of the three fields over all lines, `None` without both a name
/// line and a launch-command line, and the placeholder description when no
/// description line occurs.
pub open spec fn parse_data_spec(raw: Seq<u8>) -> Option<AppView> {
    let ls = lines_of(raw);
    match (first_with_prefix(ls, name_prefix()), first_with_prefix(ls, exec_prefix())) {
        (Some(n), Some(e)) => Some(
            AppView {
                name: n,
                desc: match first_with_prefix(ls, comment_prefix()) {
                    Some(c) => c,
                    None => default_desc(),
                },
                cmd: e,
            },
        ),
        _ => None,
    }
}

/// Parsing is first-match-wins: when line `i` is the earliest line that
/// bears the prefix, the parsed value is line `i`'s, whatever any later
/// line says and wherever the lines stand in the file's section structure.
pub proof fn lemma_first_match_wins(ls: Seq<Seq<u8>>, p: Seq<u8>, i: int)
    requires
        0 <= i < ls.len(),
        p.is_prefix_of(ls[i]),
        forall|k: int| 0 <= k < i ==> !p.is_prefix_of(#[trigger] ls[k]),
    ensures
        first_with_prefix(ls, p) == Some(ls[i].skip(p.len() as int)),
    decreases i,
{
    if i > 0 {
        assert(!p.is_prefix_of(ls[0]));
        assert forall|k: int| 0 <= k < i - 1 implies !p.is_prefix_of(#[trigger] ls.skip(1)[k]) by {
            assert(ls.skip(1)[k] == ls[k + 1]);
        }
        assert(ls.skip(1)[i - 1] == ls[i]);
        lemma_first_match_wins(ls.skip(1), p, i - 1);
    }
}

/// A record parsed from a file with no description line carries the
/// placeholder description.
pub proof fn lemma_missing_desc_gets_default(raw: Seq<u8>)
    requires
        parse_data_spec(raw) is Some,
        first_with_prefix(lines_of(raw), comment_prefix()) is None,
    ensures
        parse_data_spec(raw)->Some_0.desc == default_desc(),
{
}

/// The tail of `s` after prefix `p`, when `p` is a prefix of `s`.
fn strip_prefix_bytes(s: &Vec<u8>, p: &Vec<u8>) -> (r: Option<Vec<u8>>)
    ensures
        match r {
            Some(v) => p@.is_prefix_of(s@) && v@ == s@.skip(p@.len() as int),
            None => !p@.is_prefix_of(s@),
        },
{
    if starts_with(s, p) {
        let v = subvec(s, p.len(), s.len());
        assert(v@ =~= s@.skip(p@.len() as int));
        Some(v)
    } else {
        None
    }
}

/// The view of an optional owned byte string.
pub open spec fn opt_view(o: Option<Vec<u8>>) -> Option<Seq<u8>> {
    match o {
        Some(v) => Some(v@),
        None => None,
    }
}

/// Parses one descriptor file's bytes into an application record.
/// Succeeds exactly when the file yields a name and a launch command.
pub fn parse_data(raw: &Vec<u8>) -> (r: Result<App, ()>)
    ensures
        (r is Ok) == (parse_data_spec(raw@) is Some),
        r is Ok ==> r->Ok_0@ == parse_data_spec(raw@)->Some_0,
{
    let ls = lines_bytes(raw);
    let ghost ld = ls.deep_view();
    let np = name_prefix_vec();
    let cp = comment_prefix_vec();
    let ep = exec_prefix_vec();
    let mut name: Option<Vec<u8>> = None;
    let mut desc: Option<Vec<u8>> = None;
    let mut cmd: Option<Vec<u8>> = None;
    let mut i: usize = 0;
    assert(ld.take(0) =~= Seq::<Seq<u8>>::empty());
    while i < ls.len()
        invariant
            i <= ls@.len(),
            ld == ls.deep_view(),
            np@ == name_prefix(),
            cp@ == comment_prefix(),
            ep@ == exec_prefix(),
            opt_view(name) == first_with_prefix(ld.take(i as int), name_prefix()),
            opt_view(desc) == first_with_prefix(ld.take(i as int), comment_prefix()),
            opt_view(cmd) == first_with_prefix(ld.take(i as int), exec_prefix()),
        decreases ls@.len() - i,
    {
        let line = &ls[i];
        assert(ld[i as int] == line@);
        proof {
            lemma_first_with_prefix_push(ld.take(i as int), name_prefix(), ld[i as int]);
            lemma_first_with_prefix_push(ld.take(i as int), comment_prefix(), ld[i as int]);
            lemma_first_with_prefix_push(ld.take(i as int), exec_prefix(), ld[i as int]);
            assert(ld.take(i as int + 1) =~= ld.take(i as int).push(ld[i as int]));
        }
        if name.is_none() {
            name = strip_prefix_bytes(line, &np);
        }
        if desc.is_none() {
            desc = strip_prefix_bytes(line, &cp);
        }
        if cmd.is_none() {
            cmd = strip_prefix_bytes(line, &ep);
        }
        i = i + 1;
    }
    assert(ld.take(ls@.len() as int) =~= ld);
    match (name, cmd) {
        (Some(n), Some(e)) => {
            let d = match desc {
                Some(d) => d,
                None => default_desc_vec(),
            };
            Ok(App::new(n, d, e))
        },
        _ => Err(()),
    }
}

} // verus!
