//! The selector bridge's pure core: serializing the record collection to
//! the null-delimited wire form, re-parsing that form, decoding the
//! selector's output, and stripping placeholder tokens from the chosen
//! command.

use vstd::prelude::*;

use crate::bytes::LF;
use crate::bytes::NUL;
use crate::bytes::find_byte;
use crate::bytes::find_byte_vec;
use crate::bytes::lemma_find_byte_some;
use crate::bytes::lemma_find_byte_none;
use crate::bytes::lemma_find_byte_props;
use crate::bytes::lemma_split_by_step;
use crate::bytes::lemma_split_by_absent;
use crate::bytes::lines_of;
use crate::bytes::lines_bytes;
use crate::bytes::push_all;
use crate::bytes::split_by;
use crate::bytes::split_bytes;
use crate::bytes::subvec;
use crate::bytes::trim_leading;
use crate::bytes::trim_leading_bytes;
use crate::bytes::trim_trailing;
use crate::bytes::trim_trailing_bytes;
use crate::bytes::trim_ws;
use crate::bytes::trim_ws_start;
use crate::bytes::trim_ws_end;
use crate::bytes::trim_ws_bytes;
use crate::record::App;
use crate::record::AppView;

verus! {

/// The bytes of one record on the wire, before its terminator: the launch
/// command, the name, and the description, separated by line feeds.
pub open spec fn wire_body(a: AppView) -> Seq<u8> {
    a.cmd + seq![LF] + a.name + seq![LF] + a.desc
}

/// One record on the wire: its body followed by the null terminator.
pub open spec fn wire_record(a: AppView) -> Seq<u8> {
    wire_body(a) + seq![NUL]
}

/// The whole collection on the wire: the records' bytes, in order.
pub open spec fn wire_of(apps: Seq<AppView>) -> Seq<u8>
    decreases apps.len(),
{
    if apps.len() == 0 {
        Seq::empty()
    } else {
        wire_record(apps[0]) + wire_of(apps.skip(1))
    }
}

/// One more record appends its bytes.
pub proof fn lemma_wire_of_push(apps: Seq<AppView>, x: AppView)
    ensures
        wire_of(apps.push(x)) == wire_of(apps) + wire_record(x),
    decreases apps.len(),
{
    let ap = apps.push(x);
    if apps.len() == 0 {
        reveal_with_fuel(wire_of, 3);
        assert(ap[0] == x);
        assert(ap.skip(1) =~= Seq::<AppView>::empty());
        assert(wire_of(ap) =~= wire_record(x));
        assert(wire_of(apps) + wire_record(x) =~= wire_record(x));
    } else {
        assert(ap[0] == apps[0]);
        assert(ap.skip(1) =~= apps.skip(1).push(x));
        lemma_wire_of_push(apps.skip(1), x);
        assert(wire_of(ap) =~= wire_of(apps) + wire_record(x));
    }
}

/// Serializes the collection to the null-delimited wire form.
pub fn serialize_apps(apps: &Vec<App>) -> (r: Vec<u8>)
    ensures
        r@ == wire_of(apps.deep_view()),
{
    let ghost ad = apps.deep_view();
    let mut r: Vec<u8> = Vec::new();
    let mut i: usize = 0;
    assert(ad.take(0) =~= Seq::<AppView>::empty());
    assert(r@ =~= wire_of(ad.take(0)));
    while i < apps.len()
        invariant
            i <= apps@.len(),
            ad == apps.deep_view(),
            r@ == wire_of(ad.take(i as int)),
        decreases apps@.len() - i,
    {
        proof {
            lemma_wire_of_push(ad.take(i as int), ad[i as int]);
            assert(ad.take(i as int + 1) =~= ad.take(i as int).push(ad[i as int]));
        }
        let a = &apps[i];
        assert(apps.deep_view()[i as int] == apps@[i as int]@);
        push_all(&mut r, a.cmd());
        r.push(LF);
        push_all(&mut r, a.name());
        r.push(LF);
        push_all(&mut r, a.desc());
        r.push(NUL);
        assert(r@ =~= wire_of(ad.take(i as int)) + wire_record(ad[i as int]));
        i = i + 1;
    }
    assert(ad.take(apps@.len() as int) =~= ad);
    r
}

/// The bytes before the first line feed, and the bytes after it; the whole
/// sequence and nothing when no line feed occurs.
pub open spec fn split_first_line(s: Seq<u8>) -> (Seq<u8>, Seq<u8>) {
    match find_byte(s, LF) {
        None => (s, Seq::empty()),
        Some(i) => (s.take(i), s.skip(i + 1)),
    }
}

/// Splitting at the first line feed of `u + LF + rest` yields `u` and
/// `rest` when `u` is free of line feeds.
pub proof fn lemma_split_first_line_concat(u: Seq<u8>, rest: Seq<u8>)
    requires
        forall|j: int| 0 <= j < u.len() ==> u[j] != LF,
    ensures
        split_first_line(u + seq![LF] + rest) == (u, rest),
{
    let s = u + seq![LF] + rest;
    assert(s[u.len() as int] == LF);
    assert forall|j: int| 0 <= j < u.len() implies s[j] != LF by {
        assert(s[j] == u[j]);
    }
    lemma_find_byte_some(s, LF, u.len() as int);
    assert(s.take(u.len() as int) =~= u);
    assert(s.skip(u.len() as int + 1) =~= rest);
}

/// The record one wire segment denotes: first line the launch command,
/// second line the name, remainder the description.
pub open spec fn parse_wire_record(seg: Seq<u8>) -> AppView {
    let (c, rest) = split_first_line(seg);
    let (n, d) = split_first_line(rest);
    AppView { name: n, desc: d, cmd: c }
}

/// The records a wire byte stream denotes: segments between null bytes, a
/// final empty segment dropped, each segment read as one record.
pub open spec fn parse_wire_spec(s: Seq<u8>) -> Seq<AppView> {
    if s.len() == 0 {
        Seq::empty()
    } else {
        let parts = split_by(s, NUL);
        let kept = if parts.len() > 0 && parts.last().len() == 0 {
            parts.drop_last()
        } else {
            parts
        };
        kept.map_values(|seg: Seq<u8>| parse_wire_record(seg))
    }
}

/// A record that the wire form carries faithfully: no field holds a null
/// byte, and the single-line fields hold no line feed. The description may
/// hold line feeds; it is the final, unbounded field of its record.
pub open spec fn wire_safe(a: AppView) -> bool {
    &&& forall|j: int| 0 <= j < a.cmd.len() ==> #[trigger] a.cmd[j] != NUL && a.cmd[j] != LF
    &&& forall|j: int| 0 <= j < a.name.len() ==> #[trigger] a.name[j] != NUL && a.name[j] != LF
    &&& forall|j: int| 0 <= j < a.desc.len() ==> #[trigger] a.desc[j] != NUL
}

/// A wire-safe record's body is free of null bytes.
proof fn lemma_wire_body_nul_free(a: AppView)
    requires
        wire_safe(a),
    ensures
        forall|j: int| 0 <= j < wire_body(a).len() ==> #[trigger] wire_body(a)[j] != NUL,
{
    let b = wire_body(a);
    let cl = a.cmd.len() as int;
    let nl = a.name.len() as int;
    assert forall|j: int| 0 <= j < b.len() implies #[trigger] b[j] != NUL by {
        if j < cl {
            assert(b[j] == a.cmd[j]);
        } else if j == cl {
            assert(b[j] == LF);
        } else if j < cl + 1 + nl {
            assert(b[j] == a.name[j - cl - 1]);
        } else if j == cl + 1 + nl {
            assert(b[j] == LF);
        } else {
            assert(b[j] == a.desc[j - cl - nl - 2]);
        }
    }
}

/// Reading a wire-safe record's body recovers the record.
proof fn lemma_parse_wire_body(a: AppView)
    requires
        wire_safe(a),
    ensures
        parse_wire_record(wire_body(a)) == a,
{
    let tail = a.name + seq![LF] + a.desc;
    assert(wire_body(a) =~= a.cmd + seq![LF] + tail);
    lemma_split_first_line_concat(a.cmd, tail);
    lemma_split_first_line_concat(a.name, a.desc);
    assert(parse_wire_record(wire_body(a)) =~= a);
}

/// The wire stream of a non-empty collection is non-empty.
proof fn lemma_wire_of_len(apps: Seq<AppView>)
    ensures
        apps.len() > 0 ==> wire_of(apps).len() > 0,
{
    if apps.len() > 0 {
        assert(wire_of(apps) == wire_record(apps[0]) + wire_of(apps.skip(1)));
        assert(wire_record(apps[0]).len() > 0);
    }
}

/// The wire form loses nothing: re-parsing the serialized bytes of any
/// collection of wire-safe records recovers the same records, in the same
/// order.
pub proof fn lemma_wire_round_trip(apps: Seq<AppView>)
    requires
        forall|k: int| 0 <= k < apps.len() ==> wire_safe(#[trigger] apps[k]),
    ensures
        parse_wire_spec(wire_of(apps)) == apps,
    decreases apps.len(),
{
    if apps.len() == 0 {
        assert(parse_wire_spec(wire_of(apps)) =~= apps);
    } else {
        let a0 = apps[0];
        let rest = apps.skip(1);
        let body = wire_body(a0);
        let tail = wire_of(rest);
        assert(wire_of(apps) == wire_record(a0) + tail);
        assert(wire_of(apps) =~= body + seq![NUL] + tail);
        lemma_wire_body_nul_free(a0);
        lemma_split_by_step(body, tail, NUL);
        let parts = split_by(wire_of(apps), NUL);
        assert(parts == seq![body] + split_by(tail, NUL));
        lemma_parse_wire_body(a0);
        assert forall|k: int| 0 <= k < rest.len() implies wire_safe(#[trigger] rest[k]) by {
            assert(rest[k] == apps[k + 1]);
        }
        lemma_wire_round_trip(rest);
        assert(wire_of(apps).len() > 0);
        if rest.len() == 0 {
            assert(tail =~= Seq::<u8>::empty());
            assert forall|j: int| 0 <= j < tail.len() implies tail[j] != NUL by {}
            lemma_split_by_absent(tail, NUL);
            assert(parts =~~= seq![body, Seq::<u8>::empty()]);
            assert(parts.last().len() == 0);
            assert(parts.drop_last() =~~= seq![body]);
            assert(parse_wire_spec(wire_of(apps)) =~~= seq![body].map_values(
                |seg: Seq<u8>| parse_wire_record(seg),
            ));
            assert(seq![body].map_values(|seg: Seq<u8>| parse_wire_record(seg))[0]
                == parse_wire_record(body));
            assert(parse_wire_spec(wire_of(apps)) =~~= apps);
        } else {
            lemma_wire_of_len(rest);
            assert(tail.len() > 0);
            let parts2 = split_by(tail, NUL);
            crate::bytes::lemma_find_byte_props(tail, NUL);
            assert(parts2.len() >= 1);
            assert(parts.len() == 1 + parts2.len());
            assert(parts.last() == parts2.last());
            let kept2 = if parts2.last().len() == 0 {
                parts2.drop_last()
            } else {
                parts2
            };
            let kept = if parts.last().len() == 0 {
                parts.drop_last()
            } else {
                parts
            };
            assert(kept =~~= seq![body] + kept2) by {
                if parts.last().len() == 0 {
                    assert(parts.drop_last() =~~= seq![body] + parts2.drop_last());
                }
            }
            let f = |seg: Seq<u8>| parse_wire_record(seg);
            assert(parse_wire_spec(tail) == kept2.map_values(f));
            assert(kept.map_values(f) =~~= seq![a0] + kept2.map_values(f)) by {
                assert(kept.map_values(f).len() == 1 + kept2.len());
                assert(kept[0] == body);
                assert(kept.map_values(f)[0] == parse_wire_record(body));
                assert forall|j: int| 1 <= j < kept.len() implies kept.map_values(f)[j]
                    == kept2.map_values(f)[j - 1] by {
                    assert(kept[j] == kept2[j - 1]);
                }
            }
            assert(parse_wire_spec(wire_of(apps)) == kept.map_values(f));
            assert(seq![a0] + rest =~= apps);
            assert(parse_wire_spec(wire_of(apps)) =~~= apps);
        }
    }
}

/// Splits `s` at its first line feed.
fn split_first_line_vec(s: &Vec<u8>) -> (r: (Vec<u8>, Vec<u8>))
    ensures
        r.0@ == split_first_line(s@).0,
        r.1@ == split_first_line(s@).1,
{
    match find_byte_vec(s, LF) {
        Some(i) => {
            proof {
                lemma_find_byte_props(s@, LF);
            }
            let n = s.len();
            assert(i < n);
            let a = subvec(s, 0, i);
            let b = subvec(s, i + 1, n);
            assert(a@ =~= s@.take(i as int));
            assert(b@ =~= s@.skip(i as int + 1));
            (a, b)
        },
        None => {
            let a = subvec(s, 0, s.len());
            assert(a@ =~= s@);
            (a, Vec::new())
        },
    }
}

/// Reads a null-delimited wire byte stream back into records.
pub fn parse_wire(s: &Vec<u8>) -> (r: Vec<App>)
    ensures
        r.deep_view() == parse_wire_spec(s@),
{
    let mut r: Vec<App> = Vec::new();
    if s.len() == 0 {
        assert(r.deep_view() =~~= parse_wire_spec(s@));
        return r;
    }
    let mut parts = split_bytes(s, NUL);
    let ghost all = parts.deep_view();
    proof {
        lemma_find_byte_props(s@, NUL);
    }
    assert(all.len() >= 1);
    if parts[parts.len() - 1].len() == 0 {
        parts.pop();
        assert(parts.deep_view() =~~= all.drop_last());
    }
    let ghost kept = parts.deep_view();
    assert(kept =~~= (if all.last().len() == 0 {
        all.drop_last()
    } else {
        all
    }));
    let mut i: usize = 0;
    while i < parts.len()
        invariant
            i <= parts@.len(),
            kept == parts.deep_view(),
            r.deep_view().len() == i,
            forall|j: int| 0 <= j < i ==> r.deep_view()[j] == parse_wire_record(kept[j]),
        decreases parts@.len() - i,
    {
        let (c, rest) = split_first_line_vec(&parts[i]);
        let (n, d) = split_first_line_vec(&rest);
        assert(parts.deep_view()[i as int] == parts@[i as int]@);
        let ghost old_r = r.deep_view();
        let a = App::new(n, d, c);
        assert(a@ =~= parse_wire_record(kept[i as int]));
        r.push(a);
        assert(r.deep_view() =~~= old_r.push(a@));
        i = i + 1;
    }
    assert(r.deep_view() =~~= kept.map_values(|seg: Seq<u8>| parse_wire_record(seg)));
    r
}

/// The raw chosen line in a selector output stream: outer null bytes
/// trimmed, the stream split on null bytes, and the first line of the last
/// segment taken. `None` means the selector made no selection.
pub open spec fn decode_selection_spec(out: Seq<u8>) -> Option<Seq<u8>> {
    let t = trim_trailing(trim_leading(out, NUL), NUL);
    let segs = split_by(t, NUL);
    let ls = lines_of(segs.last());
    if ls.len() == 0 {
        None
    } else {
        Some(ls[0])
    }
}

/// Decodes a selector output stream into the raw chosen line, or `None`
/// on cancellation (no selection in the stream).
pub fn decode_selection(out: &Vec<u8>) -> (r: Option<Vec<u8>>)
    ensures
        match r {
            Some(v) => decode_selection_spec(out@) == Some(v@),
            None => decode_selection_spec(out@) == None::<Seq<u8>>,
        },
{
    let t1 = trim_leading_bytes(out, NUL);
    let t = trim_trailing_bytes(&t1, NUL);
    let parts = split_bytes(&t, NUL);
    proof {
        lemma_find_byte_props(t@, NUL);
    }
    assert(parts.deep_view().len() >= 1);
    let last = &parts[parts.len() - 1];
    assert(last@ == parts.deep_view().last());
    let ls = lines_bytes(last);
    if ls.len() == 0 {
        None
    } else {
        let first = subvec(&ls[0], 0, ls[0].len());
        assert(first@ =~= ls.deep_view()[0]);
        Some(first)
    }
}

/// The segments of `s` cut after each space, each segment keeping its
/// trailing space, as Rust's `split_inclusive`; an empty input yields no
/// segments.
pub open spec fn split_inclusive_sp(s: Seq<u8>) -> Seq<Seq<u8>>
    decreases s.len(),
    via split_inclusive_sp_decreases
{
    if s.len() == 0 {
        Seq::empty()
    } else {
        match find_byte(s, ' ' as u8) {
            None => seq![s],
            Some(i) => seq![s.take(i + 1)] + split_inclusive_sp(s.skip(i + 1)),
        }
    }
}

#[via_fn]
proof fn split_inclusive_sp_decreases(s: Seq<u8>) {
    lemma_find_byte_props(s, ' ' as u8);
}

/// Peeling the first space off: the bytes through it form the first
/// segment and the rest splits on its own.
proof fn lemma_split_inclusive_step(u: Seq<u8>, rest: Seq<u8>)
    requires
        forall|j: int| 0 <= j < u.len() ==> u[j] != ' ' as u8,
    ensures
        split_inclusive_sp(u + seq![' ' as u8] + rest) == seq![u.push(' ' as u8)]
            + split_inclusive_sp(rest),
{
    let s = u + seq![' ' as u8] + rest;
    assert(s[u.len() as int] == ' ' as u8);
    assert forall|j: int| 0 <= j < u.len() implies s[j] != ' ' as u8 by {
        assert(s[j] == u[j]);
    }
    lemma_find_byte_some(s, ' ' as u8, u.len() as int);
    assert(s.take(u.len() as int + 1) =~= u.push(' ' as u8));
    assert(s.skip(u.len() as int + 1) =~= rest);
}

/// A whitespace-delimited token that survives post-processing: one free of
/// percent signs.
pub open spec fn keep_token(t: Seq<u8>) -> bool {
    forall|j: int| 0 <= j < t.len() ==> #[trigger] t[j] != '%' as u8
}

/// The surviving tokens joined back together, in order.
pub open spec fn concat_kept(toks: Seq<Seq<u8>>) -> Seq<u8>
    decreases toks.len(),
{
    if toks.len() == 0 {
        Seq::empty()
    } else {
        (if keep_token(toks[0]) {
            toks[0]
        } else {
            Seq::empty()
        }) + concat_kept(toks.skip(1))
    }
}

/// One more token appends its bytes when it survives.
proof fn lemma_concat_kept_push(toks: Seq<Seq<u8>>, x: Seq<u8>)
    ensures
        concat_kept(toks.push(x)) == concat_kept(toks) + (if keep_token(x) {
            x
        } else {
            Seq::<u8>::empty()
        }),
    decreases toks.len(),
{
    let tp = toks.push(x);
    if toks.len() == 0 {
        reveal_with_fuel(concat_kept, 3);
        assert(tp[0] == x);
        assert(tp.skip(1) =~= Seq::<Seq<u8>>::empty());
        assert(concat_kept(tp) =~= concat_kept(toks) + (if keep_token(x) {
            x
        } else {
            Seq::<u8>::empty()
        }));
    } else {
        assert(tp[0] == toks[0]);
        assert(tp.skip(1) =~= toks.skip(1).push(x));
        lemma_concat_kept_push(toks.skip(1), x);
        assert(concat_kept(tp) =~= concat_kept(toks) + (if keep_token(x) {
            x
        } else {
            Seq::<u8>::empty()
        }));
    }
}

/// The post-processed launch command: the line cut into space-terminated
/// tokens, every token holding a percent sign dropped, the rest rejoined,
/// outer whitespace trimmed, and the result wrapped in single quotes (the
/// output-formatting policy this library fixes).
pub open spec fn strip_placeholders_spec(s: Seq<u8>) -> Seq<u8> {
    seq!['\'' as u8] + trim_ws(concat_kept(split_inclusive_sp(s))) + seq!['\'' as u8]
}

/// The joined surviving tokens hold no percent sign.
proof fn lemma_concat_kept_free(toks: Seq<Seq<u8>>)
    ensures
        forall|j: int| 0 <= j < concat_kept(toks).len() ==> #[trigger] concat_kept(toks)[j] != '%' as u8,
    decreases toks.len(),
{
    if toks.len() > 0 {
        lemma_concat_kept_free(toks.skip(1));
        let head = if keep_token(toks[0]) {
            toks[0]
        } else {
            Seq::<u8>::empty()
        };
        assert forall|j: int| 0 <= j < concat_kept(toks).len() implies #[trigger] concat_kept(
            toks,
        )[j] != '%' as u8 by {
            if j < head.len() {
                assert(concat_kept(toks)[j] == toks[0][j]);
            } else {
                assert(concat_kept(toks)[j] == concat_kept(toks.skip(1))[j - head.len()]);
            }
        }
    }
}

/// Trimming leading whitespace keeps every byte a byte of the input's
/// tail, so a byte-wise property survives it.
proof fn lemma_trim_ws_start_free(s: Seq<u8>)
    requires
        forall|j: int| 0 <= j < s.len() ==> #[trigger] s[j] != '%' as u8,
    ensures
        forall|j: int|
            0 <= j < trim_ws_start(s).len() ==> #[trigger] trim_ws_start(s)[j] != '%' as u8,
    decreases s.len(),
{
    if s.len() > 0 && crate::bytes::is_ws(s[0]) {
        assert forall|j: int| 0 <= j < s.skip(1).len() implies #[trigger] s.skip(1)[j]
            != '%' as u8 by {
            assert(s.skip(1)[j] == s[j + 1]);
        }
        lemma_trim_ws_start_free(s.skip(1));
        assert(trim_ws_start(s) == trim_ws_start(s.skip(1)));
    } else {
        assert forall|j: int| 0 <= j < trim_ws_start(s).len() implies #[trigger] trim_ws_start(
            s,
        )[j] != '%' as u8 by {
            assert(trim_ws_start(s)[j] == s[j]);
        }
    }
}

/// As above for trailing whitespace.
proof fn lemma_trim_ws_end_free(s: Seq<u8>)
    requires
        forall|j: int| 0 <= j < s.len() ==> #[trigger] s[j] != '%' as u8,
    ensures
        forall|j: int| 0 <= j < trim_ws_end(s).len() ==> #[trigger] trim_ws_end(s)[j] != '%' as u8,
    decreases s.len(),
{
    if s.len() > 0 && crate::bytes::is_ws(s.last()) {
        assert forall|j: int| 0 <= j < s.drop_last().len() implies #[trigger] s.drop_last()[j]
            != '%' as u8 by {
            assert(s.drop_last()[j] == s[j]);
        }
        lemma_trim_ws_end_free(s.drop_last());
        assert(trim_ws_end(s) == trim_ws_end(s.drop_last()));
    } else {
        assert forall|j: int| 0 <= j < trim_ws_end(s).len() implies #[trigger] trim_ws_end(
            s,
        )[j] != '%' as u8 by {
            assert(trim_ws_end(s)[j] == s[j]);
        }
    }
}

/// Post-processing removes every placeholder: no byte of the final command
/// string is a percent sign, since every whitespace-delimited token that
/// held one was dropped.
pub proof fn lemma_strip_removes_placeholders(s: Seq<u8>)
    ensures
        forall|j: int|
            0 <= j < strip_placeholders_spec(s).len() ==> #[trigger] strip_placeholders_spec(
                s,
            )[j] != '%' as u8,
{
    let toks = split_inclusive_sp(s);
    lemma_concat_kept_free(toks);
    lemma_trim_ws_start_free(concat_kept(toks));
    lemma_trim_ws_end_free(trim_ws_start(concat_kept(toks)));
    let mid = trim_ws(concat_kept(toks));
    let r = strip_placeholders_spec(s);
    assert forall|j: int| 0 <= j < r.len() implies #[trigger] r[j] != '%' as u8 by {
        if j == 0 || j == r.len() - 1 {
            assert(r[j] == '\'' as u8);
        } else {
            assert(r[j] == mid[j - 1]);
        }
    }
}

/// Cuts `s` after each space, each segment keeping its trailing space.
fn split_inclusive_sp_vec(s: &Vec<u8>) -> (r: Vec<Vec<u8>>)
    ensures
        r.deep_view() == split_inclusive_sp(s@),
{
    let mut r: Vec<Vec<u8>> = Vec::new();
    let mut cur: Vec<u8> = Vec::new();
    let ghost mut start: int = 0;
    let mut i: usize = 0;
    assert(s@.skip(0) =~= s@);
    while i < s.len()
        invariant
            0 <= start <= i <= s@.len(),
            cur@ =~= s@.subrange(start, i as int),
            forall|j: int| start <= j < i ==> s@[j] != ' ' as u8,
            split_inclusive_sp(s@) =~~= r.deep_view() + split_inclusive_sp(s@.skip(start)),
        decreases s@.len() - i,
    {
        let b = s[i];
        cur.push(b);
        if b == ' ' as u8 {
            proof {
                assert(s@.skip(start) =~= s@.subrange(start, i as int) + seq![' ' as u8]
                    + s@.skip(i as int + 1));
                lemma_split_inclusive_step(s@.subrange(start, i as int), s@.skip(i as int + 1));
                assert(cur@ =~= s@.subrange(start, i as int).push(' ' as u8));
            }
            let ghost old_r = r.deep_view();
            let ghost cv = cur@;
            r.push(cur);
            assert(r.deep_view() =~~= old_r.push(cv));
            cur = Vec::new();
            proof {
                start = i as int + 1;
            }
        }
        i = i + 1;
        assert(cur@ =~= s@.subrange(start, i as int));
    }
    if cur.len() > 0 {
        proof {
            assert(s@.skip(start) =~= cur@);
            lemma_find_byte_none(cur@, ' ' as u8);
        }
        let ghost old_r = r.deep_view();
        let ghost cv = cur@;
        r.push(cur);
        assert(r.deep_view() =~~= old_r.push(cv));
    } else {
        assert(s@.skip(start) =~= Seq::<u8>::empty());
    }
    r
}

/// Post-processes a chosen raw launch command: drops every
/// whitespace-delimited token holding a percent sign, rejoins the rest,
/// trims outer whitespace, and wraps the result in single quotes.
pub fn strip_placeholders(line: &Vec<u8>) -> (r: Vec<u8>)
    ensures
        r@ == strip_placeholders_spec(line@),
{
    let toks = split_inclusive_sp_vec(line);
    let ghost td = toks.deep_view();
    let mut acc: Vec<u8> = Vec::new();
    let mut i: usize = 0;
    assert(td.take(0) =~= Seq::<Seq<u8>>::empty());
    while i < toks.len()
        invariant
            i <= toks@.len(),
            td == toks.deep_view(),
            acc@ == concat_kept(td.take(i as int)),
        decreases toks@.len() - i,
    {
        proof {
            lemma_concat_kept_push(td.take(i as int), td[i as int]);
            assert(td.take(i as int + 1) =~= td.take(i as int).push(td[i as int]));
        }
        assert(toks.deep_view()[i as int] == toks@[i as int]@);
        let has_pct = match find_byte_vec(&toks[i], '%' as u8) {
            Some(_) => true,
            None => false,
        };
        proof {
            lemma_find_byte_props(td[i as int], '%' as u8);
        }
        if !has_pct {
            assert(keep_token(td[i as int]));
            push_all(&mut acc, &toks[i]);
        } else {
            assert(!keep_token(td[i as int]));
        }
        i = i + 1;
    }
    assert(td.take(toks@.len() as int) =~= td);
    let trimmed = trim_ws_bytes(&acc);
    let mut r: Vec<u8> = Vec::new();
    r.push('\'' as u8);
    push_all(&mut r, &trimmed);
    r.push('\'' as u8);
    assert(r@ =~= strip_placeholders_spec(line@));
    r
}

} // verus!
