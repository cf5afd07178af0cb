//! The descriptor loader's pure core: fold the readable descriptor files
//! into records, skipping the unparsable ones, and produce a collection
//! sorted ascending by name with no two records of equal name.

use vstd::prelude::*;

use crate::bytes::lex_lt;
use crate::bytes::lex_le;
use crate::bytes::bytes_le;
use crate::bytes::bytes_eq;
use crate::bytes::ends_with;
use crate::bytes::lemma_lex_le_total;
use crate::bytes::lemma_lex_le_antisym;
use crate::bytes::lemma_lex_le_trans;
use crate::parse::parse_data;
use crate::parse::parse_data_spec;
use crate::record::App;
use crate::record::AppView;

verus! {

/// The bytes of `".desktop"`, the marker of a descriptor file.
pub open spec fn desktop_suffix() -> Seq<u8> {
    seq!['.' as u8, 'd' as u8, 'e' as u8, 's' as u8, 'k' as u8, 't' as u8, 'o' as u8, 'p' as u8]
}

/// Whether a file path names a candidate descriptor file.
pub fn is_desktop_file(path: &Vec<u8>) -> (r: bool)
    ensures
        r == desktop_suffix().is_suffix_of(path@),
{
    let suffix: Vec<u8> = vec![
        '.' as u8,
        'd' as u8,
        'e' as u8,
        's' as u8,
        'k' as u8,
        't' as u8,
        'o' as u8,
        'p' as u8,
    ];
    assert(suffix@ =~= desktop_suffix());
    ends_with(path, &suffix)
}

/// The records the given descriptor files denote, in file order; files
/// that yield no record contribute nothing.
pub open spec fn parsed_records(files: Seq<Seq<u8>>) -> Seq<AppView>
    decreases files.len(),
{
    if files.len() == 0 {
        Seq::empty()
    } else {
        match parse_data_spec(files[0]) {
            Some(v) => seq![v] + parsed_records(files.skip(1)),
            None => parsed_records(files.skip(1)),
        }
    }
}

/// One more file appends its record, if it yields one.
pub proof fn lemma_parsed_records_push(files: Seq<Seq<u8>>, x: Seq<u8>)
    ensures
        parsed_records(files.push(x)) == parsed_records(files) + (match parse_data_spec(x) {
            Some(v) => seq![v],
            None => Seq::<AppView>::empty(),
        }),
    decreases files.len(),
{
    let fp = files.push(x);
    if files.len() == 0 {
        reveal_with_fuel(parsed_records, 3);
        assert(fp[0] == x);
        assert(fp.skip(1) =~= Seq::<Seq<u8>>::empty());
        match parse_data_spec(x) {
            Some(v) => {
                assert(parsed_records(fp) =~= seq![v]);
                assert(parsed_records(files) + seq![v] =~= seq![v]);
            },
            None => {
                assert(parsed_records(fp) =~= Seq::<AppView>::empty());
                assert(parsed_records(files) + Seq::<AppView>::empty() =~= Seq::<
                    AppView,
                >::empty());
            },
        }
    } else {
        assert(fp[0] == files[0]);
        assert(fp.skip(1) =~= files.skip(1).push(x));
        lemma_parsed_records_push(files.skip(1), x);
        match parse_data_spec(files[0]) {
            Some(v) => {
                assert(parsed_records(fp) =~= parsed_records(files) + (
                match parse_data_spec(x) {
                    Some(w) => seq![w],
                    None => Seq::<AppView>::empty(),
                }));
            },
            None => {
            },
        }
    }
}

/// Every record of `parsed_records(files)` is the record of some file.
pub proof fn lemma_records_come_from_files(files: Seq<Seq<u8>>)
    ensures
        forall|x: AppView|
            parsed_records(files).contains(x) ==> exists|k: int|
                0 <= k < files.len() && parse_data_spec(#[trigger] files[k]) == Some(x),
    decreases files.len(),
{
    if files.len() > 0 {
        lemma_records_come_from_files(files.skip(1));
        assert forall|x: AppView| parsed_records(files).contains(x) implies exists|k: int|
            0 <= k < files.len() && parse_data_spec(#[trigger] files[k]) == Some(x) by {
            let r = parsed_records(files);
            let i = choose|i: int| 0 <= i < r.len() && r[i] == x;
            match parse_data_spec(files[0]) {
                Some(v) => {
                    if i == 0 {
                        assert(parse_data_spec(files[0]) == Some(x));
                    } else {
                        assert(parsed_records(files.skip(1))[i - 1] == x);
                        assert(parsed_records(files.skip(1)).contains(x));
                        let k = choose|k: int|
                            0 <= k < files.skip(1).len() && parse_data_spec(
                                #[trigger] files.skip(1)[k],
                            ) == Some(x);
                        assert(files[k + 1] == files.skip(1)[k]);
                    }
                },
                None => {
                    assert(parsed_records(files.skip(1)).contains(x));
                    let k = choose|k: int|
                        0 <= k < files.skip(1).len() && parse_data_spec(
                            #[trigger] files.skip(1)[k],
                        ) == Some(x);
                    assert(files[k + 1] == files.skip(1)[k]);
                },
            }
        }
    }
}

/// Names strictly ascending in lexicographic byte order: sorted, and no
/// two records share a name.
pub open spec fn strictly_sorted(s: Seq<AppView>) -> bool {
    forall|i: int, j: int| 0 <= i < j < s.len() ==> lex_lt(#[trigger] s[i].name, #[trigger] s[j].name)
}

/// A collection with strictly ascending names is sorted ascending by name
/// and holds no two records of equal name.
pub proof fn lemma_sorted_and_unique(s: Seq<AppView>)
    requires
        strictly_sorted(s),
    ensures
        forall|i: int, j: int| 0 <= i <= j < s.len() ==> lex_le(#[trigger] s[i].name, #[trigger] s[j].name),
        forall|i: int, j: int| 0 <= i < j < s.len() ==> (#[trigger] s[i].name) != (#[trigger] s[j].name),
{
    assert forall|i: int, j: int| 0 <= i <= j < s.len() implies lex_le(
        #[trigger] s[i].name,
        #[trigger] s[j].name,
    ) by {
        if i == j {
            lemma_lex_le_total(s[i].name, s[i].name);
        }
    }
}

/// Removing adjacent records of equal name, as Rust's `dedup_by` keyed on
/// the name.
pub open spec fn dedup_by_name(s: Seq<AppView>) -> Seq<AppView>
    decreases s.len(),
{
    if s.len() <= 1 {
        s
    } else if s[0].name == s[1].name {
        dedup_by_name(s.skip(1))
    } else {
        seq![s[0]] + dedup_by_name(s.skip(1))
    }
}

/// Deduplication is idempotent: a collection whose names are strictly
/// ascending — as every collection this module produces is — passes
/// through `dedup_by_name` unchanged, so running it twice changes nothing.
pub proof fn lemma_dedup_idempotent(s: Seq<AppView>)
    requires
        strictly_sorted(s),
    ensures
        dedup_by_name(s) == s,
    decreases s.len(),
{
    if s.len() > 1 {
        assert(lex_lt(s[0].name, s[1].name));
        assert(strictly_sorted(s.skip(1))) by {
            assert forall|i: int, j: int| 0 <= i < j < s.skip(1).len() implies lex_lt(
                #[trigger] s.skip(1)[i].name,
                #[trigger] s.skip(1)[j].name,
            ) by {
                assert(s.skip(1)[i] == s[i + 1]);
                assert(s.skip(1)[j] == s[j + 1]);
            }
        }
        lemma_dedup_idempotent(s.skip(1));
        assert(seq![s[0]] + s.skip(1) =~= s);
    }
}

/// Whether some record in `s` bears the name `n`.
pub open spec fn name_present(s: Seq<AppView>, n: Seq<u8>) -> bool {
    exists|i: int| 0 <= i < s.len() && #[trigger] s[i].name == n
}

/// Places `a` into the sorted collection `out`: inserted at its ordered
/// position, or dropped when a record of the same name is already present.
fn insert_app(out: &mut Vec<App>, a: App)
    requires
        strictly_sorted(old(out).deep_view()),
    ensures
        strictly_sorted(final(out).deep_view()),
        forall|i: int|
            0 <= i < final(out).deep_view().len() ==> old(out).deep_view().contains(
                #[trigger] final(out).deep_view()[i],
            ) || final(out).deep_view()[i] == a@,
        forall|n: Seq<u8>|
            #[trigger] name_present(old(out).deep_view(), n) ==> name_present(
                final(out).deep_view(),
                n,
            ),
        name_present(final(out).deep_view(), a@.name),
{
    let ghost od = out.deep_view();
    let mut j: usize = 0;
    let mut go = true;
    while go && j < out.len()
        invariant
            0 <= j <= od.len(),
            od == out.deep_view(),
            strictly_sorted(od),
            forall|i: int| 0 <= i < j ==> lex_lt(#[trigger] od[i].name, a@.name),
            !go && j < od.len() ==> !lex_lt(od[j as int].name, a@.name),
            go || j < od.len(),
        decreases od.len() - j + (if go {
            1int
        } else {
            0int
        }),
    {
        let le = bytes_le(out[j].name(), a.name());
        let eq = bytes_eq(out[j].name(), a.name());
        assert(out.deep_view()[j as int] == out@[j as int]@);
        if le && !eq {
            j = j + 1;
        } else {
            go = false;
        }
    }
    assert(j < od.len() ==> !lex_lt(od[j as int].name, a@.name));
    if j < out.len() {
        let dup = bytes_eq(out[j].name(), a.name());
        assert(out.deep_view()[j as int] == out@[j as int]@);
        if dup {
            assert(out.deep_view()[j as int].name == a@.name);
            assert(name_present(out.deep_view(), a@.name));
            return ;
        }
        proof {
            lemma_lex_le_total(od[j as int].name, a@.name);
            assert(lex_le(a@.name, od[j as int].name));
            assert(lex_lt(a@.name, od[j as int].name));
        }
    }
    out.insert(j, a);
    let ghost nd = out.deep_view();
    assert(nd =~= od.insert(j as int, a@)) by {
        assert forall|i: int| 0 <= i < nd.len() implies nd[i] == od.insert(j as int, a@)[i] by {
            assert(nd[i] == out@[i]@);
        }
    }
    assert forall|p: int, q: int| 0 <= p < q < nd.len() implies lex_lt(
        #[trigger] nd[p].name,
        #[trigger] nd[q].name,
    ) by {
        if q < j {
        } else if p < j && q == j {
            assert(nd[p] == od[p]);
            assert(nd[q] == a@);
        } else if p < j && q > j {
            assert(nd[p] == od[p]);
            assert(nd[q] == od[q - 1]);
        } else if p == j {
            assert(nd[p] == a@);
            assert(nd[q] == od[q - 1]);
            if q - 1 > j {
                assert(lex_lt(od[j as int].name, od[q - 1].name));
                lemma_lex_le_trans(a@.name, od[j as int].name, od[q - 1].name);
                if a@.name == od[q - 1].name {
                    lemma_lex_le_antisym(a@.name, od[j as int].name);
                }
            }
        } else {
            assert(nd[p] == od[p - 1]);
            assert(nd[q] == od[q - 1]);
        }
    }
    assert forall|n: Seq<u8>| #[trigger] name_present(od, n) implies name_present(nd, n) by {
        let w = choose|w: int| 0 <= w < od.len() && #[trigger] od[w].name == n;
        if w < j {
            assert(nd[w] == od[w]);
            assert(nd[w].name == n);
        } else {
            assert(nd[w + 1] == od[w]);
            assert(nd[w + 1].name == n);
        }
    }
    assert forall|i: int| 0 <= i < nd.len() implies od.contains(#[trigger] nd[i]) || nd[i] == a@ by {
        if i < j {
            assert(nd[i] == od[i]);
        } else if i > j {
            assert(nd[i] == od[i - 1]);
        }
    }
    assert(nd[j as int] == a@);
    assert(name_present(nd, a@.name));
}

/// Folds the contents of the candidate descriptor files into the final
/// collection: every file that denotes a record contributes its name, the
/// result is sorted ascending by name, holds no two records of equal name,
/// and holds only records denoted by some file.
#[verifier::rlimit(50)]
pub fn collect_apps(files: &Vec<Vec<u8>>) -> (r: Vec<App>)
    ensures
        strictly_sorted(r.deep_view()),
        forall|i: int|
            0 <= i < r.deep_view().len() ==> parsed_records(files.deep_view()).contains(
                #[trigger] r.deep_view()[i],
            ),
        forall|k: int|
            0 <= k < parsed_records(files.deep_view()).len() ==> name_present(
                r.deep_view(),
                (#[trigger] parsed_records(files.deep_view())[k]).name,
            ),
{
    let ghost fd = files.deep_view();
    let mut out: Vec<App> = Vec::new();
    let mut i: usize = 0;
    assert(fd.take(0) =~= Seq::<Seq<u8>>::empty());
    while i < files.len()
        invariant
            i <= files@.len(),
            fd == files.deep_view(),
            strictly_sorted(out.deep_view()),
            forall|p: int|
                0 <= p < out.deep_view().len() ==> parsed_records(fd.take(i as int)).contains(
                    #[trigger] out.deep_view()[p],
                ),
            forall|k: int|
                0 <= k < parsed_records(fd.take(i as int)).len() ==> name_present(
                    out.deep_view(),
                    (#[trigger] parsed_records(fd.take(i as int))[k]).name,
                ),
        decreases files@.len() - i,
    {
        let ghost pre = parsed_records(fd.take(i as int));
        proof {
            lemma_parsed_records_push(fd.take(i as int), fd[i as int]);
            assert(fd.take(i as int + 1) =~= fd.take(i as int).push(fd[i as int]));
        }
        let ghost post = parsed_records(fd.take(i as int + 1));
        assert(files.deep_view()[i as int] == files@[i as int]@);
        match parse_data(&files[i]) {
            Ok(a) => {
                assert(post =~= pre.push(a@));
                let ghost before = out.deep_view();
                insert_app(&mut out, a);
                let ghost now = out.deep_view();
                assert forall|p: int| 0 <= p < now.len() implies post.contains(
                    #[trigger] now[p],
                ) by {
                    let x = now[p];
                    if x == a@ {
                        assert(post[post.len() - 1] == x);
                    } else {
                        assert(before.contains(x));
                        let v = choose|v: int| 0 <= v < pre.len() && pre[v] == x;
                        assert(post[v] == x);
                    }
                }
                assert forall|k: int| 0 <= k < post.len() implies name_present(
                    now,
                    (#[trigger] post[k]).name,
                ) by {
                    if k < pre.len() {
                        assert(post[k] == pre[k]);
                        assert(name_present(before, pre[k].name));
                    } else {
                        assert(post[k] == a@);
                    }
                }
            },
            Err(_) => {
                assert(post =~= pre);
            },
        }
        i = i + 1;
    }
    assert(fd.take(files@.len() as int) =~= fd);
    out
}

} // verus!
