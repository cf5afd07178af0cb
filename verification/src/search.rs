//! The directory resolver: the ordered list of directories to scan for
//! descriptor files, computed from the home path and the two optional
//! data-directory settings, with their documented defaults.

use vstd::prelude::*;

use crate::bytes::split_by;
use crate::bytes::split_bytes;
use crate::bytes::trim_trailing;
use crate::bytes::trim_trailing_bytes;
use crate::bytes::push_all;
use crate::parse::opt_view;

verus! {

/// The bytes of `"/applications"`, the fixed subpath appended to every
/// search-path entry.
pub open spec fn applications_suffix() -> Seq<u8> {
    seq![
        '/' as u8,
        'a' as u8,
        'p' as u8,
        'p' as u8,
        'l' as u8,
        'i' as u8,
        'c' as u8,
        'a' as u8,
        't' as u8,
        'i' as u8,
        'o' as u8,
        'n' as u8,
        's' as u8,
    ]
}

/// The bytes of `"/usr/local/share:/usr/share"`, the default system search
/// path.
pub open spec fn default_system_dirs() -> Seq<u8> {
    seq![
        '/' as u8,
        'u' as u8,
        's' as u8,
        'r' as u8,
        '/' as u8,
        'l' as u8,
        'o' as u8,
        'c' as u8,
        'a' as u8,
        'l' as u8,
        '/' as u8,
        's' as u8,
        'h' as u8,
        'a' as u8,
        'r' as u8,
        'e' as u8,
        ':' as u8,
        '/' as u8,
        'u' as u8,
        's' as u8,
        'r' as u8,
        '/' as u8,
        's' as u8,
        'h' as u8,
        'a' as u8,
        'r' as u8,
        'e' as u8,
    ]
}

/// The bytes of `"/.local/share"`, the suffix of the default user data
/// directory under the home path.
pub open spec fn local_share_suffix() -> Seq<u8> {
    seq![
        '/' as u8,
        '.' as u8,
        'l' as u8,
        'o' as u8,
        'c' as u8,
        'a' as u8,
        'l' as u8,
        '/' as u8,
        's' as u8,
        'h' as u8,
        'a' as u8,
        'r' as u8,
        'e' as u8,
    ]
}

/// One search-path entry made into a scan directory: trailing slashes
/// stripped, then the applications subpath appended.
pub open spec fn app_dir_of(entry: Seq<u8>) -> Seq<u8> {
    trim_trailing(entry, '/' as u8) + applications_suffix()
}

/// The scan directories derived from the system search path and the user
/// data directory: their colon-joined concatenation split on colons, each
/// entry made into a scan directory.
pub open spec fn app_dirs_of(sys_dirs: Seq<u8>, user_dir: Seq<u8>) -> Seq<Seq<u8>> {
    split_by(sys_dirs + seq![':' as u8] + user_dir, ':' as u8).map_values(
        |e: Seq<u8>| app_dir_of(e),
    )
}

/// The scan directories with the documented defaults applied: an unset
/// system search path falls back to the fixed pair of system paths, and an
/// unset user data directory falls back to `<home>/.local/share`.
pub open spec fn resolved_app_dirs(
    home: Seq<u8>,
    xdg_data_dirs: Option<Seq<u8>>,
    xdg_data_home: Option<Seq<u8>>,
) -> Seq<Seq<u8>> {
    let sys = match xdg_data_dirs {
        Some(s) => s,
        None => default_system_dirs(),
    };
    let usr = match xdg_data_home {
        Some(s) => s,
        None => home + local_share_suffix(),
    };
    app_dirs_of(sys, usr)
}

/// The bytes of `"/applications"`.
fn applications_suffix_vec() -> (r: Vec<u8>)
    ensures
        r@ == applications_suffix(),
{
    let v: Vec<u8> = vec![
        '/' as u8,
        'a' as u8,
        'p' as u8,
        'p' as u8,
        'l' as u8,
        'i' as u8,
        'c' as u8,
        'a' as u8,
        't' as u8,
        'i' as u8,
        'o' as u8,
        'n' as u8,
        's' as u8,
    ];
    assert(v@ =~= applications_suffix());
    v
}

/// The bytes of `"/usr/local/share:/usr/share"`.
fn default_system_dirs_vec() -> (r: Vec<u8>)
    ensures
        r@ == default_system_dirs(),
{
    let v: Vec<u8> = vec![
        '/' as u8,
        'u' as u8,
        's' as u8,
        'r' as u8,
        '/' as u8,
        'l' as u8,
        'o' as u8,
        'c' as u8,
        'a' as u8,
        'l' as u8,
        '/' as u8,
        's' as u8,
        'h' as u8,
        'a' as u8,
        'r' as u8,
        'e' as u8,
        ':' as u8,
        '/' as u8,
        'u' as u8,
        's' as u8,
        'r' as u8,
        '/' as u8,
        's' as u8,
        'h' as u8,
        'a' as u8,
        'r' as u8,
        'e' as u8,
    ];
    assert(v@ =~= default_system_dirs());
    v
}

/// The bytes of `"/.local/share"`.
fn local_share_suffix_vec() -> (r: Vec<u8>)
    ensures
        r@ == local_share_suffix(),
{
    let v: Vec<u8> = vec![
        '/' as u8,
        '.' as u8,
        'l' as u8,
        'o' as u8,
        'c' as u8,
        'a' as u8,
        'l' as u8,
        '/' as u8,
        's' as u8,
        'h' as u8,
        'a' as u8,
        'r' as u8,
        'e' as u8,
    ];
    assert(v@ =~= local_share_suffix());
    v
}

/// Copies the bytes of `src`.
fn copy_bytes(src: &Vec<u8>) -> (r: Vec<u8>)
    ensures
        r@ == src@,
{
    let mut r: Vec<u8> = Vec::new();
    push_all(&mut r, src);
    assert(r@ =~= src@);
    r
}

/// Computes the ordered list of directories to scan for descriptor files.
/// `home` is the user's home path; the two options carry the environment's
/// system search path and user data directory when set. Each entry of the
/// joined search path contributes one directory: the entry with trailing
/// slashes stripped and `/applications` appended.
pub fn get_app_dirs(
    home: &Vec<u8>,
    xdg_data_dirs: &Option<Vec<u8>>,
    xdg_data_home: &Option<Vec<u8>>,
) -> (r: Vec<Vec<u8>>)
    ensures
        r.deep_view() == resolved_app_dirs(home@, opt_view(*xdg_data_dirs), opt_view(*xdg_data_home)),
{
    let sys: Vec<u8> = match xdg_data_dirs {
        Some(v) => copy_bytes(v),
        None => default_system_dirs_vec(),
    };
    let usr: Vec<u8> = match xdg_data_home {
        Some(v) => copy_bytes(v),
        None => {
            let mut u = copy_bytes(home);
            let suffix = local_share_suffix_vec();
            push_all(&mut u, &suffix);
            u
        },
    };
    let mut joined = sys;
    joined.push(':' as u8);
    push_all(&mut joined, &usr);
    let ghost sys_s = match opt_view(*xdg_data_dirs) {
        Some(s) => s,
        None => default_system_dirs(),
    };
    let ghost usr_s = match opt_view(*xdg_data_home) {
        Some(s) => s,
        None => home@ + local_share_suffix(),
    };
    assert(joined@ =~= sys_s + seq![':' as u8] + usr_s);
    let parts = split_bytes(&joined, ':' as u8);
    let ghost pd = parts.deep_view();
    let suffix = applications_suffix_vec();
    let mut r: Vec<Vec<u8>> = Vec::new();
    let mut i: usize = 0;
    while i < parts.len()
        invariant
            i <= parts@.len(),
            pd == parts.deep_view(),
            suffix@ == applications_suffix(),
            r.deep_view().len() == i,
            forall|j: int| 0 <= j < i ==> r.deep_view()[j] == app_dir_of(pd[j]),
        decreases parts@.len() - i,
    {
        let mut dir = trim_trailing_bytes(&parts[i], '/' as u8);
        push_all(&mut dir, &suffix);
        assert(parts.deep_view()[i as int] == parts@[i as int]@);
        assert(dir@ == app_dir_of(pd[i as int]));
        let ghost old_r = r.deep_view();
        let ghost dv = dir@;
        r.push(dir);
        assert(r.deep_view() =~~= old_r.push(dv));
        i = i + 1;
    }
    assert(r.deep_view() =~~= pd.map_values(|e: Seq<u8>| app_dir_of(e)));
    r
}

} // verus!
