//! Recognising the toolchain's `std` artifacts in a sysroot library
//! directory, and the `--extern force:std=...` arguments built from them.
use vstd::prelude::*;
use vstd::string::StringSliceAdditionalSpecFns;
use vstd::utf8::encode_utf8;
use vstd::string::StringExecFns;
use crate::bytes::{has_prefix, has_suffix, starts_with, ends_with, ranges_equal};

verus! {

/// `0-9`, `A-F` and `a-f`.
pub open spec fn is_ascii_hex(b: u8) -> bool {
    ||| 0x30 <= b <= 0x39
    ||| 0x41 <= b <= 0x46
    ||| 0x61 <= b <= 0x66
}

/// The bytes `libstd-`.
pub open spec fn libstd_dash() -> Seq<u8> {
    seq![0x6cu8, 0x69, 0x62, 0x73, 0x74, 0x64, 0x2d]
}

/// The bytes `std-`.
pub open spec fn std_dash() -> Seq<u8> {
    seq![0x73u8, 0x74, 0x64, 0x2d]
}

/// The bytes `.rmeta`.
pub open spec fn rmeta_ext() -> Seq<u8> {
    seq![0x2eu8, 0x72, 0x6d, 0x65, 0x74, 0x61]
}

/// The bytes `.dylib`.
pub open spec fn dylib_ext() -> Seq<u8> {
    seq![0x2eu8, 0x64, 0x79, 0x6c, 0x69, 0x62]
}

/// The bytes `.so`.
pub open spec fn so_ext() -> Seq<u8> {
    seq![0x2eu8, 0x73, 0x6f]
}

/// The bytes `.dll`.
pub open spec fn dll_ext() -> Seq<u8> {
    seq![0x2eu8, 0x64, 0x6c, 0x6c]
}

/// `name` starts with `prefix` and the byte after it is a hex digit.
pub open spec fn prefix_then_hex(name: Seq<u8>, prefix: Seq<u8>) -> bool {
    has_prefix(name, prefix) && name.len() > prefix.len() && is_ascii_hex(name[prefix.len() as int])
}

/// A file name of the form `libstd-<hex>...` (Unix) or `std-<hex>...`
/// (Windows): the `std` crate itself, not `libstd_detect` or `libstdc++`.
pub open spec fn is_libstd_name(name: Seq<u8>) -> bool {
    prefix_then_hex(name, libstd_dash()) || prefix_then_hex(name, std_dash())
}

/// A file name with a dynamic-library extension.
pub open spec fn is_dylib_name(name: Seq<u8>) -> bool {
    has_suffix(name, dylib_ext()) || has_suffix(name, so_ext()) || has_suffix(name, dll_ext())
}

fn is_ascii_hexdigit(b: u8) -> (r: bool)
    ensures
        r == is_ascii_hex(b),
{
    (0x30 <= b && b <= 0x39) || (0x41 <= b && b <= 0x46) || (0x61 <= b && b <= 0x66)
}

fn prefix_then_hexdigit(name: &[u8], prefix: &[u8]) -> (r: bool)
    ensures
        r == prefix_then_hex(name@, prefix@),
{
    starts_with(name, prefix) && name.len() > prefix.len() && is_ascii_hexdigit(name[prefix.len()])
}

/// Whether the file `name` is one of `std`'s own artifacts.
pub fn is_libstd_artifact(name: &str) -> (r: bool)
    ensures
        r == is_libstd_name(name.spec_bytes()),
{
    let bytes = name.as_bytes();
    let lib: [u8; 7] = [0x6cu8, 0x69, 0x62, 0x73, 0x74, 0x64, 0x2d];
    let bare: [u8; 4] = [0x73u8, 0x74, 0x64, 0x2d];
    assert(lib@ == libstd_dash());
    assert(bare@ == std_dash());
    if starts_with(bytes, lib.as_slice()) {
        return prefix_then_hexdigit(bytes, lib.as_slice());
    }
    if starts_with(bytes, bare.as_slice()) {
        return prefix_then_hexdigit(bytes, bare.as_slice());
    }
    false
}

/// Whether the file `name` ends in `.dylib`, `.so` or `.dll`.
pub fn is_dylib_extension(name: &str) -> (r: bool)
    ensures
        r == is_dylib_name(name.spec_bytes()),
{
    let bytes = name.as_bytes();
    let dylib: [u8; 6] = [0x2eu8, 0x64, 0x79, 0x6c, 0x69, 0x62];
    let so: [u8; 3] = [0x2eu8, 0x73, 0x6f];
    let dll: [u8; 4] = [0x2eu8, 0x64, 0x6c, 0x6c];
    assert(dylib@ == dylib_ext());
    assert(so@ == so_ext());
    assert(dll@ == dll_ext());
    ends_with(bytes, dylib.as_slice()) || ends_with(bytes, so.as_slice()) || ends_with(
        bytes,
        dll.as_slice(),
    )
}


/// One entry of a library directory listing: the entry's full path, its
/// file name where that name is valid UTF-8, and its modification time in
/// nanoseconds since the Unix epoch (0 where the file system gives none).
pub struct LibdirEntry {
    pub path: String,
    pub file_name: Option<String>,
    pub modified: u128,
}

/// The UTF-8 bytes of the entry's file name, if it has one.
pub open spec fn entry_name(e: LibdirEntry) -> Option<Seq<u8>> {
    match e.file_name {
        Some(n) => Some(encode_utf8(n@)),
        None => None,
    }
}

/// The entry is `std`'s metadata file `libstd-<hex>....rmeta`.
pub open spec fn is_rmeta_entry(e: LibdirEntry) -> bool {
    entry_name(e) matches Some(n) && is_libstd_name(n) && has_suffix(n, rmeta_ext())
}

/// The entry is `std`'s dynamic library (and not its `.rmeta`).
pub open spec fn is_dylib_entry(e: LibdirEntry) -> bool {
    entry_name(e) matches Some(n) && is_libstd_name(n) && !has_suffix(n, rmeta_ext())
        && is_dylib_name(n)
}

/// Where the hash of a `std` artifact name starts: after `libstd-` or
/// after `std-`.
pub open spec fn hash_start(name: Seq<u8>) -> int {
    if has_prefix(name, libstd_dash()) {
        7
    } else {
        4
    }
}

/// The first index at or after `i` that holds a `.`, or the length.
pub open spec fn dot_from(name: Seq<u8>, i: int) -> int
    decreases name.len() - i,
{
    if i >= name.len() {
        name.len() as int
    } else if name[i] == 0x2e {
        i
    } else {
        dot_from(name, i + 1)
    }
}

/// The hash of a `std` artifact name: the text after `libstd-` or `std-`
/// up to the first `.`.
pub open spec fn libstd_hash(name: Seq<u8>) -> Seq<u8> {
    name.subrange(hash_start(name), dot_from(name, hash_start(name)))
}

/// The hash of the entry's file name.
pub open spec fn entry_hash(e: LibdirEntry) -> Seq<u8> {
    libstd_hash(entry_name(e)->0)
}

/// Entry `d` is `std`'s dynamic library and entry `m` the metadata file of
/// the same hash.
pub open spec fn is_libstd_pair(es: Seq<LibdirEntry>, d: int, m: int) -> bool {
    &&& 0 <= d < es.len()
    &&& 0 <= m < es.len()
    &&& is_dylib_entry(es[d])
    &&& is_rmeta_entry(es[m])
    &&& entry_hash(es[d]) == entry_hash(es[m])
}

/// When a pair was last written: the later of its two modification times.
pub open spec fn pair_time(es: Seq<LibdirEntry>, d: int, m: int) -> int {
    if es[d].modified >= es[m].modified {
        es[d].modified as int
    } else {
        es[m].modified as int
    }
}

/// Pair `(d2, m2)` comes after pair `(d, m)` in listing order.
pub open spec fn pair_after(d2: int, m2: int, d: int, m: int) -> bool {
    d2 > d || (d2 == d && m2 > m)
}

/// `(d, m)` is the freshest pair of the listing: no pair was written
/// later, and every pair listed after it was written earlier (among
/// equally fresh pairs, the last listed).
pub open spec fn is_freshest_pair(es: Seq<LibdirEntry>, d: int, m: int) -> bool {
    &&& is_libstd_pair(es, d, m)
    &&& forall|d2: int, m2: int|
        #![trigger is_libstd_pair(es, d2, m2)]
        is_libstd_pair(es, d2, m2) ==> pair_time(es, d2, m2) <= pair_time(es, d, m) && (pair_after(
            d2,
            m2,
            d,
            m,
        ) ==> pair_time(es, d2, m2) < pair_time(es, d, m))
}

/// The freshest pair of the listing, if it holds any pair.
pub open spec fn freshest_pair(es: Seq<LibdirEntry>) -> Option<(int, int)> {
    if exists|d: int, m: int| is_freshest_pair(es, d, m) {
        let (d, m) = choose|d: int, m: int| is_freshest_pair(es, d, m);
        Some((d, m))
    } else {
        None
    }
}

/// The paths of the freshest same-hash pair of `std`'s dynamic library and
/// metadata in a listing.
pub open spec fn libstd_pair(es: Seq<LibdirEntry>) -> Option<(String, String)> {
    match freshest_pair(es) {
        Some((d, m)) => Some((es[d].path, es[m].path)),
        None => None,
    }
}

/// A listing has at most one freshest pair.
pub proof fn law_freshest_pair_is_unique(es: Seq<LibdirEntry>, d1: int, m1: int, d2: int, m2: int)
    requires
        is_freshest_pair(es, d1, m1),
        is_freshest_pair(es, d2, m2),
    ensures
        d1 == d2 && m1 == m2,
{
    assert(is_libstd_pair(es, d1, m1));
    assert(is_libstd_pair(es, d2, m2));
}

/// From any pair, following fresher (or equally fresh, later) pairs
/// reaches the freshest one.
proof fn lemma_reach_freshest(es: Seq<LibdirEntry>, d: int, m: int) -> (p: (int, int))
    requires
        is_libstd_pair(es, d, m),
    ensures
        is_freshest_pair(es, p.0, p.1),
    decreases u128::MAX - pair_time(es, d, m), es.len() - d, es.len() - m,
{
    if is_freshest_pair(es, d, m) {
        (d, m)
    } else {
        let (d2, m2) = choose|d2: int, m2: int|
            #![trigger is_libstd_pair(es, d2, m2)]
            is_libstd_pair(es, d2, m2) && !(pair_time(es, d2, m2) <= pair_time(es, d, m) && (
            pair_after(d2, m2, d, m) ==> pair_time(es, d2, m2) < pair_time(es, d, m)));
        assert(is_libstd_pair(es, d2, m2));
        assert(pair_time(es, d2, m2) <= u128::MAX);
        lemma_reach_freshest(es, d2, m2)
    }
}

/// A listing that holds a same-hash pair has a freshest pair, and
/// `freshest_pair` names it.
pub proof fn law_pair_found_when_present(es: Seq<LibdirEntry>, d: int, m: int)
    requires
        is_libstd_pair(es, d, m),
    ensures
        freshest_pair(es) matches Some(p) && is_freshest_pair(es, p.0, p.1),
{
    let q = lemma_reach_freshest(es, d, m);
    assert(is_freshest_pair(es, q.0, q.1));
    let (d2, m2) = choose|d2: int, m2: int| is_freshest_pair(es, d2, m2);
    law_freshest_pair_is_unique(es, q.0, q.1, d2, m2);
}

/// A hexadecimal digit: `0-9`, `a-f`, `A-F`.
pub open spec fn is_hex_digit_byte(b: u8) -> bool {
    ||| 0x30 <= b <= 0x39
    ||| 0x61 <= b <= 0x66
    ||| 0x41 <= b <= 0x46
}

/// Any name `libstd-<h>...` or `std-<h>...` whose hash starts with a hex
/// digit, in either case, names a `std` artifact.
pub proof fn law_hex_hashed_names_are_artifacts(h: Seq<u8>, rest: Seq<u8>)
    requires
        h.len() > 0,
        is_hex_digit_byte(h[0]),
    ensures
        is_libstd_name(libstd_dash() + h + rest),
        is_libstd_name(std_dash() + h + rest),
{
    let a = libstd_dash() + h + rest;
    let b = std_dash() + h + rest;
    assert(a.subrange(0, 7) =~= libstd_dash());
    assert(b.subrange(0, 4) =~= std_dash());
    assert(a[7] == h[0]);
    assert(b[4] == h[0]);
}

proof fn lemma_dot_from_at(n: Seq<u8>, i: int, m: int)
    requires
        0 <= i <= m < n.len(),
        n[m] == 0x2e,
        forall|j: int| i <= j < m ==> n[j] != 0x2e,
    ensures
        dot_from(n, i) == m,
    decreases m - i,
{
    if i < m {
        lemma_dot_from_at(n, i + 1, m);
    }
}

/// A listing of `libstd-<h>.so` and `libstd-<h>.rmeta`, for any hash `h` of
/// hex digits, yields exactly that pair, whatever the two entries' paths and
/// modification times.
pub proof fn law_so_and_rmeta_of_one_hash_pair_up(e1: LibdirEntry, e2: LibdirEntry, h: Seq<u8>)
    requires
        h.len() > 0,
        forall|j: int| 0 <= j < h.len() ==> #[trigger] is_hex_digit_byte(h[j]),
        entry_name(e1) == Some(libstd_dash() + h + so_ext()),
        entry_name(e2) == Some(libstd_dash() + h + rmeta_ext()),
    ensures
        libstd_pair(seq![e1, e2]) == Some((e1.path, e2.path)),
{
    let es = seq![e1, e2];
    let n1 = libstd_dash() + h + so_ext();
    let n2 = libstd_dash() + h + rmeta_ext();
    let m = 7 + h.len() as int;
    assert(is_hex_digit_byte(h[0]));
    law_hex_hashed_names_are_artifacts(h, so_ext());
    law_hex_hashed_names_are_artifacts(h, rmeta_ext());
    assert(n1.subrange(n1.len() - 3, n1.len() as int) =~= so_ext());
    assert(n2.subrange(n2.len() - 6, n2.len() as int) =~= rmeta_ext());
    assert(!has_suffix(n1, rmeta_ext())) by {
        assert(n1.subrange(n1.len() - 6, n1.len() as int)[5] == 0x6f);
    }
    assert(n1.subrange(0, 7) =~= libstd_dash());
    assert(n2.subrange(0, 7) =~= libstd_dash());
    assert forall|j: int| 7 <= j < m implies n1[j] != 0x2e && n2[j] != 0x2e by {
        assert(n1[j] == h[j - 7]);
        assert(n2[j] == h[j - 7]);
        assert(is_hex_digit_byte(h[j - 7]));
    }
    assert(n1[m] == 0x2e && n2[m] == 0x2e);
    lemma_dot_from_at(n1, 7, m);
    lemma_dot_from_at(n2, 7, m);
    assert(libstd_hash(n1) =~= h);
    assert(libstd_hash(n2) =~= h);
    assert(es[0] == e1 && es[1] == e2);
    assert(is_dylib_entry(e1) && !is_rmeta_entry(e1));
    assert(is_rmeta_entry(e2) && !is_dylib_entry(e2));
    assert(is_libstd_pair(es, 0, 1));
    assert forall|d2: int, m2: int| is_libstd_pair(es, d2, m2) implies d2 == 0 && m2 == 1 by {
    }
    assert(is_freshest_pair(es, 0, 1));
    let (d, r) = choose|d: int, r: int| is_freshest_pair(es, d, r);
    law_freshest_pair_is_unique(es, 0, 1, d, r);
}

fn libstd_hash_range(name: &[u8]) -> (r: (usize, usize))
    requires
        is_libstd_name(name@),
    ensures
        r.0 == hash_start(name@),
        r.1 == dot_from(name@, hash_start(name@)),
        r.0 <= r.1 <= name@.len(),
{
    let lib: [u8; 7] = [0x6cu8, 0x69, 0x62, 0x73, 0x74, 0x64, 0x2d];
    assert(lib@ == libstd_dash());
    let start: usize = if starts_with(name, lib.as_slice()) {
        7
    } else {
        4
    };
    let mut i = start;
    while i < name.len() && name[i] != 0x2e
        invariant
            start <= i <= name@.len(),
            dot_from(name@, i as int) == dot_from(name@, start as int),
        decreases name.len() - i,
    {
        i = i + 1;
    }
    (start, i)
}

fn classify_entry(e: &LibdirEntry) -> (r: (bool, bool))
    ensures
        r.0 == is_dylib_entry(*e),
        r.1 == is_rmeta_entry(*e),
{
    match &e.file_name {
        Some(n) => {
            let name = n.as_str();
            if !is_libstd_artifact(name) {
                return (false, false);
            }
            let rmeta: [u8; 6] = [0x2eu8, 0x72, 0x6d, 0x65, 0x74, 0x61];
            assert(rmeta@ == rmeta_ext());
            if ends_with(name.as_bytes(), rmeta.as_slice()) {
                (false, true)
            } else {
                (is_dylib_extension(name), false)
            }
        },
        None => (false, false),
    }
}

/// Whether entries `d` and `m` form a same-hash pair of `std`'s dynamic
/// library and metadata.
fn pair_at(entries: &Vec<LibdirEntry>, d: usize, m: usize) -> (r: bool)
    requires
        d < entries@.len(),
        m < entries@.len(),
    ensures
        r == is_libstd_pair(entries@, d as int, m as int),
{
    let (d_is_dylib, _) = classify_entry(&entries[d]);
    let (_, m_is_rmeta) = classify_entry(&entries[m]);
    if !(d_is_dylib && m_is_rmeta) {
        return false;
    }
    match (&entries[d].file_name, &entries[m].file_name) {
        (Some(dn), Some(mn)) => {
            let db = dn.as_str().as_bytes();
            let mb = mn.as_str().as_bytes();
            let (ds, de) = libstd_hash_range(db);
            let (ms, me) = libstd_hash_range(mb);
            ranges_equal(db, ds, de, mb, ms, me)
        },
        _ => false,
    }
}

/// Scans a library directory listing for `std`'s dynamic library
/// (`libstd-<hash>.dylib`, `.so` or `std-<hash>.dll`) and its sibling
/// `libstd-<hash>.rmeta` of the same hash, returning both paths, or `None`
/// if no such pair is there. Of several pairs, the freshest is taken: the
/// one whose later modification time is the latest, and of equally fresh
/// ones, the last listed.
pub fn find_libstd_pair(entries: &Vec<LibdirEntry>) -> (r: Option<(String, String)>)
    ensures
        r == libstd_pair(entries@),
{
    let n = entries.len();
    let mut best: Option<(usize, usize, u128)> = None;
    let mut d: usize = 0;
    while d < n
        invariant
            n == entries@.len(),
            d <= n,
            best matches Some((bd, bm, bt)) ==> is_libstd_pair(entries@, bd as int, bm as int)
                && bt == pair_time(entries@, bd as int, bm as int) && bd < d,
            forall|d2: int, m2: int|
                #![trigger is_libstd_pair(entries@, d2, m2)]
                is_libstd_pair(entries@, d2, m2) && d2 < d ==> (best matches Some((bd, bm, bt))
                    && pair_time(entries@, d2, m2) <= bt && (pair_after(d2, m2, bd as int, bm as int)
                    ==> pair_time(entries@, d2, m2) < bt)),
        decreases n - d,
    {
        let mut m: usize = 0;
        while m < n
            invariant
                n == entries@.len(),
                d < n,
                m <= n,
                best matches Some((bd, bm, bt)) ==> is_libstd_pair(entries@, bd as int, bm as int)
                    && bt == pair_time(entries@, bd as int, bm as int) && (bd < d || (bd == d && bm
                    < m)),
                forall|d2: int, m2: int|
                    #![trigger is_libstd_pair(entries@, d2, m2)]
                    is_libstd_pair(entries@, d2, m2) && (d2 < d || (d2 == d && m2 < m)) ==> (
                    best matches Some((bd, bm, bt)) && pair_time(entries@, d2, m2) <= bt && (
                    pair_after(d2, m2, bd as int, bm as int) ==> pair_time(entries@, d2, m2) < bt)),
            decreases n - m,
        {
            if pair_at(entries, d, m) {
                let t = if entries[d].modified >= entries[m].modified {
                    entries[d].modified
                } else {
                    entries[m].modified
                };
                let replace = match best {
                    Some((_, _, bt)) => t >= bt,
                    None => true,
                };
                if replace {
                    best = Some((d, m, t));
                }
            }
            m = m + 1;
        }
        d = d + 1;
    }
    match best {
        Some((bd, bm, _)) => {
            proof {
                assert(is_freshest_pair(entries@, bd as int, bm as int));
                let (d2, m2) = choose|d2: int, m2: int| is_freshest_pair(entries@, d2, m2);
                law_freshest_pair_is_unique(entries@, bd as int, bm as int, d2, m2);
            }
            Some((entries[bd].path.clone(), entries[bm].path.clone()))
        },
        None => {
            proof {
                assert forall|d2: int, m2: int| !is_freshest_pair(entries@, d2, m2) by {
                    if is_freshest_pair(entries@, d2, m2) {
                        assert(is_libstd_pair(entries@, d2, m2));
                    }
                }
            }
            None
        },
    }
}

/// The `--extern` argument for one `std` artifact path.
fn force_std_arg(path: &String) -> (r: String)
    ensures
        r@ == "force:std="@ + path@,
{
    let mut arg = "force:std=".to_owned();
    arg.append(path.as_str());
    arg
}

/// The `--extern force:std=<dylib> --extern force:std=<rmeta>` arguments
/// for a sysroot library directory, given its listing, naming its freshest
/// same-hash pair; empty when the directory could not be read (`None`) or
/// holds no such pair.
pub fn std_link_args(listing: Option<&Vec<LibdirEntry>>) -> (r: Vec<String>)
    ensures
        r@.map_values(|a: String| a@) == (match listing {
            Some(es) => match libstd_pair(es@) {
                Some((d, m)) => seq![
                    "--extern"@,
                    "force:std="@ + d@,
                    "--extern"@,
                    "force:std="@ + m@,
                ],
                None => Seq::empty(),
            },
            None => Seq::empty(),
        }),
{
    let entries = match listing {
        Some(es) => es,
        None => {
            let r: Vec<String> = Vec::new();
            assert(r@.map_values(|a: String| a@) =~= Seq::empty());
            return r;
        },
    };
    match find_libstd_pair(entries) {
        Some((dylib, rmeta)) => {
            let mut r: Vec<String> = Vec::new();
            r.push("--extern".to_owned());
            r.push(force_std_arg(&dylib));
            r.push("--extern".to_owned());
            r.push(force_std_arg(&rmeta));
            assert(r@.map_values(|a: String| a@) =~= seq![
                "--extern"@,
                "force:std="@ + dylib@,
                "--extern"@,
                "force:std="@ + rmeta@,
            ]);
            r
        },
        None => {
            let r: Vec<String> = Vec::new();
            assert(r@.map_values(|a: String| a@) =~= Seq::empty());
            r
        },
    }
}

} // verus!
