use cascade_dylib::{find_libstd_pair, is_dylib_extension, is_libstd_artifact, std_link_args, LibdirEntry};

#[test]
fn libstd_artifact_recognizes_unix() {
    assert!(is_libstd_artifact("libstd-6eb430e61c7aea8a.dylib"));
    assert!(is_libstd_artifact("libstd-6eb430e61c7aea8a.so"));
    assert!(is_libstd_artifact("libstd-6eb430e61c7aea8a.rlib"));
    assert!(is_libstd_artifact("libstd-6eb430e61c7aea8a.rmeta"));
}

#[test]
fn libstd_artifact_recognizes_windows() {
    assert!(is_libstd_artifact("std-6eb430e61c7aea8a.dll"));
}

#[test]
fn libstd_artifact_rejects_neighbors() {
    assert!(!is_libstd_artifact("libstd_detect-abc.rlib"));
    assert!(!is_libstd_artifact("libstdc++.dylib"));
    assert!(!is_libstd_artifact("libstd.dylib"));
}

#[test]
fn libstd_artifact_edge_names() {
    assert!(!is_libstd_artifact("libstd-"));
    assert!(!is_libstd_artifact("std-"));
    assert!(!is_libstd_artifact(""));
    assert!(!is_libstd_artifact("libstd-g00.so"));
    assert!(!is_libstd_artifact("libstd-é.so"));
    assert!(is_libstd_artifact("libstd-F"));
    assert!(is_libstd_artifact("std-a"));
    assert!(!is_libstd_artifact("xstd-a.dll"));
}

#[test]
fn dylib_extensions() {
    assert!(is_dylib_extension("libstd-1.dylib"));
    assert!(is_dylib_extension("libstd-1.so"));
    assert!(is_dylib_extension("std-1.dll"));
    assert!(is_dylib_extension(".so"));
    assert!(!is_dylib_extension("libstd-1.rlib"));
    assert!(!is_dylib_extension("libstd-1.rmeta"));
    assert!(!is_dylib_extension("libstd-1.so.1"));
    assert!(!is_dylib_extension("so"));
}

fn entry(name: &str) -> LibdirEntry {
    timed(name, 0)
}

fn timed(name: &str, modified: u128) -> LibdirEntry {
    LibdirEntry { path: format!("/sysroot/lib/{}", name), file_name: Some(name.to_string()), modified }
}

#[test]
fn finds_dylib_and_rmeta() {
    let listing = vec![
        entry("libcore-0123.rlib"),
        entry("libstd-0a1b.so"),
        entry("libstd_detect-ff.rmeta"),
        entry("libstd-0a1b.rmeta"),
        entry("libstd-0a1b.rlib"),
    ];
    assert_eq!(
        find_libstd_pair(&listing),
        Some(("/sysroot/lib/libstd-0a1b.so".to_string(), "/sysroot/lib/libstd-0a1b.rmeta".to_string()))
    );
}

#[test]
fn freshest_pair_wins() {
    let listing = vec![
        timed("libstd-bb.dylib", 200),
        timed("libstd-bb.rmeta", 210),
        timed("libstd-aa.dylib", 100),
        timed("libstd-aa.rmeta", 110),
    ];
    assert_eq!(
        find_libstd_pair(&listing),
        Some(("/sysroot/lib/libstd-bb.dylib".to_string(), "/sysroot/lib/libstd-bb.rmeta".to_string()))
    );
    let listing = vec![
        timed("libstd-aa.dylib", 100),
        timed("libstd-aa.rmeta", 110),
        timed("libstd-bb.dylib", 90),
        timed("libstd-bb.rmeta", 95),
    ];
    assert_eq!(
        find_libstd_pair(&listing),
        Some(("/sysroot/lib/libstd-aa.dylib".to_string(), "/sysroot/lib/libstd-aa.rmeta".to_string()))
    );
}

#[test]
fn pair_freshness_is_its_later_time() {
    // aa: dylib new, rmeta old; bb: both in between. aa was written last.
    let listing = vec![
        timed("libstd-aa.so", 500),
        timed("libstd-aa.rmeta", 10),
        timed("libstd-bb.so", 300),
        timed("libstd-bb.rmeta", 300),
    ];
    assert_eq!(
        find_libstd_pair(&listing),
        Some(("/sysroot/lib/libstd-aa.so".to_string(), "/sysroot/lib/libstd-aa.rmeta".to_string()))
    );
}

#[test]
fn equally_fresh_pairs_take_the_last_listed() {
    let listing = vec![
        timed("libstd-aa.dylib", 7),
        timed("libstd-aa.rmeta", 7),
        timed("libstd-bb.dylib", 7),
        timed("libstd-bb.rmeta", 7),
    ];
    assert_eq!(
        find_libstd_pair(&listing),
        Some(("/sysroot/lib/libstd-bb.dylib".to_string(), "/sysroot/lib/libstd-bb.rmeta".to_string()))
    );
}

#[test]
fn pair_needs_the_same_hash() {
    assert_eq!(find_libstd_pair(&vec![entry("libstd-aa.so"), entry("libstd-bb.rmeta")]), None);
    let listing = vec![timed("libstd-aa.so", 9), timed("libstd-bb.rmeta", 9), timed("libstd-bb.so", 1)];
    assert_eq!(
        find_libstd_pair(&listing),
        Some(("/sysroot/lib/libstd-bb.so".to_string(), "/sysroot/lib/libstd-bb.rmeta".to_string()))
    );
    // The hash runs to the first `.`.
    assert_eq!(find_libstd_pair(&vec![entry("libstd-aa.x.so"), entry("libstd-aa.rmeta")]), Some((
        "/sysroot/lib/libstd-aa.x.so".to_string(),
        "/sysroot/lib/libstd-aa.rmeta".to_string()
    )));
    assert_eq!(find_libstd_pair(&vec![entry("libstd-aab.so"), entry("libstd-aa.rmeta")]), None);
}

#[test]
fn windows_dll_pairs_with_lib_prefixed_rmeta() {
    let listing = vec![entry("std-9f.dll"), entry("libstd-9f.rmeta"), entry("libstd-9e.rmeta")];
    assert_eq!(
        find_libstd_pair(&listing),
        Some(("/sysroot/lib/std-9f.dll".to_string(), "/sysroot/lib/libstd-9f.rmeta".to_string()))
    );
}

#[test]
fn missing_half_gives_none() {
    assert_eq!(find_libstd_pair(&vec![entry("libstd-aa.rmeta")]), None);
    assert_eq!(find_libstd_pair(&vec![entry("libstd-aa.so"), entry("libstd-aa.rlib")]), None);
    assert_eq!(find_libstd_pair(&vec![]), None);
    let unnamed = LibdirEntry { path: "/sysroot/lib/libstd-aa.so".to_string(), file_name: None, modified: 0 };
    assert_eq!(find_libstd_pair(&vec![unnamed, entry("libstd-aa.rmeta")]), None);
}

#[test]
fn link_args_for_a_full_pair() {
    let listing = vec![entry("std-9f.dll"), entry("std-9f.rmeta")];
    assert_eq!(
        std_link_args(Some(&listing)),
        vec![
            "--extern".to_string(),
            "force:std=/sysroot/lib/std-9f.dll".to_string(),
            "--extern".to_string(),
            "force:std=/sysroot/lib/std-9f.rmeta".to_string(),
        ]
    );
}

#[test]
fn link_args_empty_without_pair_or_directory() {
    assert!(std_link_args(None).is_empty());
    assert!(std_link_args(Some(&vec![entry("libstd-1.so")])).is_empty());
}
