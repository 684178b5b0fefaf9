use cascade_dylib::{contains_no_std_token, is_ident_byte, scan_for_no_std};

#[test]
fn detects_basic_no_std() {
    assert!(scan_for_no_std("#![no_std]\n"));
}

#[test]
fn detects_after_comments() {
    assert!(scan_for_no_std(
        "// SPDX-License-Identifier: MIT\n\n#![no_std]\n\npub fn x() {}\n"
    ));
}

#[test]
fn detects_after_other_inner_attrs() {
    assert!(scan_for_no_std(
        "#![allow(dead_code)]\n#![no_std]\npub fn x() {}\n"
    ));
}

#[test]
fn rejects_when_absent() {
    assert!(!scan_for_no_std("pub fn x() {}\n"));
}

#[test]
fn rejects_inside_function_body() {
    assert!(!scan_for_no_std("pub fn x() {\n    // #![no_std]\n}\n"));
}

#[test]
fn rejects_in_line_comment() {
    assert!(!scan_for_no_std("// #![no_std]\npub fn x() {}\n"));
}

#[test]
fn skips_shebang() {
    assert!(scan_for_no_std("#!/usr/bin/env rustc\n#![no_std]\n"));
}

#[test]
fn detects_cfg_attr_no_std() {
    assert!(scan_for_no_std(
        "#![cfg_attr(not(doc), no_std)]\npub fn x() {}\n"
    ));
    assert!(scan_for_no_std(
        "#![cfg_attr(all(not(test), not(feature = \"std\")), no_std)]\npub fn x() {}\n"
    ));
}

#[test]
fn detects_multiline_cfg_attr() {
    assert!(scan_for_no_std(
        "#![cfg_attr(\n    all(not(test), not(feature = \"std\")),\n    no_std\n)]\npub fn x() {}\n"
    ));
}

#[test]
fn rejects_no_std_substring() {
    assert!(!scan_for_no_std("#![allow(not_no_std)]\npub fn x() {}\n"));
    assert!(!scan_for_no_std("#![allow(no_std_foo)]\npub fn x() {}\n"));
}

#[test]
fn empty_text_is_not_no_std() {
    assert!(!scan_for_no_std(""));
    assert!(!scan_for_no_std("   \n\t\r\n"));
}

#[test]
fn skips_block_comments() {
    assert!(scan_for_no_std("/* licence\n * text */\n#![no_std]\n"));
    assert!(scan_for_no_std("/*! crate docs */#![no_std]"));
    assert!(scan_for_no_std("/**/#![no_std]"));
}

#[test]
fn first_block_comment_close_ends_it() {
    // Nesting is not tracked: the first `*/` closes the comment, and what
    // follows is real code.
    assert!(!scan_for_no_std("/* a /* b */ c */\n#![no_std]\n"));
}

#[test]
fn unterminated_block_comment_is_refused() {
    assert!(!scan_for_no_std("/* never closed #![no_std]"));
    assert!(!scan_for_no_std("/*"));
    assert!(!scan_for_no_std("/* ends on a star *"));
}

#[test]
fn outer_attribute_ends_the_prelude() {
    assert!(!scan_for_no_std("#[allow(unused)]\n#![no_std]\n"));
}

#[test]
fn lone_slash_ends_the_prelude() {
    assert!(!scan_for_no_std("/ #![no_std]"));
}

#[test]
fn no_std_in_a_later_attribute_of_many() {
    assert!(scan_for_no_std(
        "#![doc = \"x\"]\n#![deny(missing_docs)]\n// note\n#![cfg_attr(not(test), no_std)]\n"
    ));
}

#[test]
fn attribute_without_token_is_passed_over() {
    assert!(!scan_for_no_std("#![allow(dead_code)]\npub fn x() {}\n"));
    assert!(!scan_for_no_std("#![no_stdx]\n"));
}

#[test]
fn unclosed_attribute_is_probed_to_the_end() {
    assert!(scan_for_no_std("#![cfg_attr(test, no_std"));
    assert!(!scan_for_no_std("#![cfg_attr(test, std"));
}

#[test]
fn shebang_without_newline_ends_text() {
    assert!(!scan_for_no_std("#!/bin/sh"));
    assert!(scan_for_no_std("#!\n#![no_std]"));
}

#[test]
fn token_detection_on_ranges() {
    let b = "#![no_std]".as_bytes();
    assert!(contains_no_std_token(b, 0, b.len()));
    assert!(contains_no_std_token(b, 3, 9));
    assert!(!contains_no_std_token(b, 3, 8));
    let c = "xno_std".as_bytes();
    assert!(!contains_no_std_token(c, 0, c.len()));
    // Bytes outside the range are not looked at.
    assert!(contains_no_std_token(c, 1, c.len()));
    let d = "a, no_std, b".as_bytes();
    assert!(contains_no_std_token(d, 0, d.len()));
    assert!(!contains_no_std_token(d, 0, 0));
}

#[test]
fn ident_bytes() {
    for b in [b'a', b'z', b'A', b'Z', b'0', b'9', b'_'] {
        assert!(is_ident_byte(b));
    }
    for b in [b' ', b'-', b'(', b']', b'!', 0x80u8, b'`', b'@', b'[', b'{', b'/', b':'] {
        assert!(!is_ident_byte(b));
    }
}

#[test]
fn prelude_items_in_front_leave_answer_unchanged() {
    for rest in ["#![no_std]\n", "pub fn x() {}\n", "#![allow(x)]\n#![no_std]", ""] {
        let expected = scan_for_no_std(rest);
        for prefix in [" ", "\t", "\r\n", "// comment\n", "/* c */", "#!/bin/x\n", "#![allow(a, b)]"] {
            let text = format!("{}{}", prefix, rest);
            assert_eq!(scan_for_no_std(&text), expected, "{:?}", text);
        }
        assert!(scan_for_no_std(&format!("#![no_std]{}", rest)));
    }
}
