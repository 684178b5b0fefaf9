//! Textual detection of a top-of-file `no_std` inner attribute.
//!
//! The scan walks the attribute prelude of a Rust source file: blanks, line
//! comments, block comments (the first `*/` closes them), shebang lines and
//! inner attributes `#![...]`. It answers `true` as soon as one inner
//! attribute holds `no_std` as a whole identifier, and `false` when the
//! prelude ends (anything else is real code), when a block comment is not
//! closed, or at the end of the text.
use vstd::prelude::*;
use crate::bytes::{occurs_at, matches_at};
use vstd::string::StringSliceAdditionalSpecFns;

verus! {

/// The bytes of the identifier `no_std`.
pub open spec fn no_std_word() -> Seq<u8> {
    seq![0x6eu8, 0x6f, 0x5f, 0x73, 0x74, 0x64]
}

/// ASCII letters, digits and `_`: the bytes an identifier is made of.
pub open spec fn is_ident_byte_spec(b: u8) -> bool {
    ||| 0x30 <= b <= 0x39
    ||| 0x41 <= b <= 0x5a
    ||| 0x61 <= b <= 0x7a
    ||| b == 0x5f
}

/// `no_std` stands in `t` at index `k`, with no identifier byte right
/// before or right after it.
pub open spec fn token_at(t: Seq<u8>, k: int) -> bool {
    &&& occurs_at(t, k, no_std_word())
    &&& (k == 0 || !is_ident_byte_spec(t[k - 1]))
    &&& (k + 6 == t.len() || !is_ident_byte_spec(t[k + 6]))
}

/// `t` holds the identifier `no_std` as a whole token.
pub open spec fn has_no_std_token(t: Seq<u8>) -> bool {
    exists|k: int| token_at(t, k)
}

/// Space, tab, line feed and carriage return.
pub open spec fn is_blank(b: u8) -> bool {
    b == 0x20 || b == 0x09 || b == 0x0a || b == 0x0d
}

/// The first index at or after `i` that holds a line feed, or the length
/// of `s` when there is none.
pub open spec fn line_end(s: Seq<u8>, i: int) -> int
    decreases s.len() - i,
{
    if i >= s.len() {
        s.len() as int
    } else if s[i] == 0x0a {
        i
    } else {
        line_end(s, i + 1)
    }
}

/// The first index `j` at or after `i` where `*/` starts, if any.
pub open spec fn block_close(s: Seq<u8>, i: int) -> Option<int>
    decreases s.len() - i,
{
    if i + 1 >= s.len() {
        None
    } else if s[i] == 0x2a && s[i + 1] == 0x2f {
        Some(i)
    } else {
        block_close(s, i + 1)
    }
}

/// The nesting depth after byte `b`: `[` and `(` open, `]` and `)` close.
pub open spec fn depth_after(depth: int, b: u8) -> int {
    if b == 0x5b || b == 0x28 {
        depth + 1
    } else if b == 0x5d || b == 0x29 {
        depth - 1
    } else {
        depth
    }
}

/// Where an attribute body that starts at `i` with nesting `depth` ends:
/// just past the byte that brings the depth to zero, or the length of `s`.
pub open spec fn attr_end(s: Seq<u8>, i: int, depth: int) -> int
    decreases s.len() - i,
{
    if i >= s.len() || depth <= 0 {
        i
    } else {
        attr_end(s, i + 1, depth_after(depth, s[i]))
    }
}

/// The line end found from `i` lies between `i` and the length.
pub proof fn lemma_line_end_bounds(s: Seq<u8>, i: int)
    requires
        0 <= i <= s.len(),
    ensures
        i <= line_end(s, i) <= s.len(),
    decreases s.len() - i,
{
    if i < s.len() && s[i] != 0x0a {
        lemma_line_end_bounds(s, i + 1);
    }
}

/// A `*/` found from `i` starts at or after `i` and fits in `s`.
pub proof fn lemma_block_close_bounds(s: Seq<u8>, i: int)
    ensures
        block_close(s, i) matches Some(j) ==> i <= j && j + 2 <= s.len(),
    decreases s.len() - i,
{
    if i + 1 < s.len() && !(s[i] == 0x2a && s[i + 1] == 0x2f) {
        lemma_block_close_bounds(s, i + 1);
    }
}

/// An attribute body started at `i` ends between `i` and the length.
pub proof fn lemma_attr_end_bounds(s: Seq<u8>, i: int, depth: int)
    requires
        i <= s.len(),
    ensures
        i <= attr_end(s, i, depth) <= s.len(),
    decreases s.len() - i,
{
    if i < s.len() && depth > 0 {
        lemma_attr_end_bounds(s, i + 1, depth_after(depth, s[i]));
    }
}

/// The answer of the prelude walk started at index `i` of `s`.
pub open spec fn scan_from(s: Seq<u8>, i: int) -> bool
    decreases s.len() - i,
{
    if i < 0 || i >= s.len() {
        false
    } else if is_blank(s[i]) {
        scan_from(s, i + 1)
    } else if s[i] == 0x2f && i + 1 < s.len() && s[i + 1] == 0x2f {
        // line comment
        proof {
            lemma_line_end_bounds(s, i + 2);
        }
        scan_from(s, line_end(s, i + 2))
    } else if s[i] == 0x2f && i + 1 < s.len() && s[i + 1] == 0x2a {
        // block comment
        proof {
            lemma_block_close_bounds(s, i + 2);
        }
        match block_close(s, i + 2) {
            Some(j) => scan_from(s, j + 2),
            None => false,
        }
    } else if s[i] == 0x23 && i + 2 < s.len() && s[i + 1] == 0x21 && s[i + 2] == 0x5b {
        // inner attribute
        proof {
            lemma_attr_end_bounds(s, i + 3, 1);
        }
        let e = attr_end(s, i + 3, 1);
        if has_no_std_token(s.subrange(i, e)) {
            true
        } else {
            scan_from(s, e)
        }
    } else if s[i] == 0x23 && i + 1 < s.len() && s[i + 1] == 0x21 {
        // shebang
        proof {
            lemma_line_end_bounds(s, i + 1);
        }
        scan_from(s, line_end(s, i + 1))
    } else {
        false
    }
}

/// Whether the prelude of the source text `s` declares `no_std`.
pub open spec fn declares_no_std(s: Seq<u8>) -> bool {
    scan_from(s, 0)
}


/// Whether `b` can be part of an identifier.
pub fn is_ident_byte(b: u8) -> (r: bool)
    ensures
        r == is_ident_byte_spec(b),
{
    (0x30 <= b && b <= 0x39) || (0x41 <= b && b <= 0x5a) || (0x61 <= b && b <= 0x7a) || b == 0x5f
}

/// Whether `bytes[lo..hi]` holds the identifier `no_std` as a whole token,
/// with identifier bytes outside the range not looked at.
pub fn contains_no_std_token(bytes: &[u8], lo: usize, hi: usize) -> (r: bool)
    requires
        lo <= hi <= bytes@.len(),
    ensures
        r == has_no_std_token(bytes@.subrange(lo as int, hi as int)),
{
    let ghost t = bytes@.subrange(lo as int, hi as int);
    let word: [u8; 6] = [0x6eu8, 0x6f, 0x5f, 0x73, 0x74, 0x64];
    let needle = word.as_slice();
    assert(needle@ == no_std_word());
    let mut i: usize = lo;
    while hi - i >= 6
        invariant
            lo <= i <= hi <= bytes@.len(),
            t == bytes@.subrange(lo as int, hi as int),
            needle@ == no_std_word(),
            forall|k: int| 0 <= k < i - lo ==> !token_at(t, k),
        decreases hi - i,
    {
        let k: Ghost<int> = Ghost(i - lo);
        let m = matches_at(bytes, i, needle);
        assert(m == occurs_at(t, k@, no_std_word())) by {
            assert(t.subrange(k@, k@ + 6) =~= bytes@.subrange(i as int, i + 6));
        }
        if m {
            let before_ok = i == lo || !is_ident_byte(bytes[i - 1]);
            let after = i + 6;
            let after_ok = after == hi || !is_ident_byte(bytes[after]);
            assert(k@ == 0 ==> i == lo);
            assert(k@ > 0 ==> t[k@ - 1] == bytes@[i - 1]);
            assert(k@ + 6 < t.len() ==> t[k@ + 6] == bytes@[after as int]);
            if before_ok && after_ok {
                assert(token_at(t, k@));
                return true;
            }
        }
        i = i + 1;
    }
    assert forall|k: int| !token_at(t, k) by {
        if 0 <= k < i - lo {
        }
    }
    false
}


/// Pure-text scan for a top-of-file `no_std` attribute, walking blanks,
/// line comments, block comments and shebangs, and probing each inner
/// attribute `#![...]` (brackets and parentheses nested to any depth) for
/// the whole identifier `no_std`.
pub fn scan_for_no_std(src: &str) -> (r: bool)
    ensures
        r == declares_no_std(src.spec_bytes()),
{
    let bytes = src.as_bytes();
    let ghost s = bytes@;
    let len = bytes.len();
    let mut i: usize = 0;
    while i < len
        invariant
            s == bytes@,
            s == src.spec_bytes(),
            len == s.len(),
            i <= len,
            scan_from(s, i as int) == declares_no_std(s),
        decreases len - i,
    {
        let c = bytes[i];
        if c == 0x20 || c == 0x09 || c == 0x0a || c == 0x0d {
            i = i + 1;
        } else if c == 0x2f && i + 1 < len && bytes[i + 1] == 0x2f {
            // line comment: skip to the end of the line
            let ghost target = line_end(s, i + 2);
            proof {
                lemma_line_end_bounds(s, i + 2);
            }
            i = i + 2;
            while i < len && bytes[i] != 0x0a
                invariant
                    s == bytes@,
                    len == s.len(),
                    i <= len,
                    line_end(s, i as int) == target,
                decreases len - i,
            {
                i = i + 1;
            }
        } else if c == 0x2f && i + 1 < len && bytes[i + 1] == 0x2a {
            // block comment: skip past the first `*/`
            let ghost target = block_close(s, i + 2);
            proof {
                lemma_block_close_bounds(s, i + 2);
            }
            i = i + 2;
            while len - i > 1 && !(bytes[i] == 0x2a && bytes[i + 1] == 0x2f)
                invariant
                    s == bytes@,
                    len == s.len(),
                    i <= len,
                    block_close(s, i as int) == target,
                decreases len - i,
            {
                i = i + 1;
            }
            if len - i > 1 {
                i = i + 2;
            } else {
                return false;
            }
        } else if c == 0x23 && len - i > 2 && bytes[i + 1] == 0x21 && bytes[i + 2] == 0x5b {
            // inner attribute: collect to the matching `]`
            let start = i;
            let ghost target = attr_end(s, start + 3, 1);
            proof {
                lemma_attr_end_bounds(s, start + 3, 1);
            }
            i = i + 3;
            let mut depth: usize = 1;
            while i < len && depth > 0
                invariant
                    s == bytes@,
                    len == s.len(),
                    start + 3 <= i <= len,
                    depth <= i - start - 2,
                    attr_end(s, i as int, depth as int) == target,
                decreases len - i,
            {
                let b = bytes[i];
                if b == 0x5b || b == 0x28 {
                    depth = depth + 1;
                } else if b == 0x5d || b == 0x29 {
                    depth = depth - 1;
                }
                i = i + 1;
            }
            if contains_no_std_token(bytes, start, i) {
                return true;
            }
        } else if c == 0x23 && i + 1 < len && bytes[i + 1] == 0x21 {
            // shebang: skip to the end of the line
            let ghost target = line_end(s, i + 1);
            proof {
                lemma_line_end_bounds(s, i + 1);
            }
            while i < len && bytes[i] != 0x0a
                invariant
                    s == bytes@,
                    len == s.len(),
                    i <= len,
                    line_end(s, i as int) == target,
                decreases len - i,
            {
                i = i + 1;
            }
        } else {
            // real code: the prelude is over
            return false;
        }
    }
    false
}

} // verus!
