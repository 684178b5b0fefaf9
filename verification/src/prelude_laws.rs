//! Laws of the prelude walk: what it passes over, what it detects, and
//! where it stops.
use vstd::prelude::*;
use crate::no_std_scan::{
    attr_end, block_close, declares_no_std, depth_after, has_no_std_token, is_blank, line_end,
    lemma_attr_end_bounds, lemma_block_close_bounds, lemma_line_end_bounds, no_std_word, scan_from,
    token_at,
};

verus! {

proof fn lemma_line_end_shift(p: Seq<u8>, s: Seq<u8>, k: int)
    requires
        0 <= k <= s.len(),
    ensures
        line_end(p + s, p.len() + k) == p.len() + line_end(s, k),
    decreases s.len() - k,
{
    if k < s.len() {
        assert((p + s)[p.len() + k] == s[k]);
        if s[k] != 0x0a {
            lemma_line_end_shift(p, s, k + 1);
        }
    }
}

proof fn lemma_block_close_shift(p: Seq<u8>, s: Seq<u8>, k: int)
    requires
        0 <= k <= s.len(),
    ensures
        block_close(p + s, p.len() + k) == (match block_close(s, k) {
            Some(j) => Some(p.len() + j),
            None => None,
        }),
    decreases s.len() - k,
{
    if k + 1 < s.len() {
        assert((p + s)[p.len() + k] == s[k]);
        assert((p + s)[p.len() + k + 1] == s[k + 1]);
        if !(s[k] == 0x2a && s[k + 1] == 0x2f) {
            lemma_block_close_shift(p, s, k + 1);
        }
    }
}

proof fn lemma_attr_end_shift(p: Seq<u8>, s: Seq<u8>, k: int, depth: int)
    requires
        0 <= k <= s.len(),
    ensures
        attr_end(p + s, p.len() + k, depth) == p.len() + attr_end(s, k, depth),
    decreases s.len() - k,
{
    if k < s.len() && depth > 0 {
        assert((p + s)[p.len() + k] == s[k]);
        lemma_attr_end_shift(p, s, k + 1, depth_after(depth, s[k]));
    }
}

/// The walk only ever looks forward: resumed at index `k` of `s`, it gives
/// the same answer behind any prefix `p`.
pub proof fn lemma_scan_shift(p: Seq<u8>, s: Seq<u8>, k: int)
    requires
        0 <= k,
    ensures
        scan_from(p + s, p.len() + k) == scan_from(s, k),
    decreases s.len() - k,
{
    let t = p + s;
    let i = p.len() + k;
    if k < s.len() {
        assert(t[i] == s[k]);
        if k + 1 < s.len() {
            assert(t[i + 1] == s[k + 1]);
        }
        if k + 2 < s.len() {
            assert(t[i + 2] == s[k + 2]);
        }
        if is_blank(s[k]) {
            lemma_scan_shift(p, s, k + 1);
        } else if s[k] == 0x2f && k + 1 < s.len() && s[k + 1] == 0x2f {
            lemma_line_end_shift(p, s, k + 2);
            lemma_line_end_bounds(s, k + 2);
            lemma_scan_shift(p, s, line_end(s, k + 2));
        } else if s[k] == 0x2f && k + 1 < s.len() && s[k + 1] == 0x2a {
            lemma_block_close_shift(p, s, k + 2);
            lemma_block_close_bounds(s, k + 2);
            if let Some(j) = block_close(s, k + 2) {
                lemma_scan_shift(p, s, j + 2);
            }
        } else if s[k] == 0x23 && k + 2 < s.len() && s[k + 1] == 0x21 && s[k + 2] == 0x5b {
            lemma_attr_end_shift(p, s, k + 3, 1);
            lemma_attr_end_bounds(s, k + 3, 1);
            let e = attr_end(s, k + 3, 1);
            assert(t.subrange(i, p.len() + e) =~= s.subrange(k, e));
            lemma_scan_shift(p, s, e);
        } else if s[k] == 0x23 && k + 1 < s.len() && s[k + 1] == 0x21 {
            lemma_line_end_shift(p, s, k + 1);
            lemma_line_end_bounds(s, k + 1);
            lemma_scan_shift(p, s, line_end(s, k + 1));
        }
    }
}


proof fn lemma_line_end_at(t: Seq<u8>, i: int, m: int)
    requires
        0 <= i <= m < t.len(),
        t[m] == 0x0a,
        forall|j: int| i <= j < m ==> t[j] != 0x0a,
    ensures
        line_end(t, i) == m,
    decreases m - i,
{
    if i < m {
        lemma_line_end_at(t, i + 1, m);
    }
}

proof fn lemma_block_close_at(t: Seq<u8>, i: int, m: int)
    requires
        0 <= i <= m,
        m + 1 < t.len(),
        t[m] == 0x2a && t[m + 1] == 0x2f,
        forall|j: int| #![trigger t[j]] i <= j < m ==> !(t[j] == 0x2a && t[j + 1] == 0x2f),
    ensures
        block_close(t, i) == Some(m),
    decreases m - i,
{
    if i < m {
        lemma_block_close_at(t, i + 1, m);
    }
}

proof fn lemma_block_close_none(t: Seq<u8>, i: int)
    requires
        0 <= i,
        forall|j: int| #![trigger t[j]] i <= j && j + 1 < t.len() ==> !(t[j] == 0x2a && t[j + 1] == 0x2f),
    ensures
        block_close(t, i) is None,
    decreases t.len() - i,
{
    if i + 1 < t.len() {
        lemma_block_close_none(t, i + 1);
    }
}

/// `b` never brings the nesting, started at `depth`, down to zero, and
/// leaves it at exactly one: the attribute body's brackets balance.
pub open spec fn nests_within(b: Seq<u8>, depth: int) -> bool
    decreases b.len(),
{
    if b.len() == 0 {
        depth == 1
    } else {
        depth_after(depth, b[0]) > 0 && nests_within(b.drop_first(), depth_after(depth, b[0]))
    }
}

proof fn lemma_attr_end_balanced(t: Seq<u8>, i: int, b: Seq<u8>, depth: int)
    requires
        0 <= i,
        i + b.len() < t.len(),
        t.subrange(i, i + b.len()) == b,
        t[i + b.len()] == 0x5d,
        depth > 0,
        nests_within(b, depth),
    ensures
        attr_end(t, i, depth) == i + b.len() + 1,
    decreases b.len(),
{
    if b.len() == 0 {
        assert(depth_after(depth, t[i]) == 0);
        assert(attr_end(t, i + 1, 0) == i + 1);
    } else {
        assert(t[i] == t.subrange(i, i + b.len())[0]);
        let d2 = depth_after(depth, b[0]);
        assert(t.subrange(i + 1, i + 1 + b.drop_first().len()) =~= b.drop_first()) by {
            assert forall|j: int| 0 <= j < b.drop_first().len() implies
                t.subrange(i + 1, i + 1 + b.drop_first().len())[j] == b.drop_first()[j] by {
                assert(t[i + 1 + j] == t.subrange(i, i + b.len())[j + 1]);
            }
        }
        lemma_attr_end_balanced(t, i + 1, b.drop_first(), d2);
    }
}

/// The bytes `#![` that open an inner attribute.
pub open spec fn inner_attr_open() -> Seq<u8> {
    seq![0x23u8, 0x21, 0x5b]
}

/// Blanks are passed over: a blank byte in front of a text leaves the
/// answer unchanged.
pub proof fn law_blank_is_skipped(b: u8, s: Seq<u8>)
    requires
        is_blank(b),
    ensures
        declares_no_std(seq![b] + s) == declares_no_std(s),
{
    let t = seq![b] + s;
    assert(t[0] == b);
    lemma_scan_shift(seq![b], s, 0);
}

/// A line comment `//...` with its line feed, in front of a text, leaves
/// the answer unchanged.
pub proof fn law_line_comment_is_skipped(body: Seq<u8>, s: Seq<u8>)
    requires
        forall|j: int| 0 <= j < body.len() ==> body[j] != 0x0a,
    ensures
        declares_no_std(seq![0x2fu8, 0x2f] + body + seq![0x0au8] + s) == declares_no_std(s),
{
    let c = seq![0x2fu8, 0x2f] + body + seq![0x0au8];
    let t = c + s;
    let m = body.len() + 2int;
    assert(t[0] == 0x2f && t[1] == 0x2f);
    assert(t[m] == 0x0a);
    assert forall|j: int| 2 <= j < m implies t[j] != 0x0a by {
        assert(t[j] == body[j - 2]);
    }
    lemma_line_end_at(t, 2, m);
    assert(scan_from(t, m) == scan_from(t, m + 1));
    lemma_scan_shift(c, s, 0);
}

/// A block comment `/*...*/` whose body holds no `*/`, in front of a text,
/// leaves the answer unchanged.
pub proof fn law_block_comment_is_skipped(body: Seq<u8>, s: Seq<u8>)
    requires
        forall|j: int| #![trigger body[j]] 0 <= j && j + 1 < body.len() ==> !(body[j] == 0x2a && body[j + 1] == 0x2f),
    ensures
        declares_no_std(seq![0x2fu8, 0x2a] + body + seq![0x2au8, 0x2f] + s) == declares_no_std(s),
{
    let c = seq![0x2fu8, 0x2a] + body + seq![0x2au8, 0x2f];
    let t = c + s;
    let m = body.len() + 2int;
    assert(t[0] == 0x2f && t[1] == 0x2a);
    assert(t[m] == 0x2a && t[m + 1] == 0x2f);
    assert forall|j: int| #![trigger t[j]] 2 <= j < m implies !(t[j] == 0x2a && t[j + 1] == 0x2f) by {
        assert(t[j] == body[j - 2]);
        if j + 1 < m {
            assert(t[j + 1] == body[j - 1]);
        }
    }
    lemma_block_close_at(t, 2, m);
    lemma_scan_shift(c, s, 0);
}

/// A block comment that is never closed ends the walk with `false`,
/// whatever it holds.
pub proof fn law_unclosed_block_comment_is_refused(body: Seq<u8>)
    requires
        forall|j: int| #![trigger body[j]] 0 <= j && j + 1 < body.len() ==> !(body[j] == 0x2a && body[j + 1] == 0x2f),
    ensures
        !declares_no_std(seq![0x2fu8, 0x2a] + body),
{
    let t = seq![0x2fu8, 0x2a] + body;
    assert(t[0] == 0x2f && t[1] == 0x2a);
    assert forall|j: int| #![trigger t[j]] 2 <= j && j + 1 < t.len() implies !(t[j] == 0x2a && t[j + 1] == 0x2f) by {
        assert(t[j] == body[j - 2]);
        assert(t[j + 1] == body[j - 1]);
    }
    if t.len() > 2 {
        lemma_block_close_none(t, 2);
    }
}

/// A shebang line `#!...` (not an inner attribute `#![`) with its line
/// feed, in front of a text, leaves the answer unchanged.
pub proof fn law_shebang_is_skipped(body: Seq<u8>, s: Seq<u8>)
    requires
        forall|j: int| 0 <= j < body.len() ==> body[j] != 0x0a,
        body.len() == 0 || body[0] != 0x5b,
    ensures
        declares_no_std(seq![0x23u8, 0x21] + body + seq![0x0au8] + s) == declares_no_std(s),
{
    let c = seq![0x23u8, 0x21] + body + seq![0x0au8];
    let t = c + s;
    let m = body.len() + 2int;
    assert(t[0] == 0x23 && t[1] == 0x21);
    assert(t[2] != 0x5b) by {
        if body.len() > 0 {
            assert(t[2] == body[0]);
        }
    }
    assert(t[m] == 0x0a);
    assert forall|j: int| 1 <= j < m implies t[j] != 0x0a by {
        if j >= 2 {
            assert(t[j] == body[j - 2]);
        }
    }
    lemma_line_end_at(t, 1, m);
    assert(scan_from(t, m) == scan_from(t, m + 1));
    lemma_scan_shift(c, s, 0);
}

/// An inner attribute `#![...]` whose brackets balance, in front of a
/// text, is detected when it holds the whole token `no_std`, and is passed
/// over otherwise.
pub proof fn law_inner_attribute(body: Seq<u8>, s: Seq<u8>)
    requires
        nests_within(body, 1),
    ensures
        declares_no_std(inner_attr_open() + body + seq![0x5du8] + s) == (has_no_std_token(
            inner_attr_open() + body + seq![0x5du8],
        ) || declares_no_std(s)),
{
    let a = inner_attr_open() + body + seq![0x5du8];
    let t = a + s;
    assert(t[0] == 0x23 && t[1] == 0x21 && t[2] == 0x5b);
    assert(t.subrange(3, 3 + body.len() as int) =~= body);
    assert(t[3 + body.len() as int] == 0x5d);
    lemma_attr_end_balanced(t, 3, body, 1);
    assert(t.subrange(0, a.len() as int) =~= a);
    lemma_scan_shift(a, s, 0);
}

/// The attribute `#![no_std]` at the top of a text is detected, whatever
/// follows it.
pub proof fn law_no_std_attribute_is_detected(s: Seq<u8>)
    ensures
        declares_no_std(seq![0x23u8, 0x21, 0x5b, 0x6e, 0x6f, 0x5f, 0x73, 0x74, 0x64, 0x5d] + s),
{
    let body = seq![0x6eu8, 0x6f, 0x5f, 0x73, 0x74, 0x64];
    let a = inner_attr_open() + body + seq![0x5du8];
    assert(a =~= seq![0x23u8, 0x21, 0x5b, 0x6e, 0x6f, 0x5f, 0x73, 0x74, 0x64, 0x5d]);
    reveal_with_fuel(nests_within, 7);
    assert(nests_within(body, 1));
    law_inner_attribute(body, s);
    assert(a.subrange(3, 9) =~= no_std_word());
    assert(token_at(a, 3));
}

/// The walk stops with `false` at the first byte that starts no prelude
/// item: real code, an outer attribute `#[...]`, or a lone `/`.
pub proof fn law_code_ends_the_prelude(s: Seq<u8>)
    requires
        s.len() > 0,
        !is_blank(s[0]),
        s[0] == 0x2f ==> s.len() == 1 || (s[1] != 0x2f && s[1] != 0x2a),
        s[0] == 0x23 ==> s.len() == 1 || s[1] != 0x21,
    ensures
        !declares_no_std(s),
{
}


/// An ASCII letter, digit or `_`.
pub open spec fn is_ascii_word_byte(b: u8) -> bool {
    ||| 0x30 <= b <= 0x39
    ||| 0x41 <= b <= 0x5a
    ||| 0x61 <= b <= 0x7a
    ||| b == 0x5f
}

/// `no_std` standing alone is a whole token.
pub proof fn law_bare_word_is_a_token()
    ensures
        has_no_std_token(no_std_word()),
{
    assert(no_std_word().subrange(0, 6) =~= no_std_word());
    assert(token_at(no_std_word(), 0));
}

/// `no_std` between any two bytes that are neither ASCII letters, digits
/// nor `_` (blanks, `\r`, punctuation, non-ASCII bytes) is a whole token.
pub proof fn law_token_between_non_word_bytes(a: u8, b: u8)
    requires
        !is_ascii_word_byte(a),
        !is_ascii_word_byte(b),
    ensures
        has_no_std_token(seq![a] + no_std_word() + seq![b]),
{
    let t = seq![a] + no_std_word() + seq![b];
    assert(t.subrange(1, 7) =~= no_std_word());
    assert(t[0] == a && t[7] == b);
    assert(token_at(t, 1));
}

/// An ASCII letter, digit or `_` right before `no_std` makes it part of a
/// longer identifier: no whole token is there.
pub proof fn law_word_byte_before_hides_token(a: u8)
    requires
        is_ascii_word_byte(a),
    ensures
        !has_no_std_token(seq![a] + no_std_word()),
{
    let t = seq![a] + no_std_word();
    assert forall|k: int| !token_at(t, k) by {
        if 0 <= k && k + 6 <= t.len() {
            if k == 0 {
                assert(t.subrange(0, 6)[1] != no_std_word()[1]);
            } else {
                assert(k == 1);
                assert(t[0] == a);
            }
        }
    }
}

/// An ASCII letter, digit or `_` right after `no_std` makes it part of a
/// longer identifier: no whole token is there.
pub proof fn law_word_byte_after_hides_token(b: u8)
    requires
        is_ascii_word_byte(b),
    ensures
        !has_no_std_token(no_std_word() + seq![b]),
{
    let t = no_std_word() + seq![b];
    assert forall|k: int| !token_at(t, k) by {
        if 0 <= k && k + 6 <= t.len() {
            if k == 1 {
                assert(t.subrange(1, 7)[0] != no_std_word()[0]);
            } else {
                assert(k == 0);
                assert(t[6] == b);
            }
        }
    }
}

} // verus!
