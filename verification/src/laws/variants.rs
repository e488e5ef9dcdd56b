//! A scan does not depend on the case of letters.
use crate::mime_parse::grammar::{
    folded_by, is_charset_utf8, is_separator, is_token_byte, lemma_first_plus_same,
    lemma_scan_param_advances, lemma_token_end, lemma_token_end_is, names_charset, normalized,
    quoted_end, scan_param, scan_params, scan_spec, token_end, Scanned,
};
use crate::mime_parse::parsed::{IndexedPair, ParseError};
use crate::mime_parse::text::{lower, lower_seq};
use vstd::prelude::*;

verus! {

/// Whether two texts are one up to ASCII case, byte by byte.
pub open spec fn same_case(s: Seq<u8>, t: Seq<u8>) -> bool {
    &&& t.len() == s.len()
    &&& forall|i: int| 0 <= i < s.len() ==> lower(#[trigger] t[i]) == lower(s[i])
}

/// A run of token bytes ends at the same place in a text that is the same up to
/// ASCII case.
pub proof fn lemma_token_end_variant(s: Seq<u8>, t: Seq<u8>, from: int)
    requires
        same_case(s, t),
        0 <= from,
    ensures
        token_end(t, from) == token_end(s, from),
    decreases s.len() - from,
{
    if from < s.len() {
        assert(lower(t[from]) == lower(s[from]));
        if is_token_byte(s[from]) {
            lemma_token_end_variant(s, t, from + 1);
        }
    }
}

/// A quoted string ends at the same place in a text that is the same up to
/// ASCII case.
pub proof fn lemma_quoted_end_variant(s: Seq<u8>, t: Seq<u8>, pos: int)
    requires
        same_case(s, t),
        0 <= pos,
        quoted_end(s, pos) is Ok,
    ensures
        quoted_end(t, pos) == quoted_end(s, pos),
    decreases s.len() - pos,
{
    if pos < s.len() {
        assert(lower(t[pos]) == lower(s[pos]));
        if s[pos] == 0x22 {
        } else if s[pos] == 0x5c {
            assert(lower(t[pos + 1]) == lower(s[pos + 1]));
            lemma_quoted_end_variant(s, t, pos + 2);
        } else {
            lemma_quoted_end_variant(s, t, pos + 1);
        }
    }
}

/// A parameter has the same ranges in a text that is the same up to ASCII
/// case.
pub proof fn lemma_scan_param_variant(s: Seq<u8>, t: Seq<u8>, pos: int)
    requires
        same_case(s, t),
        0 <= pos < s.len(),
        scan_param(s, pos) is Ok,
    ensures
        scan_param(t, pos) == scan_param(s, pos),
{
    lemma_token_end_variant(s, t, pos);
    lemma_token_end(s, pos);
    let eq = token_end(s, pos);
    let start = eq + 1;
    assert(lower(t[eq]) == lower(s[eq]));
    if start < s.len() {
        assert(lower(t[start]) == lower(s[start]));
    }
    if start < s.len() && s[start] == 0x22 {
        lemma_quoted_end_variant(s, t, start + 1);
    } else {
        lemma_token_end_variant(s, t, start);
        lemma_token_end(s, start);
        let end = token_end(s, start);
        if end < s.len() {
            assert(lower(t[end]) == lower(s[end]));
        }
    }
}

/// The parameters have the same ranges in a text that is the same up to
/// ASCII case.
pub proof fn lemma_scan_params_variant(s: Seq<u8>, t: Seq<u8>, pos: int, acc: Seq<IndexedPair>)
    requires
        same_case(s, t),
        0 <= pos,
        scan_params(s, pos, acc) is Ok,
    ensures
        scan_params(t, pos, acc) == scan_params(s, pos, acc),
    decreases s.len() - pos,
{
    if pos < s.len() {
        assert(lower(t[pos]) == lower(s[pos]));
        if is_separator(s[pos]) {
            lemma_scan_params_variant(s, t, pos + 1, acc);
        } else {
            lemma_scan_param_variant(s, t, pos);
            lemma_scan_param_advances(s, pos);
            let (pair, next) = scan_param(s, pos)->Ok_0;
            lemma_scan_params_variant(s, t, next, acc.push(pair));
        }
    }
}

/// A scan finds the same in a text that is the same up to ASCII case.
pub proof fn lemma_scan_variant(s: Seq<u8>, t: Seq<u8>, can_range: bool)
    requires
        same_case(s, t),
        scan_spec(s, can_range) is Ok,
    ensures
        scan_spec(t, can_range) == scan_spec(s, can_range),
{
    lemma_token_end_variant(s, t, 0);
    lemma_token_end(s, 0);
    let slash = token_end(s, 0);
    let start = slash + 1;
    assert(lower(t[slash]) == lower(s[slash]));
    if start < s.len() {
        assert(lower(t[start]) == lower(s[start]));
    }
    if can_range && start < s.len() && s[start] == 0x2a {
        if start + 1 < s.len() {
            assert(lower(t[start + 1]) == lower(s[start + 1]));
            lemma_scan_params_variant(s, t, start + 2, seq![]);
        }
    } else {
        lemma_token_end_variant(s, t, start);
        lemma_token_end(s, start);
        let end = token_end(s, start);
        assert forall|i: int| start + 1 <= i < end implies (s[i] == 0x2b) == (t[i] == 0x2b) by {
            assert(lower(t[i]) == lower(s[i]));
        }
        lemma_first_plus_same(s, t, start + 1, end);
        if end < s.len() {
            assert(lower(t[end]) == lower(s[end]));
            lemma_scan_params_variant(s, t, end + 1, seq![]);
        }
    }
}

/// Two texts that are one up to ASCII case, range by range.
pub proof fn lemma_range_variant(s: Seq<u8>, t: Seq<u8>, from: int, to: int)
    requires
        same_case(s, t),
        0 <= from <= to <= s.len(),
    ensures
        lower_seq(t.subrange(from, to)) == lower_seq(s.subrange(from, to)),
{
    assert forall|i: int| 0 <= i < to - from implies lower(t.subrange(from, to)[i]) == lower(
        s.subrange(from, to)[i],
    ) by {
        assert(lower(t[from + i]) == lower(s[from + i]));
    }
    assert(lower_seq(t.subrange(from, to)) =~= lower_seq(s.subrange(from, to)));
}

/// Whether the ranges of a parameter lie in a text of `len` bytes.
pub open spec fn in_text(p: IndexedPair, len: int) -> bool {
    p.0.0 <= p.0.1 <= len && p.1.0 <= p.1.1 <= len
}

/// A parameter is `charset=utf-8` in a text exactly if it is in the text
/// with some bytes folded.
pub proof fn lemma_charset_variant(s: Seq<u8>, t: Seq<u8>, semi: u16, p: IndexedPair)
    requires
        same_case(s, t),
        in_text(p, s.len() as int),
    ensures
        is_charset_utf8(t, semi, p) == is_charset_utf8(s, semi, p),
        names_charset(t, p) == names_charset(s, p),
{
    lemma_range_variant(s, t, p.0.0 as int, p.0.1 as int);
    lemma_range_variant(s, t, p.1.0 as int, p.1.1 as int);
}

/// The same bytes are folded in a text and in the text with some bytes
/// folded.
pub proof fn lemma_folded_variant(s: Seq<u8>, t: Seq<u8>, pairs: Seq<IndexedPair>, n: int, i: int)
    requires
        same_case(s, t),
        0 <= n <= pairs.len(),
        forall|k: int| 0 <= k < pairs.len() ==> in_text(#[trigger] pairs[k], s.len() as int),
    ensures
        folded_by(t, pairs, n, i) == folded_by(s, pairs, n, i),
    decreases n,
{
    if n > 0 {
        lemma_folded_variant(s, t, pairs, n - 1, i);
        lemma_charset_variant(s, t, 0, pairs[n - 1]);
    }
}

/// The canonical form of a text is its own canonical form.
pub proof fn lemma_normalized_twice(s: Seq<u8>, semi: int, pairs: Seq<IndexedPair>)
    requires
        forall|k: int| 0 <= k < pairs.len() ==> in_text(#[trigger] pairs[k], s.len() as int),
    ensures
        normalized(normalized(s, semi, pairs), semi, pairs) == normalized(s, semi, pairs),
{
    let t = normalized(s, semi, pairs);
    assert forall|i: int| 0 <= i < s.len() implies #[trigger] normalized(t, semi, pairs)[i]
        == t[i] by {
        lemma_folded_variant(s, t, pairs, pairs.len() as int, i);
    }
    assert(normalized(t, semi, pairs) =~= t);
}

/// A text that ends where a scan found the separator scans as a text
/// without parameters.
pub proof fn lemma_scan_head(s: Seq<u8>, can_range: bool)
    requires
        s.len() <= 0xffff,
        scan_spec(s, can_range) matches Ok(sc) && sc.semi is Some,
    ensures
        ({
            let sc = scan_spec(s, can_range)->Ok_0;
            let semi = sc.semi->Some_0;
            scan_spec(s.subrange(0, semi), can_range) == Ok::<Scanned, ParseError>(
                Scanned { slash: sc.slash, plus: sc.plus, semi: None, pairs: seq![] },
            )
        }),
{
    let sc = scan_spec(s, can_range)->Ok_0;
    let semi = sc.semi->Some_0;
    let head = s.subrange(0, semi);
    lemma_token_end(s, 0);
    let slash = token_end(s, 0);
    let start = slash + 1;
    if can_range && start < s.len() && s[start] == 0x2a {
        assert(semi == start + 1);
        lemma_token_end_is(head, 0, slash);
    } else {
        lemma_token_end(s, start);
        assert(semi == token_end(s, start));
        lemma_token_end_is(head, 0, slash);
        lemma_token_end_is(head, start, semi);
        lemma_first_plus_same(s, head, start + 1, semi);
    }
}

} // verus!
