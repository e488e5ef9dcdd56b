//! Case insensitivity: texts that differ in the case of letters.
use crate::cmp::mime_eq_spec;
use crate::mime_parse::grammar::{
    build, folded_by, lit, normalized, parse_spec, scan_spec, shape_of, Scanned,
};
use crate::mime_parse::text::{lower, lower_seq};
use super::equality::{law_equal_to_itself, law_symmetric};
use super::scanned::{
    lemma_bare_text, lemma_not_star_star, lemma_pairs_in_text, lemma_scanned, lemma_utf8_essence,
};
use super::variants::{
    in_text, lemma_charset_variant, lemma_folded_variant, lemma_range_variant,
    lemma_scan_variant, same_case,
};
use vstd::prelude::*;

verus! {

/// Whether the byte at `i` of a scanned text is one whose case does not
/// matter: a byte of the essence, of a parameter name, or of a value of
/// `charset`.
pub open spec fn case_free(s: Seq<u8>, sc: Scanned, i: int) -> bool {
    match sc.semi {
        None => true,
        Some(semi) => i < semi || folded_by(s, sc.pairs, sc.pairs.len() as int, i),
    }
}

/// Whether `t` is the scanned text `s` but for the case of letters whose
/// case does not matter.
pub open spec fn differs_in_case(s: Seq<u8>, t: Seq<u8>, sc: Scanned) -> bool {
    &&& t.len() == s.len()
    &&& forall|i: int|
        0 <= i < s.len() ==> #[trigger] t[i] == s[i] || (lower(t[i]) == lower(s[i]) && case_free(
            s,
            sc,
            i,
        ))
}

/// Case insensitivity: a text that differs from one that parses in the
/// case of letters only, and only in the essence, in parameter names and
/// in values of `charset`, parses too, and its value is equal to that of
/// the other text, either way round.
pub proof fn law_case_insensitive(s: Seq<u8>, t: Seq<u8>, can_range: bool)
    requires
        parse_spec(s, can_range) is Ok,
        if s == lit("*/*") {
            t == s
        } else {
            differs_in_case(s, t, scan_spec(s, can_range)->Ok_0)
        },
    ensures
        ({
            let v = parse_spec(s, can_range)->Ok_0;
            parse_spec(t, can_range) matches Ok(w) && mime_eq_spec(w, v) && mime_eq_spec(v, w)
        }),
{
    let v = parse_spec(s, can_range)->Ok_0;
    law_equal_to_itself(v);
    if let Ok(w) = parse_spec(t, can_range) {
        law_symmetric(w, v);
    }
    if s != lit("*/*") {
        let sc = scan_spec(s, can_range)->Ok_0;
        lemma_scanned(s, can_range);
        lemma_pairs_in_text(s, sc, can_range);
        lemma_scan_variant(s, t, can_range);
        lemma_not_star_star(s, t);
        match sc.semi {
            None => {
                lemma_case_bare(s, t, sc);
            },
            Some(semi) => {
                if sc.pairs.len() == 0 {
                    lemma_case_head(s, t, sc);
                } else if shape_of(s, semi as u16, sc.pairs) is Utf8 {
                    lemma_case_utf8(s, t, sc);
                } else {
                    lemma_case_params(s, t, sc);
                }
            },
        }
    }
}

/// Whether the values for what a scan found in two texts are equal.
spec fn equal_values(s: Seq<u8>, t: Seq<u8>, sc: Scanned) -> bool {
    mime_eq_spec(build(t, sc), build(s, sc))
}

/// Two texts without parameters that are one up to ASCII case have equal
/// values.
proof fn lemma_case_bare(s: Seq<u8>, t: Seq<u8>, sc: Scanned)
    requires
        same_case(s, t),
        0 < sc.slash < s.len(),
        s[sc.slash] == 0x2f,
        sc.semi is None,
    ensures
        equal_values(s, t, sc),
{
    let v = build(s, sc);
    let w = build(t, sc);
    law_equal_to_itself(v);
    assert(lower(t[sc.slash]) == lower(s[sc.slash]));
    lemma_bare_text(s, sc.slash);
    lemma_bare_text(t, sc.slash);
    assert(lower_seq(s) =~= lower_seq(t));
    assert(v.bytes == w.bytes);
    assert(w.essence() =~= v.essence());
}

/// Two texts that end before a separator without parameters, and are one
/// up to ASCII case, have equal values.
proof fn lemma_case_head(s: Seq<u8>, t: Seq<u8>, sc: Scanned)
    requires
        same_case(s, t),
        s.len() <= 0xffff,
        0 < sc.slash,
        sc.semi matches Some(semi) && sc.slash < semi < s.len(),
        s[sc.slash] == 0x2f,
        sc.pairs.len() == 0,
    ensures
        equal_values(s, t, sc),
{
    let semi = sc.semi->Some_0;
    let bare = Scanned { slash: sc.slash, plus: sc.plus, semi: None, pairs: seq![] };
    let hs = s.subrange(0, semi);
    let ht = t.subrange(0, semi);
    assert forall|i: int| 0 <= i < hs.len() implies lower(#[trigger] ht[i]) == lower(hs[i]) by {
        assert(lower(t[i]) == lower(s[i]));
    }
    lemma_case_bare(hs, ht, bare);
    assert(build(s, sc) == build(hs, bare));
    assert(build(t, sc) == build(ht, bare));
}

/// Two texts whose one parameter is `charset=utf-8`, and that are one up to
/// ASCII case, have equal values.
proof fn lemma_case_utf8(s: Seq<u8>, t: Seq<u8>, sc: Scanned)
    requires
        same_case(s, t),
        s.len() <= 0xffff,
        0 < sc.slash,
        sc.semi matches Some(semi) && sc.slash < semi < s.len() && shape_of(
            s,
            semi as u16,
            sc.pairs,
        ) is Utf8,
        s[sc.slash] == 0x2f,
        in_text(sc.pairs[0], s.len() as int),
    ensures
        equal_values(s, t, sc),
{
    let semi = sc.semi->Some_0;
    let v = build(s, sc);
    lemma_charset_variant(s, t, semi as u16, sc.pairs[0]);
    let w = build(t, sc);
    law_equal_to_itself(v);
    assert(lower(t[sc.slash]) == lower(s[sc.slash]));
    lemma_utf8_essence(s, sc.slash, semi);
    lemma_utf8_essence(t, sc.slash, semi);
    lemma_range_variant(s, t, 0, semi);
    assert(lower_seq(w.essence()) =~= w.essence());
    assert(lower_seq(v.essence()) =~= v.essence());
    assert(w.params() == v.params());
    if v.atom != 0 && w.atom != 0 {
        let ts = s.subrange(0, sc.slash);
        let tt = t.subrange(0, sc.slash);
        let ss = s.subrange(sc.slash + 1, semi);
        let st = t.subrange(sc.slash + 1, semi);
        assert(ts =~= v.essence().subrange(0, sc.slash));
        assert(tt =~= w.essence().subrange(0, sc.slash));
        assert(ss =~= v.essence().subrange(sc.slash + 1, semi));
        assert(st =~= w.essence().subrange(sc.slash + 1, semi));
    }
}

/// Two texts with parameters that differ in the case of letters only whose
/// case does not matter have the same value.
proof fn lemma_case_params(s: Seq<u8>, t: Seq<u8>, sc: Scanned)
    requires
        differs_in_case(s, t, sc),
        s.len() <= 0xffff,
        sc.semi matches Some(semi) && sc.pairs.len() > 0 && !(shape_of(s, semi as u16, sc.pairs)
            is Utf8),
        forall|k: int|
            0 <= k < sc.pairs.len() ==> in_text(#[trigger] sc.pairs[k], s.len() as int),
    ensures
        build(t, sc) == build(s, sc),
{
    let semi = sc.semi->Some_0;
    lemma_charset_variant(s, t, semi as u16, sc.pairs[0]);
    let n = sc.pairs.len() as int;
    assert forall|i: int| 0 <= i < s.len() implies #[trigger] normalized(t, semi, sc.pairs)[i]
        == normalized(s, semi, sc.pairs)[i] by {
        lemma_folded_variant(s, t, sc.pairs, n, i);
        assert(t[i] == s[i] || (lower(t[i]) == lower(s[i]) && case_free(s, sc, i)));
    }
    assert(normalized(t, semi, sc.pairs) =~= normalized(s, semi, sc.pairs));
}

} // verus!
