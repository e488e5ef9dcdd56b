//! Idempotence: parsing the text of a parsed value.
use crate::cmp::mime_eq_spec;
use crate::mime_parse::constants::{
    atom_bytes, atom_charset_utf8, lemma_atom_entry, lemma_atom_found,
};
use crate::mime_parse::grammar::{
    build, is_token_byte, lemma_token_end, lit, normalized, parse_spec, scan_spec, shape_of,
    Scanned,
};
use crate::mime_parse::parsed::{MimeView, ParseError};
use crate::mime_parse::text::{lemma_ascii, lower, lower_seq};
use crate::mime_parse::wellformed::lemma_parse_wf;
use super::equality::{law_equal_to_itself, law_symmetric};
use super::scanned::{lemma_bare_text, lemma_not_star_star, lemma_pairs_in_text, lemma_scanned};
use super::table::law_table_entry_parses;
use super::variants::{
    lemma_charset_variant, lemma_normalized_twice, lemma_scan_head, lemma_scan_variant,
};
use vstd::prelude::*;

verus! {

/// Idempotence: the text of a parsed value parses again, and the value
/// that it gives is equal to the parsed value, either way round.
pub proof fn law_idempotent(s: Seq<u8>, can_range: bool)
    requires
        parse_spec(s, can_range) is Ok,
    ensures
        ({
            let v = parse_spec(s, can_range)->Ok_0;
            parse_spec(v.bytes, can_range) matches Ok(w) && mime_eq_spec(w, v) && mime_eq_spec(
                v,
                w,
            )
        }),
{
    let v = parse_spec(s, can_range)->Ok_0;
    law_equal_to_itself(v);
    if let Ok(w) = parse_spec(v.bytes, can_range) {
        law_symmetric(w, v);
    }
    lemma_parse_wf(s, can_range);
    if s == lit("*/*") {
        law_table_entry_parses(30, can_range);
    } else {
        let sc = scan_spec(s, can_range)->Ok_0;
        match sc.semi {
            None => {
                lemma_reparse_bare(s, sc, can_range);
            },
            Some(semi) => {
                if sc.pairs.len() == 0 {
                    lemma_reparse_head(s, sc, can_range);
                } else if shape_of(s, semi as u16, sc.pairs) is Utf8 {
                    if v.atom != 0 {
                        law_table_entry_parses(v.atom, can_range);
                    } else {
                        lemma_reparse_utf8(s, sc, can_range);
                    }
                } else {
                    lemma_reparse_params(s, sc, can_range);
                }
            },
        }
    }
}

/// Whether the value for what a scan found has a text that parses to a
/// value equal to it.
spec fn reparses(s: Seq<u8>, sc: Scanned, can_range: bool) -> bool {
    let v = build(s, sc);
    parse_spec(v.bytes, can_range) matches Ok(w) && mime_eq_spec(w, v)
}

/// A value without parameters has the text that was parsed in lower case,
/// and what the table yields for that text is equal to it.
proof fn lemma_reparse_bare(s: Seq<u8>, sc: Scanned, can_range: bool)
    requires
        s.len() <= 0xffff,
        s != lit("*/*"),
        scan_spec(s, can_range) == Ok::<Scanned, ParseError>(sc),
        sc.semi is None,
    ensures
        reparses(s, sc, can_range),
{
    let v = build(s, sc);
    let t = lower_seq(s);
    law_equal_to_itself(v);
    lemma_scanned(s, can_range);
    lemma_bare_text(s, sc.slash);
    assert(v.bytes == t);
    lemma_scan_variant(s, t, can_range);
    lemma_not_star_star(s, t);
    let w = build(t, sc);
    lemma_bare_text(t, sc.slash);
    assert(lower_seq(t) =~= t);
    assert(w.bytes == t);
    if v.atom != 0 {
        assert(s == t);
    } else {
        assert(w.essence() =~= v.essence());
    }
}

/// A value whose text ends before a separator without parameters.
proof fn lemma_reparse_head(s: Seq<u8>, sc: Scanned, can_range: bool)
    requires
        s.len() <= 0xffff,
        s != lit("*/*"),
        scan_spec(s, can_range) == Ok::<Scanned, ParseError>(sc),
        sc.semi is Some,
        sc.pairs.len() == 0,
    ensures
        reparses(s, sc, can_range),
{
    let semi = sc.semi->Some_0;
    let head = s.subrange(0, semi);
    lemma_scanned(s, can_range);
    lemma_scan_head(s, can_range);
    reveal_strlit("*/*");
    lemma_ascii("*/*");
    lemma_token_end(s, 0);
    assert(head[0] == s[0]);
    assert(is_token_byte(s[0]));
    let bare = Scanned { slash: sc.slash, plus: sc.plus, semi: None, pairs: seq![] };
    lemma_reparse_bare(head, bare, can_range);
    assert(build(s, sc) == build(head, bare));
}

/// A value whose one parameter is `charset=utf-8`, and that names no table
/// entry.
proof fn lemma_reparse_utf8(s: Seq<u8>, sc: Scanned, can_range: bool)
    requires
        s.len() <= 0xffff,
        s != lit("*/*"),
        scan_spec(s, can_range) == Ok::<Scanned, ParseError>(sc),
        sc.semi matches Some(semi) && shape_of(s, semi as u16, sc.pairs) is Utf8,
        build(s, sc).atom == 0,
    ensures
        reparses(s, sc, can_range),
{
    let semi = sc.semi->Some_0;
    let v = build(s, sc);
    let t = lower_seq(s);
    assert(v.bytes == t);
    law_equal_to_itself(v);
    lemma_scanned(s, can_range);
    lemma_pairs_in_text(s, sc, can_range);
    lemma_scan_variant(s, t, can_range);
    lemma_not_star_star(s, t);
    lemma_charset_variant(s, t, semi as u16, sc.pairs[0]);
    let w = build(t, sc);
    assert(w.params == v.params);
    let top = t.subrange(0, sc.slash);
    let sub = t.subrange(sc.slash + 1, semi);
    let id = atom_charset_utf8(top, sub);
    if id != 0 {
        lemma_atom_found(top, sub);
        lemma_atom_entry(id);
        assert(w.bytes == atom_bytes(id));
        assert forall|i: int| 0 <= i < semi implies atom_bytes(id)[i] == t[i] by {
            if i < sc.slash {
                assert(top[i] == t[i]);
            } else if i > sc.slash {
                assert(sub[i - sc.slash - 1] == t[i]);
            }
        }
    } else {
        assert(lower_seq(t) =~= t);
    }
    assert(w.essence() =~= v.essence());
    assert(w.params() == v.params());
}

/// A value with parameters has a text that parses to the very value.
proof fn lemma_reparse_params(s: Seq<u8>, sc: Scanned, can_range: bool)
    requires
        s.len() <= 0xffff,
        s != lit("*/*"),
        scan_spec(s, can_range) == Ok::<Scanned, ParseError>(sc),
        sc.semi matches Some(semi) && sc.pairs.len() > 0 && !(shape_of(s, semi as u16, sc.pairs)
            is Utf8),
    ensures
        parse_spec(build(s, sc).bytes, can_range) == Ok::<MimeView, ParseError>(build(s, sc)),
{
    let semi = sc.semi->Some_0;
    let v = build(s, sc);
    let t = normalized(s, semi, sc.pairs);
    assert(v.bytes == t);
    lemma_pairs_in_text(s, sc, can_range);
    lemma_scan_variant(s, t, can_range);
    lemma_not_star_star(s, t);
    lemma_charset_variant(s, t, semi as u16, sc.pairs[0]);
    lemma_normalized_twice(s, semi, sc.pairs);
    assert(build(t, sc) == v);
}

} // verus!
