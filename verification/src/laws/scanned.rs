//! What a scan finds, and what the value for it holds.
use crate::mime_parse::constants::{
    atom_bytes, atom_charset_utf8, atom_no_params, atom_text, atom_view,
    intern_charset_utf8_spec, lemma_atom_entry, lemma_atom_found,
};
use crate::mime_parse::grammar::{
    build, is_separator, lemma_token_end, lit, normalized, scan_params, scan_spec, shape_of,
    token_end, Scanned,
};
use crate::mime_parse::parsed::{pair_ok, IndexedPair, ParseError};
use crate::mime_parse::text::{lemma_ascii, lower, lower_seq};
use crate::mime_parse::wellformed::lemma_scan_params_ok;
use super::variants::{in_text, same_case};
use vstd::prelude::*;

verus! {

/// What a scan finds lies in the text.
pub proof fn lemma_scanned(s: Seq<u8>, can_range: bool)
    requires
        s.len() <= 0xffff,
    ensures
        scan_spec(s, can_range) matches Ok(sc) ==> {
            &&& 0 < sc.slash < s.len()
            &&& s[sc.slash] == 0x2f
            &&& sc.semi matches Some(semi) ==> sc.slash < semi < s.len() && is_separator(s[semi])
                && scan_params(s, semi + 1, seq![]) == Ok::<Seq<IndexedPair>, ParseError>(sc.pairs)
            &&& sc.semi is None ==> sc.pairs.len() == 0
        },
{
    lemma_token_end(s, 0);
    let slash = token_end(s, 0);
    if slash < s.len() {
        lemma_token_end(s, slash + 1);
    }
}

/// A text without parameters that names a table entry is the text of the
/// entry, which is in lower case.
pub proof fn lemma_bare_text(s: Seq<u8>, slash: int)
    requires
        0 < slash < s.len(),
        s[slash] == 0x2f,
    ensures
        ({
            let id = atom_no_params(s.subrange(0, slash), s.subrange(slash + 1, s.len() as int));
            id != 0 ==> lit(atom_text(id)) == s && lower_seq(s) == s
        }),
{
    let top = s.subrange(0, slash);
    let sub = s.subrange(slash + 1, s.len() as int);
    let id = atom_no_params(top, sub);
    if id != 0 {
        lemma_atom_found(top, sub);
        lemma_atom_entry(id);
        assert(s =~= top + seq![0x2fu8] + sub);
        assert(lower_seq(s) =~= s);
    }
}

/// The ranges of scanned parameters lie in the text.
pub proof fn lemma_pairs_in_text(s: Seq<u8>, sc: Scanned, can_range: bool)
    requires
        s.len() <= 0xffff,
        scan_spec(s, can_range) == Ok::<Scanned, ParseError>(sc),
    ensures
        forall|k: int|
            0 <= k < sc.pairs.len() ==> in_text(#[trigger] sc.pairs[k], s.len() as int),
{
    lemma_scanned(s, can_range);
    if let Some(semi) = sc.semi {
        lemma_scan_params_ok(s, semi + 1, seq![], semi);
        assert forall|k: int| 0 <= k < sc.pairs.len() implies in_text(
            #[trigger] sc.pairs[k],
            s.len() as int,
        ) by {
            assert(pair_ok(s, semi, sc.pairs[k]));
        }
    }
}

/// A text that is another one up to ASCII case is `*/*` only if the other
/// one is.
pub proof fn lemma_not_star_star(s: Seq<u8>, t: Seq<u8>)
    requires
        same_case(s, t),
        s != lit("*/*"),
    ensures
        t != lit("*/*"),
{
    reveal_strlit("*/*");
    lemma_ascii("*/*");
    if t == lit("*/*") {
        assert(lower(t[0]) == lower(s[0]));
        assert(lower(t[1]) == lower(s[1]));
        assert(lower(t[2]) == lower(s[2]));
        assert(s =~= lit("*/*"));
    }
}

/// The essence of the value for a text whose one parameter is
/// `charset=utf-8` is the essence of the text in lower case.
pub proof fn lemma_utf8_essence(s: Seq<u8>, slash: int, semi: int)
    requires
        0 < slash < semi < s.len(),
        s[slash] == 0x2f,
    ensures
        ({
            let (id, bytes) = intern_charset_utf8_spec(
                s,
                slash,
                semi,
            );
            &&& bytes.subrange(0, semi) == lower_seq(s.subrange(0, semi))
            &&& id != 0 ==> s.subrange(0, semi) == lower_seq(s.subrange(0, semi))
        }),
{
    let top = s.subrange(0, slash);
    let sub = s.subrange(slash + 1, semi);
    let id = atom_charset_utf8(top, sub);
    let head = s.subrange(0, semi);
    if id != 0 {
        lemma_atom_found(top, sub);
        lemma_atom_entry(id);
        let text = atom_view(id).bytes;
        assert(text == atom_bytes(id));
        assert forall|i: int| 0 <= i < semi implies #[trigger] text[i] == s[i] && s[i] == lower(
            s[i],
        ) by {
            assert(text[i] == lower(text[i]));
            if i < slash {
                assert(top[i] == s[i]);
            } else if i > slash {
                assert(sub[i - slash - 1] == s[i]);
            }
        }
        assert(text.subrange(0, semi) =~= head);
        assert(lower_seq(head) =~= head);
    } else {
        assert(lower_seq(s).subrange(0, semi) =~= lower_seq(head));
    }
}

/// The value for a scanned text is not the range `*/*`; where it names no
/// table entry, it starts with the first byte of the text in lower case.
pub proof fn lemma_first_byte(s: Seq<u8>, sc: Scanned)
    requires
        s.len() <= 0xffff,
        0 < sc.slash < s.len(),
        s[sc.slash] == 0x2f,
        sc.semi matches Some(semi) ==> sc.slash < semi < s.len(),
    ensures
        build(s, sc).atom != 30,
        build(s, sc).atom == 0 ==> build(s, sc).essence().len() > 0 && build(s, sc).essence()[0]
            == lower(s[0]),
{
    let v = build(s, sc);
    match sc.semi {
        None => {
            lemma_atom_found(s.subrange(0, sc.slash), s.subrange(sc.slash + 1, s.len() as int));
            if v.atom == 0 {
                assert(v.bytes == lower_seq(s));
                assert(v.essence()[0] == lower_seq(s)[0]);
            }
        },
        Some(semi) => {
            let head = s.subrange(0, semi);
            lemma_atom_found(
                head.subrange(0, sc.slash),
                head.subrange(sc.slash + 1, head.len() as int),
            );
            lemma_atom_found(s.subrange(0, sc.slash), s.subrange(sc.slash + 1, semi));
            if v.atom == 0 {
                if sc.pairs.len() == 0 {
                    assert(v.bytes == lower_seq(head));
                    assert(v.essence()[0] == lower_seq(head)[0]);
                    assert(head[0] == s[0]);
                } else if shape_of(s, semi as u16, sc.pairs) is Utf8 {
                    assert(v.bytes == lower_seq(s));
                    assert(v.essence()[0] == lower_seq(s)[0]);
                } else {
                    assert(v.bytes == normalized(s, semi, sc.pairs));
                    assert(v.essence()[0] == normalized(s, semi, sc.pairs)[0]);
                }
            }
        },
    }
}

} // verus!
