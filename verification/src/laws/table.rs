//! The table of well-known media types as the scanner sees it.
use crate::cmp::{essence_eq_spec, mime_eq_spec, params_eq_spec, structurally_equal};
use crate::mime_parse::constants::entries::entry_ok;
use crate::mime_parse::constants::{
    atom_charset_utf8, atom_entry_ok, atom_no_params, atom_sub, atom_text, atom_top, atom_view,
    lemma_atom_entry, lemma_atom_own_names, utf8_tail, ATOM_COUNT,
};
use crate::mime_parse::grammar::{
    build, first_plus, is_token_byte, lemma_token_end_is, lit, parse_spec, scan_param,
    scan_params, scan_spec, shape_of, Scanned,
};
use crate::mime_parse::parsed::{IndexedPair, MimeView, ParamShape, ParseError};
use crate::mime_parse::text::{lemma_ascii, lower_seq};
use vstd::prelude::*;

verus! {

/// Atom identity: every entry of the table of well-known media types
/// parses to itself, with its own identity, which is not 0. So two texts
/// that are the same entry give values of the same identity. Ranges do so
/// where ranges are allowed.
pub proof fn law_table_entry_parses(id: u8, can_range: bool)
    requires
        1 <= id <= ATOM_COUNT,
        can_range || id < 30,
    ensures
        parse_spec(lit(atom_text(id)), can_range) == Ok::<MimeView, ParseError>(atom_view(id)),
{
    lemma_atom_entry(id);
    if id != 30 {
        lemma_atom_own_names(id);
        let v = atom_view(id);
        let top = lit(atom_top(id));
        let sub = lit(atom_sub(id));
        assert(v.bytes == joined(top, sub, v.params is Utf8));
        lemma_entry_scans(v, top, sub, id >= 30, can_range);
        lemma_entry_builds(v, top, sub);
    }
}

/// A type, a `/`, a subtype and, at will, `; charset=utf-8`.
pub open spec fn joined(top: Seq<u8>, sub: Seq<u8>, utf8: bool) -> Seq<u8> {
    let essence = top + seq![0x2fu8] + sub;
    if utf8 {
        essence + utf8_tail()
    } else {
        essence
    }
}

/// What a scan finds in the text of a value without parameters, or with
/// the parameter `charset=utf-8`.
pub open spec fn entry_scanned(v: MimeView) -> Scanned {
    Scanned {
        slash: v.slash as int,
        plus: v.plus,
        semi: v.params.semicolon(),
        pairs: if v.params is Utf8 {
            seq![utf8_pair(v.end())]
        } else {
            seq![]
        },
    }
}

/// The ranges of the parameter `charset=utf-8`, one byte behind the
/// separator at `semi`.
pub open spec fn utf8_pair(semi: int) -> IndexedPair {
    (((semi + 2) as u16, (semi + 9) as u16), ((semi + 10) as u16, (semi + 15) as u16))
}

/// The scan of a text that is made of a type, a subtype and a parameter as
/// a table entry is, finds the offsets of the value.
proof fn lemma_entry_scans(v: MimeView, top: Seq<u8>, sub: Seq<u8>, any_sub: bool, can_range: bool)
    requires
        entry_ok(v, top, sub, false, any_sub),
        v.params is Empty || v.params is Utf8,
        any_sub ==> v.params is Empty,
        v.bytes == joined(top, sub, v.params is Utf8),
        can_range || !any_sub,
    ensures
        scan_spec(v.bytes, can_range) == Ok::<Scanned, ParseError>(entry_scanned(v)),
        v.bytes != lit("*/*"),
{
    let s = v.bytes;
    let slash = v.slash as int;
    let end = v.end();
    reveal_strlit("*/*");
    lemma_ascii("*/*");
    reveal_strlit("; charset=utf-8");
    lemma_ascii("; charset=utf-8");
    assert(is_token_byte(s[0]));
    if v.params is Utf8 {
        assert(s.subrange(end, s.len() as int) =~= utf8_tail());
        lemma_scan_utf8(s, slash, end, can_range);
    } else if !any_sub {
        lemma_scan_plain(s, slash, can_range);
    } else {
        assert(s[slash + 1] == sub[0]);
        lemma_scan_star(s, slash);
    }
}

/// The value for what a scan finds in a table entry is the entry.
proof fn lemma_entry_builds(v: MimeView, top: Seq<u8>, sub: Seq<u8>)
    requires
        v.structured(),
        v.slash == top.len(),
        v.end() == v.slash + 1 + sub.len(),
        v.atom != 0,
        !v.owned,
        v.bytes == lit(atom_text(v.atom)),
        v.bytes == joined(top, sub, v.params is Utf8),
        match v.params {
            ParamShape::Empty => atom_no_params(top, sub) == v.atom,
            ParamShape::Utf8(_) => atom_charset_utf8(top, sub) == v.atom,
            _ => false,
        },
    ensures
        build(v.bytes, entry_scanned(v)) == v,
{
    let s = v.bytes;
    let slash = v.slash as int;
    let end = v.end();
    reveal_strlit("; charset=utf-8");
    lemma_ascii("; charset=utf-8");
    assert(s.subrange(0, slash) =~= top);
    assert(s.subrange(slash + 1, end) =~= sub);
    if v.params is Utf8 {
        assert(s.subrange(end, s.len() as int) =~= utf8_tail());
        lemma_utf8_shape(s, end);
    }
}

/// What a scan finds in a type, a `/` and a subtype, both tokens.
proof fn lemma_scan_plain(s: Seq<u8>, slash: int, can_range: bool)
    requires
        s.len() <= 0xffff,
        0 < slash,
        slash + 1 < s.len(),
        s[slash] == 0x2f,
        forall|i: int| 0 <= i < s.len() && i != slash ==> is_token_byte(#[trigger] s[i]),
    ensures
        scan_spec(s, can_range) == Ok::<Scanned, ParseError>(
            Scanned {
                slash,
                plus: first_plus(s, slash + 2, s.len() as int),
                semi: None,
                pairs: seq![],
            },
        ),
{
    lemma_token_end_is(s, 0, slash);
    assert(is_token_byte(s[slash + 1]));
    lemma_token_end_is(s, slash + 1, s.len() as int);
}

/// What a scan finds in a type, a `/` and `*`, where ranges are allowed.
proof fn lemma_scan_star(s: Seq<u8>, slash: int)
    requires
        s.len() <= 0xffff,
        0 < slash,
        slash + 2 == s.len(),
        s[slash] == 0x2f,
        s[slash + 1] == 0x2a,
        forall|i: int| 0 <= i < slash ==> is_token_byte(#[trigger] s[i]),
    ensures
        scan_spec(s, true) == Ok::<Scanned, ParseError>(
            Scanned { slash, plus: None, semi: None, pairs: seq![] },
        ),
{
    lemma_token_end_is(s, 0, slash);
}

/// What a scan finds in a type, a `/`, a subtype, both tokens, and
/// `; charset=utf-8`.
#[verifier::rlimit(50)]
proof fn lemma_scan_utf8(s: Seq<u8>, slash: int, semi: int, can_range: bool)
    requires
        s.len() <= 0xffff,
        0 < slash,
        slash + 1 < semi,
        semi + 15 == s.len(),
        s[slash] == 0x2f,
        forall|i: int| 0 <= i < semi && i != slash ==> is_token_byte(#[trigger] s[i]),
        s.subrange(semi, s.len() as int) == utf8_tail(),
    ensures
        scan_spec(s, can_range) == Ok::<Scanned, ParseError>(
            Scanned {
                slash,
                plus: first_plus(s, slash + 2, semi),
                semi: Some(semi),
                pairs: seq![utf8_pair(semi)],
            },
        ),
{
    reveal_strlit("; charset=utf-8");
    lemma_ascii("; charset=utf-8");
    let tail = s.subrange(semi, s.len() as int);
    assert forall|i: int| 0 <= i < 15 implies s[semi + i] == utf8_tail()[i] by {
        assert(tail[i] == s[semi + i]);
    }
    assert(s[semi] == utf8_tail()[0]);
    assert(s[semi + 1] == utf8_tail()[1]);
    assert(s[semi + 9] == utf8_tail()[9]);
    assert(s[semi + 10] == utf8_tail()[10]);
    assert forall|i: int| semi + 2 <= i < semi + 9 implies is_token_byte(#[trigger] s[i]) by {
        assert(s[semi + (i - semi)] == utf8_tail()[i - semi]);
    }
    assert forall|i: int| semi + 10 <= i < semi + 15 implies is_token_byte(#[trigger] s[i]) by {
        assert(s[semi + (i - semi)] == utf8_tail()[i - semi]);
    }
    lemma_token_end_is(s, 0, slash);
    assert(is_token_byte(s[slash + 1]));
    lemma_token_end_is(s, slash + 1, semi);
    lemma_token_end_is(s, semi + 2, semi + 9);
    lemma_token_end_is(s, semi + 10, semi + 15);
    assert(scan_param(s, semi + 2) == Ok::<(IndexedPair, int), ParseError>(
        (utf8_pair(semi), semi + 15),
    ));
    assert(seq![].push(utf8_pair(semi)) =~= seq![utf8_pair(semi)]);
    assert(scan_params(s, semi + 15, seq![utf8_pair(semi)]) == Ok::<Seq<IndexedPair>, ParseError>(
        seq![utf8_pair(semi)],
    ));
    assert(scan_params(s, semi + 2, seq![]) == Ok::<Seq<IndexedPair>, ParseError>(
        seq![utf8_pair(semi)],
    ));
    assert(scan_params(s, semi + 1, seq![]) == scan_params(s, semi + 2, seq![]));
}

/// The parameter `charset=utf-8` behind a separator has the shape of that
/// name.
proof fn lemma_utf8_shape(s: Seq<u8>, semi: int)
    requires
        0 <= semi,
        semi + 15 == s.len() <= 0xffff,
        s.subrange(semi, s.len() as int) == utf8_tail(),
    ensures
        shape_of(s, semi as u16, seq![utf8_pair(semi)]) == ParamShape::Utf8(semi as u16),
{
    reveal_strlit("; charset=utf-8");
    lemma_ascii("; charset=utf-8");
    reveal_strlit("charset");
    lemma_ascii("charset");
    reveal_strlit("utf-8");
    lemma_ascii("utf-8");
    let tail = s.subrange(semi, s.len() as int);
    assert forall|j: int| 0 <= j < 7 implies s[semi + 2 + j] == lit("charset")[j] by {
        assert(tail[2 + j] == s[semi + 2 + j]);
    }
    assert forall|j: int| 0 <= j < 5 implies s[semi + 10 + j] == lit("utf-8")[j] by {
        assert(tail[10 + j] == s[semi + 10 + j]);
    }
    assert(s.subrange(semi + 2, semi + 9) =~= lit("charset"));
    assert(s.subrange(semi + 10, semi + 15) =~= lit("utf-8"));
}

/// Fast path: two values that both name a table entry have the same
/// identity exactly if they are equal by what they hold. So the comparison
/// of identities decides as the comparison of essence and parameters would.
#[verifier::rlimit(50)]
pub proof fn law_fast_path_agrees(a: MimeView, b: MimeView)
    requires
        a.wf(),
        b.wf(),
        a.atom != 0,
        b.atom != 0,
    ensures
        (a.atom == b.atom) == structurally_equal(a, b),
        mime_eq_spec(a, b) == structurally_equal(a, b),
{
    lemma_atom_entry(a.atom);
    lemma_atom_entry(b.atom);
    if a.atom == b.atom {
        assert(lower_seq(a.essence()) =~= lower_seq(b.essence()));
        if a.params is Utf8 {
            assert(a.params() == b.params());
        }
    } else if structurally_equal(a, b) {
        // two entries with the same essence and as many parameters
        let ea = a.essence();
        let eb = b.essence();
        assert(lower_seq(ea) =~= ea);
        assert(lower_seq(eb) =~= eb);
        assert(ea == eb);
        assert(a.params is Utf8 == b.params is Utf8);
        lemma_essence_names(a.atom);
        lemma_essence_names(b.atom);
        if a.atom != 30 && b.atom != 30 {
            lemma_atom_own_names(a.atom);
            lemma_atom_own_names(b.atom);
            if a.slash < b.slash {
                assert(eb[a.slash as int] == 0x2f);
                assert(is_token_byte(b.bytes[a.slash as int]));
            } else if b.slash < a.slash {
                assert(ea[b.slash as int] == 0x2f);
                assert(is_token_byte(a.bytes[b.slash as int]));
            }
            assert(lit(atom_top(a.atom)) =~= ea.subrange(0, a.slash as int));
            assert(lit(atom_top(b.atom)) =~= eb.subrange(0, b.slash as int));
            assert(lit(atom_sub(a.atom)) =~= ea.subrange(a.slash + 1, ea.len() as int));
            assert(lit(atom_sub(b.atom)) =~= eb.subrange(b.slash + 1, eb.len() as int));
        } else {
            // `*/*` is the one entry whose first byte is `*`
            let other = if a.atom == 30 {
                b
            } else {
                a
            };
            assert(ea[0] == eb[0]);
            assert(is_token_byte(other.bytes[0]));
        }
    }
}

/// The essence of a table entry is its type, a `/` and its subtype.
proof fn lemma_essence_names(id: u8)
    requires
        1 <= id <= ATOM_COUNT,
        atom_entry_ok(id),
    ensures
        atom_view(id).essence() == lit(atom_top(id)) + seq![0x2fu8] + lit(atom_sub(id)),
        atom_view(id).essence().len() == atom_view(id).end(),
{
    let v = atom_view(id);
    assert(v.essence() =~= lit(atom_top(id)) + seq![0x2fu8] + lit(atom_sub(id)));
}

} // verus!
