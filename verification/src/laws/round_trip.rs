//! Round trip: from a text to its value and back to a text.
use crate::mime_parse::constants::{
    atom_bytes, atom_charset_utf8, atom_text, lemma_atom_entry, lemma_atom_found, utf8_tail,
};
use crate::mime_parse::grammar::{
    build, folded_by, is_separator, lemma_scan_param, lit, normalized, parse_spec, scan_param,
    scan_params, scan_spec, shape_of, Scanned,
};
use crate::mime_parse::parsed::{IndexedPair, ParamShape};
use crate::mime_parse::text::{eq_ignore_case, lemma_ascii, lower, lower_seq};
use super::scanned::{lemma_bare_text, lemma_scanned};
use vstd::prelude::*;

verus! {

/// The text of a scan in canonical form: type, subtype, suffix, parameter
/// names and the values of `charset` in ASCII lower case, every other byte
/// as it is.
pub open spec fn canonical_scan(s: Seq<u8>, sc: Scanned) -> Seq<u8> {
    match sc.semi {
        Some(semi) => normalized(s, semi, sc.pairs),
        None => lower_seq(s),
    }
}

/// Whether the value for a scanned text keeps the text. It does not where a
/// separator is followed by no parameter, for then the text ends before the
/// separator; nor where the text names a table entry with the parameter
/// `charset=utf-8` and writes what follows the subtype otherwise than
/// `; charset=utf-8`, for the value then has the text of the entry.
pub open spec fn keeps_scan(s: Seq<u8>, sc: Scanned) -> bool {
    match sc.semi {
        None => true,
        Some(semi) => sc.pairs.len() > 0 && (build(s, sc).atom != 0 ==> eq_ignore_case(
            s.subrange(semi, s.len() as int),
            utf8_tail(),
        )),
    }
}

/// The canonical form of a text that parses.
pub open spec fn canonical(s: Seq<u8>, can_range: bool) -> Seq<u8> {
    if s == lit("*/*") {
        s
    } else {
        canonical_scan(s, scan_spec(s, can_range)->Ok_0)
    }
}

/// Whether the value of a text that parses keeps the text.
pub open spec fn keeps_text(s: Seq<u8>, can_range: bool) -> bool {
    s == lit("*/*") || keeps_scan(s, scan_spec(s, can_range)->Ok_0)
}

/// Round trip: the text of a parsed value is the text that was parsed, in
/// canonical form, exactly if the value keeps the text.
pub proof fn law_round_trip(s: Seq<u8>, can_range: bool)
    requires
        parse_spec(s, can_range) is Ok,
    ensures
        (parse_spec(s, can_range)->Ok_0.bytes == canonical(s, can_range)) == keeps_text(
            s,
            can_range,
        ),
{
    if s == lit("*/*") {
    } else if keeps_text(s, can_range) {
        lemma_text_kept(s, can_range);
    } else {
        lemma_text_not_kept(s, can_range);
    }
}

/// The text of a value that keeps the text is the canonical form of the
/// text.
proof fn lemma_text_kept(s: Seq<u8>, can_range: bool)
    requires
        s.len() <= 0xffff,
        s != lit("*/*"),
        scan_spec(s, can_range) matches Ok(sc) && keeps_scan(s, sc),
    ensures
        parse_spec(s, can_range) matches Ok(v) && v.bytes == canonical(s, can_range),
{
    let sc = scan_spec(s, can_range)->Ok_0;
    let v = build(s, sc);
    lemma_scanned(s, can_range);
    match sc.semi {
        None => {
            lemma_bare_text(s, sc.slash);
        },
        Some(semi) => {
            if let ParamShape::Utf8(_) = shape_of(s, semi as u16, sc.pairs) {
                reveal_with_fuel(folded_by, 2);
                reveal_with_fuel(covered, 2);
                lemma_scan_covers(s, semi + 1, seq![]);
                assert forall|i: int| 0 <= i < s.len() implies #[trigger] lower_seq(s)[i]
                    == normalized(s, semi, sc.pairs)[i] by {
                    if i > semi {
                        assert(covered(sc.pairs, 1, i) || is_separator(s[i]) || s[i] == 0x3d);
                    }
                }
                assert(lower_seq(s) =~= normalized(s, semi, sc.pairs));
                if v.atom != 0 {
                    lemma_utf8_entry_text(s, sc.slash, semi);
                }
            }
        },
    }
}

/// The text of a value that does not keep the text is another one than the
/// canonical form of the text.
#[verifier::rlimit(50)]
proof fn lemma_text_not_kept(s: Seq<u8>, can_range: bool)
    requires
        s.len() <= 0xffff,
        s != lit("*/*"),
        scan_spec(s, can_range) matches Ok(sc) && !keeps_scan(s, sc),
    ensures
        parse_spec(s, can_range) matches Ok(v) && v.bytes != canonical(s, can_range),
{
    let sc = scan_spec(s, can_range)->Ok_0;
    let v = build(s, sc);
    let semi = sc.semi->Some_0;
    lemma_scanned(s, can_range);
    if sc.pairs.len() == 0 {
        let head = s.subrange(0, semi);
        lemma_bare_text(head, sc.slash);
        assert(v.bytes.len() == semi);
    } else {
        let top = s.subrange(0, sc.slash);
        let sub = s.subrange(sc.slash + 1, semi);
        let id = atom_charset_utf8(top, sub);
        lemma_atom_found(top, sub);
        lemma_atom_entry(id);
        reveal_strlit("; charset=utf-8");
        lemma_ascii("; charset=utf-8");
        let text = atom_bytes(id);
        let n = canonical_scan(s, sc);
        let tail = s.subrange(semi, s.len() as int);
        if text == n {
            assert(text.len() == semi + utf8_tail().len());
            assert forall|i: int| 0 <= i < tail.len() implies #[trigger] lower_seq(tail)[i]
                == lower_seq(utf8_tail())[i] by {
                assert(text[semi + i] == utf8_tail()[i]);
                assert(n[semi + i] == s[semi + i] || n[semi + i] == lower(s[semi + i]));
            }
            assert(lower_seq(tail) =~= lower_seq(utf8_tail()));
        }
    }
}

/// Whether one of the first `n` parameters holds the byte at `i` in its
/// name or in its value.
pub open spec fn covered(pairs: Seq<IndexedPair>, n: int, i: int) -> bool
    decreases n,
{
    if n <= 0 {
        false
    } else {
        let p = pairs[n - 1];
        covered(pairs, n - 1, i) || p.0.0 <= i < p.0.1 || p.1.0 <= i < p.1.1
    }
}

/// Every byte that a scan of the parameters passes is a byte of a name or
/// of a value, a separator, or the `=` between a name and a value.
proof fn lemma_scan_covers(s: Seq<u8>, pos: int, acc: Seq<IndexedPair>)
    requires
        0 <= pos <= s.len() <= 0xffff,
        scan_params(s, pos, acc) is Ok,
    ensures
        ({
            let pairs = scan_params(s, pos, acc)->Ok_0;
            &&& acc.len() <= pairs.len()
            &&& pairs.subrange(0, acc.len() as int) == acc
            &&& forall|i: int|
                pos <= i < s.len() ==> covered(pairs, pairs.len() as int, i) || is_separator(
                    #[trigger] s[i],
                ) || s[i] == 0x3d
        }),
    decreases s.len() - pos,
{
    let pairs = scan_params(s, pos, acc)->Ok_0;
    if pos < s.len() {
        if is_separator(s[pos]) {
            lemma_scan_covers(s, pos + 1, acc);
        } else {
            lemma_scan_param(s, pos);
            let (pair, next) = scan_param(s, pos)->Ok_0;
            let more = acc.push(pair);
            lemma_scan_covers(s, next, more);
            assert(pairs.subrange(0, acc.len() as int) =~= more.subrange(0, acc.len() as int));
            assert(pairs[acc.len() as int] == more[acc.len() as int]);
            assert forall|i: int| pos <= i < next implies covered(pairs, pairs.len() as int, i)
                || is_separator(#[trigger] s[i]) || s[i] == 0x3d by {
                if i != pair.0.1 && i != pair.1.1 {
                    lemma_covered_at(pairs, acc.len() as int, i);
                }
            }
        } 
    } else {
        assert(pairs.subrange(0, acc.len() as int) =~= acc);
    }
}

/// A byte in the name or the value of a parameter is covered.
proof fn lemma_covered_at(pairs: Seq<IndexedPair>, k: int, i: int)
    requires
        0 <= k < pairs.len(),
        pairs[k].0.0 <= i < pairs[k].0.1 || pairs[k].1.0 <= i < pairs[k].1.1,
    ensures
        covered(pairs, pairs.len() as int, i),
{
    lemma_covered_from(pairs, k, pairs.len() as int, i);
}

proof fn lemma_covered_from(pairs: Seq<IndexedPair>, k: int, n: int, i: int)
    requires
        0 <= k < n <= pairs.len(),
        pairs[k].0.0 <= i < pairs[k].0.1 || pairs[k].1.0 <= i < pairs[k].1.1,
    ensures
        covered(pairs, n, i),
    decreases n,
{
    if n - 1 > k {
        lemma_covered_from(pairs, k, n - 1, i);
    }
}

/// A text that names a table entry with the parameter `charset=utf-8`, and
/// ends as the entry does, up to ASCII case, is the text of the entry up to
/// ASCII case.
proof fn lemma_utf8_entry_text(s: Seq<u8>, slash: int, semi: int)
    requires
        0 < slash < semi < s.len(),
        s[slash] == 0x2f,
        eq_ignore_case(s.subrange(semi, s.len() as int), utf8_tail()),
    ensures
        ({
            let id = atom_charset_utf8(s.subrange(0, slash), s.subrange(slash + 1, semi));
            id != 0 ==> lit(atom_text(id)) == lower_seq(s)
        }),
{
    let top = s.subrange(0, slash);
    let sub = s.subrange(slash + 1, semi);
    let tail = s.subrange(semi, s.len() as int);
    let id = atom_charset_utf8(top, sub);
    if id != 0 {
        lemma_atom_found(top, sub);
        lemma_atom_entry(id);
        reveal_strlit("; charset=utf-8");
        lemma_ascii("; charset=utf-8");
        let text = atom_bytes(id);
        assert(text.len() == slash + 1 + sub.len() + utf8_tail().len());
        assert(lower_seq(tail).len() == lower_seq(utf8_tail()).len());
        assert forall|i: int| 0 <= i < s.len() implies #[trigger] text[i] == lower(s[i]) by {
            if i < slash {
                assert(text[i] == top[i]);
            } else if i == slash {
            } else if i < semi {
                assert(text[i] == sub[i - slash - 1]);
            } else {
                assert(text[i] == utf8_tail()[i - semi]);
                assert(lower_seq(tail)[i - semi] == lower_seq(utf8_tail())[i - semi]);
            }
        }
        assert(text =~= lower_seq(s));
    }
}

} // verus!
