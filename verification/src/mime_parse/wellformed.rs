//! What the grammar gives is well formed.
use super::constants::{
    atom_bytes, atom_charset_utf8, atom_view, lemma_atom_entry, lemma_atom_found,
};
use super::grammar::{
    build, first_plus, is_separator, lemma_first_plus, lemma_first_plus_same, lemma_scan_param,
    lemma_token_end, normalized, parse_spec, scan_param, scan_params, scan_subtype, shape_of,
    token_end, with_params, Scanned,
};
use super::parsed::{lemma_bare_wf, pair_ok, IndexedPair, ParamShape};
use super::text::{cut_ok, lower, lower_seq};
use vstd::prelude::*;

verus! {

/// Whether `n` is the text `s` with some of its bytes folded to lower case.
pub open spec fn case_variant(s: Seq<u8>, n: Seq<u8>) -> bool {
    &&& n.len() == s.len()
    &&& forall|i: int| 0 <= i < s.len() ==> #[trigger] n[i] == s[i] || n[i] == lower(s[i])
}

/// The normalized text is the text with some bytes folded.
pub proof fn lemma_normalized_variant(s: Seq<u8>, semi: int, pairs: Seq<IndexedPair>)
    ensures
        case_variant(s, normalized(s, semi, pairs)),
        case_variant(s, lower_seq(s)),
{
}

/// Ranges that fit a text fit the text with some bytes folded.
pub proof fn lemma_pair_ok_variant(s: Seq<u8>, n: Seq<u8>, semi: int, p: IndexedPair)
    requires
        case_variant(s, n),
        pair_ok(s, semi, p),
    ensures
        pair_ok(n, semi, p),
{
    assert(n[p.0.1 as int] == s[p.0.1 as int] || n[p.0.1 as int] == lower(s[p.0.1 as int]));
    if p.1.0 < s.len() {
        assert(n[p.1.0 as int] == s[p.1.0 as int] || n[p.1.0 as int] == lower(s[p.1.0 as int]));
    }
    if p.1.1 < s.len() {
        assert(n[p.1.1 as int] == s[p.1.1 as int] || n[p.1.1 as int] == lower(s[p.1.1 as int]));
    }
    if p.1.0 + 2 <= p.1.1 {
        assert(n[p.1.1 - 1] == s[p.1.1 - 1] || n[p.1.1 - 1] == lower(s[p.1.1 - 1]));
    }
    assert(n[p.0.0 as int] == s[p.0.0 as int] || n[p.0.0 as int] == lower(s[p.0.0 as int]));
}

/// Where the scan of the parameters succeeds from a position, the text can
/// be cut there.
pub proof fn lemma_scan_start(s: Seq<u8>, pos: int, acc: Seq<IndexedPair>)
    requires
        0 <= pos <= s.len(),
        scan_params(s, pos, acc) is Ok,
    ensures
        cut_ok(s, pos),
{
    if pos < s.len() && !is_separator(s[pos]) {
        lemma_token_end(s, pos);
    }
}

/// The ranges of all parameters that a scan gives fit the text, and the scan
/// keeps what it was given.
pub proof fn lemma_scan_params_ok(s: Seq<u8>, pos: int, acc: Seq<IndexedPair>, semi: int)
    requires
        s.len() <= 0xffff,
        0 <= semi < pos <= s.len(),
        forall|k: int| 0 <= k < acc.len() ==> pair_ok(s, semi, #[trigger] acc[k]),
        scan_params(s, pos, acc) is Ok,
    ensures
        ({
            let pairs = scan_params(s, pos, acc)->Ok_0;
            &&& acc.len() <= pairs.len()
            &&& forall|k: int| 0 <= k < pairs.len() ==> pair_ok(s, semi, #[trigger] pairs[k])
        }),
    decreases s.len() - pos,
{
    if pos < s.len() {
        if is_separator(s[pos]) {
            lemma_scan_params_ok(s, pos + 1, acc, semi);
        } else {
            lemma_scan_param(s, pos);
            lemma_token_end(s, pos);
            let (pair, next) = scan_param(s, pos)->Ok_0;
            lemma_scan_start(s, next, acc.push(pair));
            assert(pair_ok(s, semi, pair));
            lemma_scan_params_ok(s, next, acc.push(pair), semi);
        }
    }
}

/// A text with parameters behind the separator at `semi` gives a well-formed
/// value, if its `/` and its first `+` are where they are said to be.
#[verifier::rlimit(50)]
pub proof fn lemma_with_params_wf(s: Seq<u8>, slash: int, plus: Option<u16>, semi: int)
    requires
        s.len() <= 0xffff,
        0 < slash,
        slash + 1 < semi < s.len(),
        s[slash] == 0x2f,
        is_separator(s[semi]),
        cut_ok(s, slash + 1),
        plus == first_plus(s, slash + 2, semi),
        plus matches Some(p) ==> cut_ok(s, p + 1),
    ensures
        with_params(s, slash, plus, semi) matches Ok(v) ==> v.wf(),
{
    if let Ok(pairs) = scan_params(s, semi + 1, seq![]) {
        lemma_scan_params_ok(s, semi + 1, seq![], semi);
        let v = with_params(s, slash, plus, semi)->Ok_0;
        assert(v == build(s, Scanned { slash, plus, semi: Some(semi), pairs }));
        lemma_first_plus(s, slash + 2, semi);
        match shape_of(s, semi as u16, pairs) {
            ParamShape::Empty => {
                let head = s.subrange(0, semi);
                lemma_first_plus_same(s, head, slash + 2, semi);
                lemma_bare_wf(head, slash, plus);
            },
            ParamShape::Utf8(_) => {
                let top = s.subrange(0, slash);
                let sub = s.subrange(slash + 1, semi);
                let id = atom_charset_utf8(top, sub);
                if id == 0 {
                    lemma_first_plus_same(s, v.bytes, slash + 2, semi);
                } else {
                    lemma_atom_found(top, sub);
                    lemma_atom_entry(id);
                    assert forall|i: int| 0 <= i < semi implies atom_bytes(id)[i] == s[i] by {
                        if i < slash {
                            assert(top[i] == s[i]);
                        } else if i > slash {
                            assert(sub[i - slash - 1] == s[i]);
                        }
                    }
                    lemma_first_plus_same(s, atom_bytes(id), slash + 2, semi);
                    assert(v == atom_view(id));
                }
            },
            shape => {
                lemma_normalized_variant(s, semi, pairs);
                lemma_first_plus_same(s, v.bytes, slash + 2, semi);
                assert forall|k: int| 0 <= k < pairs.len() implies pair_ok(
                    v.bytes,
                    semi,
                    #[trigger] pairs[k],
                ) by {
                    lemma_pair_ok_variant(s, v.bytes, semi, pairs[k]);
                }
                assert(shape.pairs() =~= pairs);
                assert(v.structured());
            },
        }
    }
}

/// What the grammar gives for the text behind a `/` is well formed.
pub proof fn lemma_scan_subtype_wf(s: Seq<u8>, can_range: bool, slash: int)
    requires
        s.len() <= 0xffff,
        0 < slash < s.len(),
        s[slash] == 0x2f,
    ensures
        scan_subtype(s, can_range, slash) matches Ok(sc) ==> build(s, sc).wf(),
{
    let start = slash + 1;
    if can_range && start < s.len() && s[start] == 0x2a {
        if start + 1 == s.len() {
            lemma_bare_wf(s, slash, None);
        } else if s[start + 1] == 0x3b {
            lemma_with_params_wf(s, slash, None, start + 1);
        }
    } else {
        lemma_token_end(s, start);
        let end = token_end(s, start);
        let plus = first_plus(s, start + 1, end);
        lemma_first_plus(s, start + 1, end);
        if end >= s.len() {
            if end > start {
                lemma_bare_wf(s, slash, plus);
            }
        } else if is_separator(s[end]) && end > start {
            lemma_with_params_wf(s, slash, plus, end);
        }
    }
}

/// What the grammar gives is well formed.
pub proof fn lemma_parse_wf(s: Seq<u8>, can_range: bool)
    ensures
        parse_spec(s, can_range) matches Ok(v) ==> v.wf(),
{
    if s.len() <= 0xffff {
        lemma_atom_entry(30);
        lemma_token_end(s, 0);
        let slash = token_end(s, 0);
        if slash < s.len() && s[slash] == 0x2f && slash > 0 {
            lemma_scan_subtype_wf(s, can_range, slash);
        }
    }
}

} // verus!
