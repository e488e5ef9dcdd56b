//! What holds of the equality of media types.
use crate::cmp::{
    count, essence_eq_spec, lemma_count_remove, mime_eq_spec, params_eq_spec, structurally_equal,
};
use crate::mime_parse::constants::{atom_view, lemma_atom_entry};
use crate::mime_parse::constants::names::STAR;
use crate::mime_parse::grammar::{is_token_byte, lemma_token_end, lit, parse_spec, scan_spec};
use crate::mime_parse::parsed::{MimeView, ParseError};
use crate::mime_parse::text::{lemma_ascii, lower_seq};
use crate::range::matches_spec;
use super::scanned::{lemma_first_byte, lemma_scanned};
use super::table::law_fast_path_agrees;
use vstd::prelude::*;

verus! {

/// Reflexivity: every value is equal to itself.
pub proof fn law_equal_to_itself(v: MimeView)
    ensures
        mime_eq_spec(v, v),
{
    assert(lower_seq(v.essence()) == lower_seq(v.essence()));
}

/// Symmetry: a value is equal to another one exactly if the other one is
/// equal to it.
pub proof fn law_symmetric(a: MimeView, b: MimeView)
    ensures
        mime_eq_spec(a, b) == mime_eq_spec(b, a),
{
    if params_eq_spec(a, b) {
        assert forall|p: (Seq<u8>, Seq<u8>)| #[trigger]
            count(b.params(), p) == count(a.params(), p) by {
            assert(count(a.params(), p) == count(b.params(), p));
        }
    }
    if params_eq_spec(b, a) {
        assert forall|p: (Seq<u8>, Seq<u8>)| #[trigger]
            count(a.params(), p) == count(b.params(), p) by {
            assert(count(b.params(), p) == count(a.params(), p));
        }
    }
}

/// Transitivity: two values that are equal to a third one, the one on its
/// left and the other on its right, are equal.
pub proof fn law_transitive(a: MimeView, b: MimeView, c: MimeView)
    requires
        a.wf(),
        b.wf(),
        c.wf(),
        mime_eq_spec(a, b),
        mime_eq_spec(b, c),
    ensures
        mime_eq_spec(a, c),
{
    if a.atom != 0 && b.atom != 0 {
        law_fast_path_agrees(a, b);
    }
    if b.atom != 0 && c.atom != 0 {
        law_fast_path_agrees(b, c);
    }
    assert(structurally_equal(a, b) && structurally_equal(b, c));
    assert(lower_seq(a.essence()) == lower_seq(c.essence()));
    assert forall|p: (Seq<u8>, Seq<u8>)| #[trigger]
        count(a.params(), p) == count(c.params(), p) by {
        assert(count(a.params(), p) == count(b.params(), p));
        assert(count(b.params(), p) == count(c.params(), p));
    }
    assert(structurally_equal(a, c));
    if a.atom != 0 && c.atom != 0 {
        law_fast_path_agrees(a, c);
    }
}

/// Order independence: two values of one essence, up to ASCII case, are
/// equal by what they hold if the parameters of the one are those of the
/// other in another order.
pub proof fn law_order_independent(a: MimeView, b: MimeView)
    requires
        essence_eq_spec(a, b),
        a.params().to_multiset() == b.params().to_multiset(),
    ensures
        structurally_equal(a, b),
        a.atom == 0 || b.atom == 0 ==> mime_eq_spec(a, b),
{
    a.params().to_multiset_ensures();
    b.params().to_multiset_ensures();
    assert forall|p: (Seq<u8>, Seq<u8>)| #[trigger]
        count(a.params(), p) == count(b.params(), p) by {
        lemma_permuted(a.params(), b.params(), p);
    }
}

/// A parameter stands as often among some parameters as among the same
/// parameters in another order.
proof fn lemma_permuted(
    a: Seq<(Seq<u8>, Seq<u8>)>,
    b: Seq<(Seq<u8>, Seq<u8>)>,
    p: (Seq<u8>, Seq<u8>),
)
    requires
        a.to_multiset() == b.to_multiset(),
    ensures
        count(a, p) == count(b, p),
    decreases a.len(),
{
    a.to_multiset_ensures();
    b.to_multiset_ensures();
    if a.len() > 0 {
        let last = a.len() - 1;
        let x = a[last];
        assert(a.contains(x));
        assert(a.to_multiset().count(x) > 0);
        assert(b.to_multiset().count(x) > 0);
        assert(b.contains(x));
        let j = choose|j: int| 0 <= j < b.len() && b[j] == x;
        assert(a.remove(last).to_multiset() =~= b.remove(j).to_multiset());
        lemma_permuted(a.remove(last), b.remove(j), p);
        lemma_count_remove(a, last, p);
        lemma_count_remove(b, j, p);
    }
}

/// Wildcard gating: the text `*/*` is an error where ranges are not
/// allowed, and the range of all media types where they are; that range
/// matches every media type, and is equal to no exact media type.
#[verifier::rlimit(50)]
pub proof fn law_wildcard(s: Seq<u8>)
    requires
        parse_spec(s, false) is Ok,
    ensures
        parse_spec(lit("*/*"), false) == Err::<MimeView, ParseError>(ParseError::InvalidRange),
        parse_spec(lit("*/*"), true) == Ok::<MimeView, ParseError>(atom_view(30)),
        matches_spec(atom_view(30), parse_spec(s, false)->Ok_0),
        !mime_eq_spec(atom_view(30), parse_spec(s, false)->Ok_0),
{
    let any = atom_view(30);
    let v = parse_spec(s, false)->Ok_0;
    lemma_atom_entry(30);
    reveal_strlit("*/*");
    lemma_ascii("*/*");
    reveal_strlit("*");
    lemma_ascii("*");
    assert(any.type_() =~= lit(STAR));
    assert(any.params().len() == 0);
    // the value of an exact type starts with a token byte
    let sc = scan_spec(s, false)->Ok_0;
    lemma_scanned(s, false);
    lemma_token_end(s, 0);
    assert(is_token_byte(s[0]));
    lemma_first_byte(s, sc);
    if v.atom == 0 && essence_eq_spec(any, v) {
        assert(lower_seq(any.essence())[0] == lower_seq(v.essence())[0]);
    }
}

} // verus!
