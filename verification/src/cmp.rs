//! The equality of media types.
//!
//! Two media types are equal if they have the same essence, up to ASCII
//! case, and the same parameters, whatever their order and as often as
//! they stand. Two values that both name an entry of the table of
//! well-known media types are equal exactly if they name the same entry.
use crate::laws::table::law_fast_path_agrees;
use crate::mime_parse::constants::names::CHARSET;
use crate::mime_parse::grammar::{lit, parse_spec};
use crate::mime_parse::text::{bytes_eq_ignore_case, eq_ignore_case};
use crate::mime_parse::{Mime, MimeView, ParamSource, Parser};
use crate::quoted::{content, lower_chars};
use crate::value::{lemma_closed_strippable, lemma_values_closed, quote_closed, Value};
use vstd::prelude::*;
use vstd::string::StringSliceAdditionalSpecFns;
use vstd::utf8::{decode_utf8, encode_utf8_decode_utf8};

verus! {

/// Whether two media types have the same type, subtype and suffix, up to
/// ASCII case.
pub open spec fn essence_eq_spec(a: MimeView, b: MimeView) -> bool {
    eq_ignore_case(a.essence(), b.essence())
}

/// Whether two parameters are the same: their names are, up to ASCII case,
/// and their values have the same content, up to ASCII case where the name
/// is `charset`.
pub open spec fn same_param(p: (Seq<u8>, Seq<u8>), q: (Seq<u8>, Seq<u8>)) -> bool {
    &&& eq_ignore_case(p.0, q.0)
    &&& if eq_ignore_case(p.0, lit(CHARSET)) {
        lower_chars(content(decode_utf8(p.1))) == lower_chars(content(decode_utf8(q.1)))
    } else {
        content(decode_utf8(p.1)) == content(decode_utf8(q.1))
    }
}

/// How many of the first `n` parameters are the same as `p`.
pub open spec fn occurrences(ps: Seq<(Seq<u8>, Seq<u8>)>, p: (Seq<u8>, Seq<u8>), n: int) -> nat
    decreases n,
{
    if n <= 0 {
        0
    } else {
        occurrences(ps, p, n - 1) + if same_param(ps[n - 1], p) {
            1nat
        } else {
            0nat
        }
    }
}

/// How often a parameter stands among some parameters.
pub open spec fn count(ps: Seq<(Seq<u8>, Seq<u8>)>, p: (Seq<u8>, Seq<u8>)) -> nat {
    occurrences(ps, p, ps.len() as int)
}

/// Whether two media types have the same parameters, whatever their order:
/// every parameter stands as often among those of the one as among those
/// of the other.
pub open spec fn params_eq_spec(a: MimeView, b: MimeView) -> bool {
    &&& a.params().len() == b.params().len()
    &&& forall|p: (Seq<u8>, Seq<u8>)| #[trigger] count(a.params(), p) == count(b.params(), p)
}

/// Whether two media types are equal by what they hold: the same essence,
/// up to ASCII case, and the same parameters.
pub open spec fn structurally_equal(a: MimeView, b: MimeView) -> bool {
    essence_eq_spec(a, b) && params_eq_spec(a, b)
}

/// Whether two media types are equal: by their identities where both name
/// an entry of the table of well-known media types, else by what they
/// hold. The identities decide as the comparison of what they hold would.
pub open spec fn mime_eq_spec(a: MimeView, b: MimeView) -> bool {
    if a.atom == 0 || b.atom == 0 {
        essence_eq_spec(a, b) && params_eq_spec(a, b)
    } else {
        a.atom == b.atom
    }
}

/// Whether a media type is equal to what a text parses to. A text that does
/// not parse is equal to nothing.
pub open spec fn str_eq_spec(a: MimeView, s: Seq<u8>, can_range: bool) -> bool {
    match parse_spec(s, can_range) {
        Ok(b) => mime_eq_spec(a, b),
        Err(_) => false,
    }
}

/// Whether a media type is equal to what a text parses to, as a range or as
/// an exact type.
pub fn str_eq(mime: &Mime, s: &str, can_range: bool) -> (r: bool)
    ensures
        r == str_eq_spec(mime@, s.spec_bytes(), can_range),
{
    let parser = if can_range {
        Parser::can_range()
    } else {
        Parser::cannot_range()
    };
    match parser.parse(s) {
        Ok(other_mime) => mime_eq(mime, &other_mime),
        Err(_) => false,
    }
}

/// Whether two media types are equal: whether they have the same essence,
/// up to ASCII case, and the same parameters.
pub fn mime_eq(a: &Mime, b: &Mime) -> (r: bool)
    ensures
        r == mime_eq_spec(a@, b@),
        r == structurally_equal(a@, b@),
{
    let aa = a.private_atom();
    let ba = b.private_atom();
    proof {
        use_type_invariant(a);
        use_type_invariant(b);
        if aa != 0 && ba != 0 {
            law_fast_path_agrees(a@, b@);
        }
    }
    if aa == 0 || ba == 0 {
        // one of the two is no entry of the table: compare what they hold
        essence_eq(a, b) && params_eq(a, b)
    } else {
        aa == ba
    }
}

/// Whether two media types have the same essence, up to ASCII case.
pub fn essence_eq(a: &Mime, b: &Mime) -> (r: bool)
    ensures
        r == essence_eq_spec(a@, b@),
{
    bytes_eq_ignore_case(a.essence().as_bytes(), b.essence().as_bytes())
}

/// A parameter that is the same as another one is the same as a third
/// exactly if the other one is.
pub proof fn lemma_same_param(x: (Seq<u8>, Seq<u8>), y: (Seq<u8>, Seq<u8>), p: (Seq<u8>, Seq<u8>))
    requires
        same_param(x, y),
    ensures
        same_param(y, x),
        same_param(x, p) == same_param(y, p),
        same_param(p, x) == same_param(p, y),
{
}

/// No more parameters are the same as `p` among the first `k` than among
/// the first `n`, and none where none of them is.
pub proof fn lemma_occurrences(ps: Seq<(Seq<u8>, Seq<u8>)>, p: (Seq<u8>, Seq<u8>), k: int, n: int)
    requires
        0 <= k <= n <= ps.len(),
    ensures
        occurrences(ps, p, k) <= occurrences(ps, p, n),
        (forall|j: int| 0 <= j < n ==> !same_param(#[trigger] ps[j], p)) ==> occurrences(ps, p, n)
            == 0,
    decreases n,
{
    if k < n {
        lemma_occurrences(ps, p, k, n - 1);
    } else if n > 0 {
        lemma_occurrences(ps, p, n - 1, n - 1);
    }
}

/// The parameters among the first `n` are counted alike in two sequences
/// that have the same first `n` parameters.
pub proof fn lemma_occurrences_prefix(
    a: Seq<(Seq<u8>, Seq<u8>)>,
    b: Seq<(Seq<u8>, Seq<u8>)>,
    p: (Seq<u8>, Seq<u8>),
    n: int,
)
    requires
        0 <= n <= a.len(),
        n <= b.len(),
        forall|j: int| 0 <= j < n ==> a[j] == b[j],
    ensures
        occurrences(a, p, n) == occurrences(b, p, n),
    decreases n,
{
    if n > 0 {
        lemma_occurrences_prefix(a, b, p, n - 1);
    }
}

/// Taking a parameter away takes one off the count of those that are the
/// same as it, and nothing off the count of the others.
pub proof fn lemma_count_remove(ps: Seq<(Seq<u8>, Seq<u8>)>, j: int, p: (Seq<u8>, Seq<u8>))
    requires
        0 <= j < ps.len(),
    ensures
        count(ps, p) == count(ps.remove(j), p) + if same_param(ps[j], p) {
            1nat
        } else {
            0nat
        },
    decreases ps.len(),
{
    let n = ps.len() as int;
    let rest = ps.remove(j);
    if j == n - 1 {
        lemma_occurrences_prefix(ps, rest, p, n - 1);
    } else {
        let front = ps.drop_last();
        lemma_count_remove(front, j, p);
        lemma_occurrences_prefix(ps, front, p, n - 1);
        lemma_occurrences_prefix(rest, front.remove(j), p, n - 2);
        assert(rest[n - 2] == ps[n - 1]);
    }
}

/// The bytes of names and values.
pub open spec fn bytes_of(v: Seq<(&str, &str)>) -> Seq<(Seq<u8>, Seq<u8>)> {
    Seq::new(v.len(), |i: int| (v[i].0.spec_bytes(), v[i].1.spec_bytes()))
}

/// The parameters of a media type as string slices, in the order of the
/// text.
fn pairs(mime: &Mime) -> (r: Vec<(&str, &str)>)
    ensures
        bytes_of(r@) == mime@.params(),
        forall|i: int| 0 <= i < r@.len() ==> quote_closed((#[trigger] r@[i]).1.spec_bytes()),
{
    let mut it = mime.params();
    let mut out: Vec<(&str, &str)> = Vec::new();
    let ghost all = mime@.params();
    proof {
        use_type_invariant(mime);
        lemma_values_closed(mime@);
    }
    loop
        invariant
            all == mime@.params(),
            out@.len() <= all.len(),
            it@ == all.skip(out@.len() as int),
            forall|i: int| 0 <= i < all.len() ==> quote_closed(#[trigger] all[i].1),
            forall|i: int|
                0 <= i < out@.len() ==> (#[trigger] out@[i]).0.spec_bytes() == all[i].0
                    && out@[i].1.spec_bytes() == all[i].1,
        ensures
            out@.len() == all.len(),
        decreases all.len() - out@.len(),
    {
        match it.next() {
            Some((name, value)) => {
                proof {
                    let k = out@.len() as int;
                    assert(all.skip(k).len() > 0);
                    assert(all.skip(k)[0] == all[k]);
                    assert(all.skip(k).drop_first() =~= all.skip(k + 1));
                }
                out.push((name, value));
            },
            None => {
                break;
            },
        }
    }
    assert(bytes_of(out@) =~= all);
    out
}

/// Whether two parameters are the same.
fn param_eq(x: (&str, &str), y: (&str, &str)) -> (r: bool)
    requires
        quote_closed(x.1.spec_bytes()),
        quote_closed(y.1.spec_bytes()),
    ensures
        r == same_param((x.0.spec_bytes(), x.1.spec_bytes()), (y.0.spec_bytes(), y.1.spec_bytes())),
{
    if !bytes_eq_ignore_case(x.0.as_bytes(), y.0.as_bytes()) {
        return false;
    }
    proof {
        lemma_closed_strippable(x.1);
        lemma_closed_strippable(y.1);
        encode_utf8_decode_utf8(x.1@);
        encode_utf8_decode_utf8(y.1@);
    }
    let left = Value::new(x.1);
    let right = Value::new(y.1);
    if bytes_eq_ignore_case(x.0.as_bytes(), CHARSET.as_bytes()) {
        left.for_name(CHARSET).eq_value(&right.for_name(CHARSET))
    } else {
        left.eq_value(&right)
    }
}

/// Whether two media types have the same parameters, whatever their order.
pub fn params_eq(a: &Mime, b: &Mime) -> (r: bool)
    ensures
        r == params_eq_spec(a@, b@),
{
    let a_none = matches!(a.private_params_source(), ParamSource::Empty);
    let b_none = matches!(b.private_params_source(), ParamSource::Empty);
    if a_none && b_none {
        return true;
    }
    if matches!(a.private_params_source(), ParamSource::Utf8(_)) && matches!(
        b.private_params_source(),
        ParamSource::Utf8(_)
    ) {
        assert(a@.params() == b@.params());
        return true;
    }
    if a_none || b_none {
        proof {
            use_type_invariant(a);
            use_type_invariant(b);
        }
        return false;
    }
    // the number of parameters is known without walking them
    if a.params().size_hint().0 != b.params().size_hint().0 {
        return false;
    }
    // Order does not matter, so each parameter of the one is paired with
    // one of the other that no other was paired with.
    let left = pairs(a);
    let mut rest = pairs(b);
    let ghost pa = a@.params();
    let ghost pb = b@.params();
    let mut i: usize = 0;
    while i < left.len()
        invariant
            pa == a@.params(),
            pb == b@.params(),
            bytes_of(left@) == pa,
            pa.len() == pb.len(),
            i <= left@.len(),
            rest@.len() == pa.len() - i,
            forall|k: int| 0 <= k < left@.len() ==> quote_closed((#[trigger] left@[k]).1.spec_bytes()),
            forall|k: int| 0 <= k < rest@.len() ==> quote_closed((#[trigger] rest@[k]).1.spec_bytes()),
            forall|p: (Seq<u8>, Seq<u8>)|
                #[trigger] count(pb, p) == occurrences(pa, p, i as int) + count(bytes_of(rest@), p),
        decreases left@.len() - i,
    {
        let x = left[i];
        let ghost px = pa[i as int];
        let ghost pr = bytes_of(rest@);
        assert(px == (x.0.spec_bytes(), x.1.spec_bytes()));
        let mut j: usize = 0;
        while j < rest.len() && !param_eq(rest[j], x)
            invariant
                j <= rest@.len(),
                pr == bytes_of(rest@),
                px == (x.0.spec_bytes(), x.1.spec_bytes()),
                quote_closed(x.1.spec_bytes()),
                forall|k: int|
                    0 <= k < rest@.len() ==> quote_closed((#[trigger] rest@[k]).1.spec_bytes()),
                forall|k: int| 0 <= k < j ==> !same_param(#[trigger] pr[k], px),
            decreases rest@.len() - j,
        {
            j += 1;
        }
        if j >= rest.len() {
            proof {
                lemma_occurrences(pr, px, 0, pr.len() as int);
                lemma_occurrences(pa, px, i + 1, pa.len() as int);
                assert(same_param(px, px));
                assert(count(pb, px) == occurrences(pa, px, i as int) + count(pr, px));
                assert(count(pa, px) != count(pb, px));
            }
            return false;
        }
        let found = rest.remove(j);
        proof {
            let after = bytes_of(rest@);
            assert(after =~= pr.remove(j as int));
            assert forall|p: (Seq<u8>, Seq<u8>)| #[trigger]
                count(pb, p) == occurrences(pa, p, i + 1) + count(after, p) by {
                assert(count(pb, p) == occurrences(pa, p, i as int) + count(pr, p));
                lemma_count_remove(pr, j as int, p);
                lemma_same_param(pr[j as int], px, p);
            }
        }
        i += 1;
    }
    proof {
        assert forall|p: (Seq<u8>, Seq<u8>)| #[trigger] count(pa, p) == count(pb, p) by {
            assert(count(pb, p) == occurrences(pa, p, i as int) + count(bytes_of(rest@), p));
        }
    }
    true
}

} // verus!
