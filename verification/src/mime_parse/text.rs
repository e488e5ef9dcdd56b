//! Byte-level views of strings: ASCII case folding, comparison and slicing.
use vstd::prelude::*;
use vstd::string::StringSliceAdditionalSpecFns;
use vstd::utf8::{
    encode_utf8, encode_utf8_valid_utf8, is_ascii_chars, is_ascii_chars_encode_utf8,
    is_char_boundary, is_char_boundary_iff_not_is_continuation_byte,
    is_char_boundary_start_end_of_seq, valid_utf8,
};

verus! {

/// The ASCII lower case equivalent of a byte: `A`-`Z` map to `a`-`z`, every
/// other byte is unchanged.
pub open spec fn lower(c: u8) -> u8 {
    if 0x41 <= c <= 0x5a {
        (c + 32) as u8
    } else {
        c
    }
}

/// A byte sequence with every byte folded to ASCII lower case.
pub open spec fn lower_seq(s: Seq<u8>) -> Seq<u8> {
    Seq::new(s.len(), |i: int| lower(s[i]))
}

/// A byte sequence with the bytes in `from..to` folded to ASCII lower case.
pub open spec fn lower_range(s: Seq<u8>, from: int, to: int) -> Seq<u8> {
    Seq::new(
        s.len(),
        |i: int|
            if from <= i < to {
                lower(s[i])
            } else {
                s[i]
            },
    )
}

/// Equality of two byte sequences up to ASCII case.
pub open spec fn eq_ignore_case(a: Seq<u8>, b: Seq<u8>) -> bool {
    lower_seq(a) == lower_seq(b)
}

/// The bytes of an owned string.
pub open spec fn string_bytes(s: &String) -> Seq<u8> {
    encode_utf8(s@)
}

/// The bytes of ASCII characters.
pub open spec fn ascii_bytes(c: Seq<char>) -> Seq<u8> {
    Seq::new(c.len(), |i: int| c[i] as u8)
}

/// An ASCII string has one byte for each character.
pub proof fn lemma_ascii(s: &str)
    requires
        is_ascii_chars(s@),
    ensures
        s.spec_bytes() == ascii_bytes(s@),
        s.spec_bytes().len() == s@.len(),
        forall|i: int| 0 <= i < s@.len() ==> #[trigger] s.spec_bytes()[i] == s@[i] as u8,
{
    is_ascii_chars_encode_utf8(s@);
    assert(s.spec_bytes() =~= ascii_bytes(s@));
}

/// A position at which a string may be cut: its start, its end, or the
/// place of an ASCII byte.
pub open spec fn cut_ok(b: Seq<u8>, p: int) -> bool {
    0 <= p <= b.len() && (0 < p < b.len() ==> b[p] < 0x80)
}

/// A cut position of valid UTF-8 is a character boundary.
pub proof fn lemma_cut_is_boundary(b: Seq<u8>, p: int)
    requires
        valid_utf8(b),
        cut_ok(b, p),
    ensures
        is_char_boundary(b, p),
{
    if 0 < p < b.len() {
        is_char_boundary_iff_not_is_continuation_byte(b, p);
    } else {
        is_char_boundary_start_end_of_seq(b);
    }
}

/// The ASCII lower case equivalent of a byte.
pub fn to_lower(c: u8) -> (r: u8)
    ensures
        r == lower(c),
{
    if c >= 0x41 && c <= 0x5a {
        c + 32
    } else {
        c
    }
}

/// The sub-slice `from..to` of a string, cut at ASCII positions.
pub fn slice<'a>(s: &'a str, from: usize, to: usize) -> (r: &'a str)
    requires
        from <= to,
        cut_ok(s.spec_bytes(), from as int),
        cut_ok(s.spec_bytes(), to as int),
    ensures
        r.spec_bytes() == s.spec_bytes().subrange(from as int, to as int),
{
    proof {
        encode_utf8_valid_utf8(s@);
        lemma_cut_is_boundary(s.spec_bytes(), to as int);
    }
    let (head, _) = s.split_at(to);
    proof {
        encode_utf8_valid_utf8(head@);
        lemma_cut_is_boundary(head.spec_bytes(), from as int);
    }
    let (_, r) = head.split_at(from);
    assert(r.spec_bytes() =~= s.spec_bytes().subrange(from as int, to as int));
    r
}

/// Whether two byte strings are equal.
pub fn bytes_eq(a: &[u8], b: &[u8]) -> (r: bool)
    ensures
        r == (a@ == b@),
{
    if a.len() != b.len() {
        return false;
    }
    let mut i: usize = 0;
    while i < a.len()
        invariant
            a.len() == b.len(),
            i <= a.len(),
            a@.subrange(0, i as int) == b@.subrange(0, i as int),
        decreases a.len() - i,
    {
        if a[i] != b[i] {
            assert(a@[i as int] != b@[i as int]);
            return false;
        }
        assert(a@.subrange(0, i + 1) =~= a@.subrange(0, i as int).push(a@[i as int]));
        assert(b@.subrange(0, i + 1) =~= b@.subrange(0, i as int).push(b@[i as int]));
        i += 1;
    }
    assert(a@ =~= a@.subrange(0, i as int));
    assert(b@ =~= b@.subrange(0, i as int));
    true
}

/// Whether two byte strings are equal up to ASCII case.
pub fn bytes_eq_ignore_case(a: &[u8], b: &[u8]) -> (r: bool)
    ensures
        r == eq_ignore_case(a@, b@),
{
    if a.len() != b.len() {
        assert(lower_seq(a@).len() != lower_seq(b@).len());
        return false;
    }
    let mut i: usize = 0;
    while i < a.len()
        invariant
            a.len() == b.len(),
            i <= a.len(),
            forall|j: int| 0 <= j < i ==> lower(a@[j]) == lower(b@[j]),
        decreases a.len() - i,
    {
        if to_lower(a[i]) != to_lower(b[i]) {
            assert(lower_seq(a@)[i as int] != lower_seq(b@)[i as int]);
            return false;
        }
        i += 1;
    }
    assert(lower_seq(a@) =~= lower_seq(b@));
    true
}

/// Whether the bytes `from..to` of `b` are exactly the bytes of `lit`.
pub fn range_eq(b: &[u8], from: usize, to: usize, lit: &str) -> (r: bool)
    requires
        from <= to <= b.len(),
    ensures
        r == (b@.subrange(from as int, to as int) == lit.spec_bytes()),
{
    let l = lit.as_bytes();
    if l.len() != to - from {
        return false;
    }
    let ghost sub = b@.subrange(from as int, to as int);
    let mut i: usize = 0;
    while i < l.len()
        invariant
            from <= to <= b.len(),
            l.len() == to - from,
            l@ == lit.spec_bytes(),
            i <= l.len(),
            sub == b@.subrange(from as int, to as int),
            forall|j: int| 0 <= j < i ==> sub[j] == l@[j],
        decreases l.len() - i,
    {
        if b[from + i] != l[i] {
            assert(sub[i as int] != l@[i as int]);
            return false;
        }
        i += 1;
    }
    assert(sub =~= l@);
    true
}

/// `str::to_ascii_lowercase`: a copy of the string in which the ASCII
/// letters `A`-`Z` are replaced by `a`-`z` and every other byte is kept.
pub assume_specification[ str::to_ascii_lowercase ](s: &str) -> (r: String)
    ensures
        string_bytes(&r) == lower_seq(s.spec_bytes()),
;

/// `str::make_ascii_lowercase` on the sub-slice `from..to` of an owned
/// string: the ASCII letters `A`-`Z` in that range are replaced by `a`-`z`
/// in place; every other byte, in and out of the range, is kept. Slicing
/// panics off a character boundary, so both ends must be boundaries.
#[verifier::external_body]
pub(crate) fn make_ascii_lowercase_range(s: &mut String, from: usize, to: usize)
    requires
        from <= to <= string_bytes(old(s)).len(),
        is_char_boundary(string_bytes(old(s)), from as int),
        is_char_boundary(string_bytes(old(s)), to as int),
    ensures
        string_bytes(final(s)) == lower_range(string_bytes(old(s)), from as int, to as int),
{
    s[from..to].make_ascii_lowercase();
}

} // verus!
