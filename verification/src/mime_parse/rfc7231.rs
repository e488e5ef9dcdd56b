//! The scanner: one pass over the bytes of a text, from left to right.
//!
//! HTTP defines a media type as
//!
//! ```text
//! media-type = type "/" subtype *( OWS ";" OWS parameter )
//! type       = token
//! subtype    = token
//! parameter  = token "=" ( token / quoted-string )
//! token      = 1*tchar
//! tchar      = "!" / "#" / "$" / "%" / "&" / "'" / "+" / "-" / "." /
//!              "^" / "_" / "`" / "|" / "~" / DIGIT / ALPHA
//! ```
use super::constants;
use super::constants::names::CHARSET;
use super::constants::Atoms;
use super::grammar::{
    bare, first_plus, is_charset_utf8, is_quoted_byte, is_separator, is_token_byte,
    lemma_scan_param, lit, parse_spec, quoted_end, scan_param, scan_params, shape_of, token_end,
    with_params,
};
use super::parsed::{
    lemma_pairs_sliceable, lower_ascii_with_params, parsed_as, Byte, IndexedPair, InternParams,
    Mime, ParamSource, ParseError, Parser, Source,
};
use super::text::{bytes_eq_ignore_case, lemma_ascii, lower_seq, range_eq, slice};
use super::wellformed::{lemma_parse_wf, lemma_scan_params_ok};
use super::Parse;
use vstd::prelude::*;
use vstd::slice::slice_subrange;
use vstd::string::StringSliceAdditionalSpecFns;
use vstd::utf8::encode_utf8_valid_utf8;

verus! {

/// Whether the byte may stand in a token.
pub fn is_token(c: u8) -> (r: bool)
    ensures
        r == is_token_byte(c),
{
    (c >= 0x30 && c <= 0x39) || (c >= 0x41 && c <= 0x5a) || (c >= 0x5e && c <= 0x7a) || c == 0x21
        || (c >= 0x23 && c <= 0x27) || c == 0x2b || c == 0x2d || c == 0x2e || c == 0x7c || c
        == 0x7e
}

/// Whether the byte may stand in a quoted string.
pub fn is_restricted_quoted_char(c: u8) -> (r: bool)
    ensures
        r == is_quoted_byte(c),
{
    c == 9 || (c > 31 && c != 127)
}

/// The offset as 16 bits.
pub fn as_u16(i: usize) -> (r: u16)
    requires
        i <= 0xffff,
    ensures
        r == i,
{
    i as u16
}

/// The end of the run of token bytes that starts at `from`.
fn token_run(b: &[u8], from: usize) -> (end: usize)
    requires
        from <= b@.len(),
    ensures
        end == token_end(b@, from as int),
        from <= end <= b@.len(),
{
    let mut i = from;
    while i < b.len() && is_token(b[i])
        invariant
            from <= i <= b@.len(),
            token_end(b@, from as int) == token_end(b@, i as int),
        decreases b@.len() - i,
    {
        i += 1;
    }
    i
}

/// The offset of the quote that closes the quoted string whose content
/// starts at `pos`.
fn quoted_run(b: &[u8], pos: usize) -> (r: Result<usize, ParseError>)
    requires
        pos <= b@.len(),
    ensures
        match quoted_end(b@, pos as int) {
            Ok(q) => r == Ok::<usize, ParseError>(q as usize) && pos <= q < b@.len(),
            Err(e) => r == Err::<usize, ParseError>(e),
        },
{
    let mut i = pos;
    while i < b.len()
        invariant
            pos <= i <= b@.len(),
            quoted_end(b@, pos as int) == quoted_end(b@, i as int),
        decreases b@.len() - i,
    {
        let c = b[i];
        if c == 0x22 {
            return Ok(i);
        } else if c == 0x5c {
            if i + 1 >= b.len() {
                return Err(ParseError::MissingQuote);
            }
            let escaped = b[i + 1];
            if !is_restricted_quoted_char(escaped) {
                return Err(ParseError::InvalidToken { pos: i + 1, byte: Byte(escaped) });
            }
            i += 2;
        } else if is_restricted_quoted_char(c) {
            i += 1;
        } else {
            return Err(ParseError::InvalidToken { pos: i, byte: Byte(c) });
        }
    }
    Err(ParseError::MissingQuote)
}

/// The value for a text without parameters.
fn without_params(s: &str, slash: u16, plus: Option<u16>) -> (r: Mime)
    requires
        slash < s.spec_bytes().len(),
        bare(s.spec_bytes(), slash as int, plus).wf(),
    ensures
        r@ == bare(s.spec_bytes(), slash as int, plus),
{
    let source = Atoms::intern(s, slash, InternParams::Bare);
    Mime::private_from_proc_macro(source, slash, plus, ParamSource::Empty)
}

/// The value for a text whose parameters start behind the separator at
/// `semi`.
#[verifier::rlimit(50)]
fn with_parameters(s: &str, slash: u16, plus: Option<u16>, semi: usize) -> (r: Result<
    Mime,
    ParseError,
>)
    requires
        slash < semi < s.spec_bytes().len() <= 0xffff,
        is_separator(s.spec_bytes()[semi as int]),
        with_params(s.spec_bytes(), slash as int, plus, semi as int) matches Ok(v) ==> v.wf(),
    ensures
        parsed_as(r, with_params(s.spec_bytes(), slash as int, plus, semi as int)),
{
    let params = match params_from_str(s, semi) {
        Ok(params) => params,
        Err(e) => {
            return Err(e);
        },
    };
    let ghost b = s.spec_bytes();
    let ghost pairs = scan_params(b, semi + 1, seq![])->Ok_0;
    proof {
        lemma_scan_params_ok(b, semi + 1, seq![], semi as int);
        encode_utf8_valid_utf8(s@);
        lemma_pairs_sliceable(b, semi as int, pairs);
    }
    let source = match &params {
        ParamSource::Empty => {
            // There was a separator, but no parameter behind it: the text
            // ends before the separator.
            Atoms::intern(slice(s, 0, semi), slash, InternParams::Bare)
        },
        ParamSource::Utf8(params_start) => Atoms::intern(
            s,
            slash,
            InternParams::Utf8(*params_start as usize),
        ),
        ParamSource::One(params_start, a) => {
            let one = [*a];
            assert(one@ =~= pairs);
            Source::Dynamic(lower_ascii_with_params(s, *params_start as usize, one.as_slice()))
        },
        ParamSource::Two(params_start, a, b) => {
            let two = [*a, *b];
            assert(two@ =~= pairs);
            Source::Dynamic(lower_ascii_with_params(s, *params_start as usize, two.as_slice()))
        },
        ParamSource::Custom(params_start, indices) => Source::Dynamic(
            lower_ascii_with_params(s, *params_start as usize, indices.as_slice()),
        ),
    };
    Ok(Mime::private_from_proc_macro(source, slash, plus, params))
}

/// Parses a text as a media type, or as a media range where the parser
/// allows ranges.
pub fn parse<P: Parse>(opts: &Parser, src: P) -> (r: Result<Mime, ParseError>)
    ensures
        parsed_as(r, parse_spec(src.text(), opts.ranges())),
{
    let s = src.as_str();
    let b = s.as_bytes();
    let len = b.len();
    if len > 0xffff {
        return Err(ParseError::TooLong);
    }
    proof {
        lemma_parse_wf(b@, opts.ranges());
        assert(b@.subrange(0, len as int) =~= b@);
    }
    if range_eq(b, 0, len, "*/*") {
        return if opts.allows_ranges() {
            Ok(constants::star_star())
        } else {
            Err(ParseError::InvalidRange)
        };
    }
    // toplevel
    let i = token_run(b, 0);
    if i >= len {
        return Err(ParseError::MissingSlash);
    }
    if !(b[i] == 0x2f && i > 0) {
        return Err(ParseError::InvalidToken { pos: i, byte: Byte(b[i]) });
    }
    let slash = as_u16(i);
    let start = i + 1;

    // sublevel
    if opts.allows_ranges() && start < len && b[start] == 0x2a {
        // a star is the whole subtype: the end or `;` must follow
        if start + 1 == len {
            Ok(without_params(s, slash, None))
        } else if b[start + 1] == 0x3b {
            with_parameters(s, slash, None, start + 1)
        } else {
            Err(ParseError::InvalidToken { pos: start + 1, byte: Byte(b[start + 1]) })
        }
    } else {
        let mut plus: Option<u16> = None;
        let mut i = start;
        while i < len && is_token(b[i])
            invariant
                len == b@.len(),
                len <= 0xffff,
                start <= i <= len,
                token_end(b@, start as int) == token_end(b@, i as int),
                plus == first_plus(b@, start + 1, i as int),
            decreases len - i,
        {
            proof {
                lemma_first_plus_extend(b@, start + 1, i as int);
            }
            if b[i] == 0x2b && i > start && plus.is_none() {
                plus = Some(as_u16(i));
            }
            i += 1;
        }
        if i >= len {
            if i > start {
                Ok(without_params(s, slash, plus))
            } else {
                // the text ends where the subtype is to start
                Err(ParseError::MissingSlash)
            }
        } else if (b[i] == 0x3b || b[i] == 0x20) && i > start {
            with_parameters(s, slash, plus, i)
        } else {
            Err(ParseError::InvalidToken { pos: i, byte: Byte(b[i]) })
        }
    }
}

/// The first `+` of a range that grows by one byte.
proof fn lemma_first_plus_extend(s: Seq<u8>, from: int, to: int)
    requires
        0 <= to < s.len(),
        to < 0xffff,
    ensures
        first_plus(s, from, to + 1) == if from <= to && first_plus(s, from, to) is None && s[to]
            == 0x2b {
            Some(to as u16)
        } else {
            first_plus(s, from, to)
        },
    decreases to - from,
{
    reveal_with_fuel(first_plus, 3);
    if from < to {
        lemma_first_plus_extend(s, from + 1, to);
    }
}

/// Scans the parameter that starts at `pos`: its ranges, and the offset at
/// which the scan goes on.
fn scan_one(b: &[u8], pos: usize) -> (r: Result<(IndexedPair, usize), ParseError>)
    requires
        pos < b@.len() <= 0xffff,
    ensures
        match scan_param(b@, pos as int) {
            Ok((pair, next)) => r == Ok::<(IndexedPair, usize), ParseError>((pair, next as usize))
                && pos < next <= b@.len(),
            Err(e) => r == Err::<(IndexedPair, usize), ParseError>(e),
        },
{
    let len = b.len();
    // name
    let eq = token_run(b, pos);
    if eq >= len {
        return Err(ParseError::MissingEqual);
    }
    if !(b[eq] == 0x3d && eq > pos) {
        return Err(ParseError::InvalidToken { pos: eq, byte: Byte(b[eq]) });
    }
    let name = (as_u16(pos), as_u16(eq));
    let start = eq + 1;

    // value: a quoted string, or a token
    if start < len && b[start] == 0x22 {
        let quote = match quoted_run(b, start + 1) {
            Ok(q) => q,
            Err(e) => {
                return Err(e);
            },
        };
        Ok(((name, (as_u16(start), as_u16(quote + 1))), quote + 1))
    } else {
        let end = token_run(b, start);
        if end >= len {
            Ok(((name, (as_u16(start), as_u16(len))), len))
        } else if (b[end] == 0x20 || b[end] == 0x3b) && end > start {
            Ok(((name, (as_u16(start), as_u16(end))), end + 1))
        } else {
            Err(ParseError::InvalidToken { pos: end, byte: Byte(b[end]) })
        }
    }
}

/// Whether the parameter is `charset=utf-8`, up to ASCII case, one byte
/// behind the separator at `params_start`.
fn names_charset_utf8(b: &[u8], params_start: u16, pair: IndexedPair) -> (r: bool)
    requires
        pair.0.0 <= pair.0.1 <= b@.len(),
        pair.1.0 <= pair.1.1 <= b@.len(),
    ensures
        r == is_charset_utf8(b@, params_start, pair),
{
    let (name, value) = pair;
    params_start as usize + 2 == name.0 as usize && bytes_eq_ignore_case(
        slice_subrange(b, name.0 as usize, name.1 as usize),
        CHARSET.as_bytes(),
    ) && bytes_eq_ignore_case(
        slice_subrange(b, value.0 as usize, value.1 as usize),
        "utf-8".as_bytes(),
    )
}

/// Scans the parameters of the text behind the separator at `start` and
/// gives them the shape that holds them.
pub fn params_from_str(s: &str, start: usize) -> (r: Result<ParamSource, ParseError>)
    requires
        start < s.spec_bytes().len() <= 0xffff,
    ensures
        match scan_params(s.spec_bytes(), start + 1, seq![]) {
            Ok(pairs) => r matches Ok(p) && p@ == shape_of(s.spec_bytes(), start as u16, pairs),
            Err(e) => r matches Err(x) && x == e,
        },
{
    let b = s.as_bytes();
    let len = b.len();
    let params_start = as_u16(start);
    let mut pos = start + 1;
    let mut params = ParamSource::Empty;
    let ghost mut acc: Seq<IndexedPair> = seq![];
    while pos < len
        invariant
            len == b@.len(),
            b@ == s.spec_bytes(),
            len <= 0xffff,
            params_start == start,
            start < pos <= len,
            scan_params(b@, start + 1, seq![]) == scan_params(b@, pos as int, acc),
            params@ == shape_of(b@, params_start, acc),
            forall|k: int| 0 <= k < acc.len() ==> linked(#[trigger] acc[k], len as int),
        decreases len - pos,
    {
        let c = b[pos];
        if c == 0x20 || c == 0x3b {
            // optional whitespace, or an empty parameter
            pos += 1;
        } else {
            let (pair, next) = match scan_one(b, pos) {
                Ok(found) => found,
                Err(e) => {
                    return Err(e);
                },
            };
            proof {
                lemma_scan_param(b@, pos as int);
                if acc.len() > 0 {
                    lemma_utf8_pair(b@, params_start, acc[0], len as int);
                }
                acc = acc.push(pair);
            }
            params = match params {
                ParamSource::Utf8(i) => {
                    let i = i + 2;
                    let charset = (i, 7 + i);
                    let utf8 = (charset.1 + 1, charset.1 + 5 + 1);
                    ParamSource::Two(params_start, (charset, utf8), pair)
                },
                ParamSource::One(sc, a) => ParamSource::Two(sc, a, pair),
                ParamSource::Two(sc, a, b) => {
                    let mut v: Vec<IndexedPair> = Vec::new();
                    v.push(a);
                    v.push(b);
                    v.push(pair);
                    assert(v@ =~= acc);
                    ParamSource::Custom(sc, v)
                },
                ParamSource::Custom(sc, mut v) => {
                    v.push(pair);
                    ParamSource::Custom(sc, v)
                },
                ParamSource::Empty => {
                    if names_charset_utf8(b, params_start, pair) {
                        ParamSource::Utf8(params_start)
                    } else {
                        ParamSource::One(params_start, pair)
                    }
                },
            };
            pos = next;
        }
    }
    Ok(params)
}

/// Whether the value of a parameter starts one byte behind its name, and
/// both lie in a text of `len` bytes.
spec fn linked(p: IndexedPair, len: int) -> bool {
    p.0.0 <= p.0.1 && p.1.0 == p.0.1 + 1 && p.1.0 <= p.1.1 <= len
}

/// Where the parameter `charset=utf-8` stands, one byte behind the separator
/// at `semi`.
proof fn lemma_utf8_pair(s: Seq<u8>, semi: u16, p: IndexedPair, len: int)
    requires
        len == s.len() <= 0xffff,
    ensures
        is_charset_utf8(s, semi, p) && linked(p, len) ==> semi + 15 <= 0xffff && p == (
            ((semi + 2) as u16, (semi + 9) as u16),
            ((semi + 10) as u16, (semi + 15) as u16),
        ),
{
    reveal_strlit("charset");
    reveal_strlit("utf-8");
    lemma_ascii("charset");
    lemma_ascii("utf-8");
    if is_charset_utf8(s, semi, p) && linked(p, len) {
        let name = s.subrange(p.0.0 as int, p.0.1 as int);
        let value = s.subrange(p.1.0 as int, p.1.1 as int);
        assert(lower_seq(name).len() == lower_seq(lit("charset")).len());
        assert(lower_seq(value).len() == lower_seq(lit("utf-8")).len());
    }
}

} // verus!
