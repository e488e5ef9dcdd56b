//! The grammar of a media type, as functions on the bytes of the text.
//!
//! ```text
//! media-type = type "/" subtype *( OWS ";" OWS parameter )
//! parameter  = token "=" ( token / quoted-string )
//! ```
//!
//! Offsets are 16 bits wide; the functions here speak of texts of at most
//! 65,535 bytes.
use super::constants::{atom_view, intern_charset_utf8_spec, intern_no_params_spec};
use super::parsed::{Byte, IndexedPair, MimeView, ParamShape, ParseError};
use super::text::{eq_ignore_case, lower};
use vstd::prelude::*;
use vstd::string::StringSliceAdditionalSpecFns;

verus! {

/// A byte of a token: a letter, a digit, or one of ``!#$%&'+-.^_`|~``.
pub open spec fn is_token_byte(c: u8) -> bool {
    ||| 0x30 <= c <= 0x39
    ||| 0x41 <= c <= 0x5a
    ||| 0x61 <= c <= 0x7a
    ||| c == 0x21
    ||| 0x23 <= c <= 0x27
    ||| c == 0x2b
    ||| c == 0x2d
    ||| c == 0x2e
    ||| c == 0x5e
    ||| c == 0x5f
    ||| c == 0x60
    ||| c == 0x7c
    ||| c == 0x7e
}

/// A byte that may stand in a quoted string, also behind a backslash: a tab,
/// or anything from the space on but DEL.
pub open spec fn is_quoted_byte(c: u8) -> bool {
    c == 9 || (c > 31 && c != 127)
}

/// A byte that separates parameters: `;` or a space.
pub open spec fn is_separator(c: u8) -> bool {
    c == 0x3b || c == 0x20
}

/// The end of the run of token bytes that starts at `from`.
pub open spec fn token_end(s: Seq<u8>, from: int) -> int
    decreases s.len() - from,
{
    if 0 <= from < s.len() && is_token_byte(s[from]) {
        token_end(s, from + 1)
    } else {
        from
    }
}

/// The first `+` in `from..to`.
pub open spec fn first_plus(s: Seq<u8>, from: int, to: int) -> Option<u16>
    decreases to - from,
{
    if from >= to {
        None
    } else if s[from] == 0x2b {
        Some(from as u16)
    } else {
        first_plus(s, from + 1, to)
    }
}

/// The offset of the quote that closes a quoted string whose content starts
/// at `pos`. A backslash takes the byte behind it along, whatever it is.
pub open spec fn quoted_end(s: Seq<u8>, pos: int) -> Result<int, ParseError>
    decreases s.len() - pos,
{
    if pos < 0 || pos >= s.len() {
        Err(ParseError::MissingQuote)
    } else if s[pos] == 0x22 {
        Ok(pos)
    } else if s[pos] == 0x5c {
        if pos + 1 >= s.len() {
            Err(ParseError::MissingQuote)
        } else if is_quoted_byte(s[pos + 1]) {
            quoted_end(s, pos + 2)
        } else {
            Err(invalid(s, pos + 1))
        }
    } else if is_quoted_byte(s[pos]) {
        quoted_end(s, pos + 1)
    } else {
        Err(invalid(s, pos))
    }
}

/// The error for the byte at `pos`.
pub open spec fn invalid(s: Seq<u8>, pos: int) -> ParseError {
    ParseError::InvalidToken { pos: pos as usize, byte: Byte(s[pos]) }
}

/// The parameter that starts at `pos`, and the offset at which the scan goes
/// on behind it. The name is a run of token bytes closed by `=`; the value is
/// a quoted string, or a run of token bytes that a separator or the end of
/// the text closes.
pub open spec fn scan_param(s: Seq<u8>, pos: int) -> Result<(IndexedPair, int), ParseError> {
    let eq = token_end(s, pos);
    let start = eq + 1;
    if eq >= s.len() {
        Err(ParseError::MissingEqual)
    } else if !(s[eq] == 0x3d && eq > pos) {
        Err(invalid(s, eq))
    } else if start < s.len() && s[start] == 0x22 {
        match quoted_end(s, start + 1) {
            Ok(q) => Ok((((pos as u16, eq as u16), (start as u16, (q + 1) as u16)), q + 1)),
            Err(e) => Err(e),
        }
    } else {
        let end = token_end(s, start);
        if end >= s.len() {
            Ok((((pos as u16, eq as u16), (start as u16, s.len() as u16)), s.len() as int))
        } else if is_separator(s[end]) && end > start {
            Ok((((pos as u16, eq as u16), (start as u16, end as u16)), end + 1))
        } else {
            Err(invalid(s, end))
        }
    }
}

/// A run of token bytes ends within the text, at a byte that is no token
/// byte, and holds token bytes only.
pub proof fn lemma_token_end(s: Seq<u8>, from: int)
    requires
        0 <= from <= s.len(),
    ensures
        from <= token_end(s, from) <= s.len(),
        token_end(s, from) < s.len() ==> !is_token_byte(s[token_end(s, from)]),
        forall|i: int| from <= i < token_end(s, from) ==> is_token_byte(#[trigger] s[i]),
    decreases s.len() - from,
{
    if from < s.len() && is_token_byte(s[from]) {
        lemma_token_end(s, from + 1);
    }
}

/// A run of token bytes, in terms of where it ends.
pub proof fn lemma_token_end_is(s: Seq<u8>, from: int, end: int)
    requires
        0 <= from <= end <= s.len(),
        forall|i: int| from <= i < end ==> is_token_byte(#[trigger] s[i]),
        end < s.len() ==> !is_token_byte(s[end]),
    ensures
        token_end(s, from) == end,
    decreases end - from,
{
    if from < end {
        lemma_token_end_is(s, from + 1, end);
    }
}

/// The first `+` of a range is a `+` that no other precedes; where there
/// is none, the range holds no `+`.
pub proof fn lemma_first_plus(s: Seq<u8>, from: int, to: int)
    requires
        0 <= from,
        to <= 0x10000,
    ensures
        first_plus(s, from, to) matches Some(p) ==> from <= p < to && s[p as int] == 0x2b && (
        forall|i: int| from <= i < p ==> s[i] != 0x2b),
        first_plus(s, from, to) is None ==> (forall|i: int| from <= i < to ==> s[i] != 0x2b),
    decreases to - from,
{
    if from < to && s[from] != 0x2b {
        lemma_first_plus(s, from + 1, to);
    }
}

/// The first `+` of a range is the same in two texts that have their `+` at
/// the same places of the range.
pub proof fn lemma_first_plus_same(a: Seq<u8>, b: Seq<u8>, from: int, to: int)
    requires
        forall|i: int| from <= i < to ==> (a[i] == 0x2b) == (b[i] == 0x2b),
    ensures
        first_plus(a, from, to) == first_plus(b, from, to),
    decreases to - from,
{
    if from < to {
        lemma_first_plus_same(a, b, from + 1, to);
    }
}

/// The first `+` of a range, in terms of where it is.
pub proof fn lemma_first_plus_is(s: Seq<u8>, from: int, to: int, r: Option<u16>)
    requires
        0 <= from,
        to <= 0x10000,
        match r {
            Some(p) => from <= p < to && s[p as int] == 0x2b && (forall|i: int|
                from <= i < p ==> s[i] != 0x2b),
            None => forall|i: int| from <= i < to ==> s[i] != 0x2b,
        },
    ensures
        first_plus(s, from, to) == r,
{
    lemma_first_plus(s, from, to);
}

/// A closing quote lies in the text, at or behind the start of the content.
pub proof fn lemma_quoted_end(s: Seq<u8>, pos: int)
    requires
        0 <= pos,
    ensures
        quoted_end(s, pos) matches Ok(q) ==> pos <= q < s.len() && s[q] == 0x22,
    decreases s.len() - pos,
{
    if pos < s.len() && s[pos] != 0x22 {
        if s[pos] == 0x5c {
            if pos + 1 < s.len() && is_quoted_byte(s[pos + 1]) {
                lemma_quoted_end(s, pos + 2);
            }
        } else if is_quoted_byte(s[pos]) {
            lemma_quoted_end(s, pos + 1);
        }
    }
}

/// The scan goes on behind a parameter, within the text.
pub proof fn lemma_scan_param_advances(s: Seq<u8>, pos: int)
    requires
        0 <= pos < s.len(),
    ensures
        scan_param(s, pos) matches Ok((_, next)) ==> pos < next <= s.len(),
{
    lemma_token_end(s, pos);
    let start = token_end(s, pos) + 1;
    if start <= s.len() {
        lemma_quoted_end(s, start + 1);
        lemma_token_end(s, start);
    }
}

/// What holds of a parameter that was scanned: the scan goes on behind it,
/// within the text; its name is not empty and `=` closes it; its value
/// starts behind the `=`; and a value that starts with a quote also ends
/// with one.
pub proof fn lemma_scan_param(s: Seq<u8>, pos: int)
    requires
        0 <= pos < s.len(),
        s.len() <= 0xffff,
    ensures
        scan_param(s, pos) matches Ok((pair, next)) ==> {
            &&& pos < next <= s.len()
            &&& pair.0.0 == pos
            &&& pair.0.0 < pair.0.1 < pair.1.0 <= pair.1.1 <= next
            &&& pair.1.0 == pair.0.1 + 1
            &&& s[pair.0.1 as int] == 0x3d
            &&& token_end(s, pos) == pair.0.1
            &&& next == pair.1.1 || (next == pair.1.1 + 1 && is_separator(s[pair.1.1 as int]))
            &&& pair.1.0 < s.len() ==> s[pair.1.0 as int] < 0x80
            &&& pair.1.0 < s.len() && s[pair.1.0 as int] == 0x22 ==> pair.1.0 + 2 <= pair.1.1
                && s[pair.1.1 - 1] == 0x22
            &&& pair.1.0 < s.len() && s[pair.1.0 as int] != 0x22 ==> token_end(s, pair.1.0 as int)
                == pair.1.1
        },
{
    lemma_token_end(s, pos);
    let eq = token_end(s, pos);
    if eq < s.len() && s[eq] == 0x3d && eq > pos {
        let start = eq + 1;
        if start < s.len() && s[start] == 0x22 {
            lemma_quoted_end(s, start + 1);
        } else {
            lemma_token_end(s, start);
        }
    }
}

/// The parameters from `pos` to the end of the text, behind those in `acc`.
/// Separators before a parameter are skipped, so an empty parameter is no
/// error.
pub open spec fn scan_params(s: Seq<u8>, pos: int, acc: Seq<IndexedPair>) -> Result<
    Seq<IndexedPair>,
    ParseError,
>
    decreases s.len() - pos,
{
    if pos < 0 || pos >= s.len() {
        Ok(acc)
    } else if is_separator(s[pos]) {
        scan_params(s, pos + 1, acc)
    } else {
        match scan_param(s, pos) {
            Ok((pair, next)) => {
                proof {
                    lemma_scan_param_advances(s, pos);
                }
                scan_params(s, next, acc.push(pair))
            },
            Err(e) => Err(e),
        }
    }
}

/// The bytes of a string literal.
pub open spec fn lit(s: &str) -> Seq<u8> {
    s.spec_bytes()
}

/// Whether `pair` is the parameter `charset=utf-8`, up to ASCII case, one
/// byte behind the separator at `semi`.
pub open spec fn is_charset_utf8(s: Seq<u8>, semi: u16, pair: IndexedPair) -> bool {
    &&& semi + 2 == pair.0.0
    &&& eq_ignore_case(s.subrange(pair.0.0 as int, pair.0.1 as int), lit("charset"))
    &&& eq_ignore_case(s.subrange(pair.1.0 as int, pair.1.1 as int), lit("utf-8"))
}

/// The shape that holds the parameters `pairs`, found behind the separator
/// at `semi`.
pub open spec fn shape_of(s: Seq<u8>, semi: u16, pairs: Seq<IndexedPair>) -> ParamShape {
    if pairs.len() == 0 {
        ParamShape::Empty
    } else if pairs.len() == 1 {
        if is_charset_utf8(s, semi, pairs[0]) {
            ParamShape::Utf8(semi)
        } else {
            ParamShape::One(semi, pairs[0])
        }
    } else if pairs.len() == 2 {
        ParamShape::Two(semi, pairs[0], pairs[1])
    } else {
        ParamShape::Custom(semi, pairs)
    }
}

/// Whether the name of `pair` is `charset`, up to ASCII case.
pub open spec fn names_charset(s: Seq<u8>, pair: IndexedPair) -> bool {
    eq_ignore_case(s.subrange(pair.0.0 as int, pair.0.1 as int), lit("charset"))
}

/// Whether one of the first `n` parameters has the byte at `i` folded: a
/// byte of its name, or a byte of its value where the name is `charset`.
pub open spec fn folded_by(s: Seq<u8>, pairs: Seq<IndexedPair>, n: int, i: int) -> bool
    decreases n,
{
    if n <= 0 {
        false
    } else {
        let p = pairs[n - 1];
        ||| folded_by(s, pairs, n - 1, i)
        ||| p.0.0 <= i < p.0.1
        ||| (p.1.0 <= i < p.1.1 && names_charset(s, p))
    }
}

/// The text as a parsed value keeps it: the bytes before the separator at
/// `semi`, the parameter names and the values of `charset` folded to ASCII
/// lower case, every other byte as it is.
pub open spec fn normalized(s: Seq<u8>, semi: int, pairs: Seq<IndexedPair>) -> Seq<u8> {
    Seq::new(
        s.len(),
        |i: int|
            if i < semi || folded_by(s, pairs, pairs.len() as int, i) {
                lower(s[i])
            } else {
                s[i]
            },
    )
}

/// The value for a text without parameters.
pub open spec fn bare(s: Seq<u8>, slash: int, plus: Option<u16>) -> MimeView {
    let (atom, bytes) = intern_no_params_spec(s, slash);
    MimeView { atom, owned: atom == 0, bytes, slash: slash as u16, plus, params: ParamShape::Empty }
}

/// What a scan finds in a text: the offset of the `/`, that of the `+`
/// before the suffix, that of the separator before the parameters, and the
/// ranges of the parameters.
pub ghost struct Scanned {
    pub slash: int,
    pub plus: Option<u16>,
    pub semi: Option<int>,
    pub pairs: Seq<IndexedPair>,
}

/// The value for a text in which a scan found the given parts. Where a
/// separator is followed by no parameter, the text ends before the
/// separator. Texts without parameters, and those whose one parameter is
/// `charset=utf-8`, are looked up in the table of well-known media types.
pub open spec fn build(s: Seq<u8>, sc: Scanned) -> MimeView {
    match sc.semi {
        None => bare(s, sc.slash, sc.plus),
        Some(semi) => match shape_of(s, semi as u16, sc.pairs) {
            ParamShape::Empty => bare(s.subrange(0, semi), sc.slash, sc.plus),
            ParamShape::Utf8(i) => {
                let (atom, bytes) = intern_charset_utf8_spec(s, sc.slash, semi);
                MimeView {
                    atom,
                    owned: atom == 0,
                    bytes,
                    slash: sc.slash as u16,
                    plus: sc.plus,
                    params: ParamShape::Utf8(i),
                }
            },
            shape => MimeView {
                atom: 0,
                owned: true,
                bytes: normalized(s, semi, sc.pairs),
                slash: sc.slash as u16,
                plus: sc.plus,
                params: shape,
            },
        },
    }
}

/// What a scan finds in a text whose parameters start behind the separator
/// at `semi`.
pub open spec fn scan_rest(s: Seq<u8>, slash: int, plus: Option<u16>, semi: int) -> Result<
    Scanned,
    ParseError,
> {
    match scan_params(s, semi + 1, seq![]) {
        Ok(pairs) => Ok(Scanned { slash, plus, semi: Some(semi), pairs }),
        Err(e) => Err(e),
    }
}

/// The value for a text whose parameters start behind the separator at
/// `semi`.
pub open spec fn with_params(s: Seq<u8>, slash: int, plus: Option<u16>, semi: int) -> Result<
    MimeView,
    ParseError,
> {
    match scan_rest(s, slash, plus, semi) {
        Ok(sc) => Ok(build(s, sc)),
        Err(e) => Err(e),
    }
}

/// What a scan finds behind the `/` at `slash`: the subtype is `*` alone
/// where ranges are allowed, else a run of token bytes that is not empty,
/// in which the first `+` that does not open it marks the suffix; the end
/// of the text, or a separator and parameters, follow. A text that ends
/// right behind the `/` lacks its subtype, as one that ends before the `/`
/// does.
pub open spec fn scan_subtype(s: Seq<u8>, can_range: bool, slash: int) -> Result<
    Scanned,
    ParseError,
> {
    let start = slash + 1;
    if can_range && start < s.len() && s[start] == 0x2a {
        if start + 1 == s.len() {
            Ok(Scanned { slash, plus: None, semi: None, pairs: seq![] })
        } else if s[start + 1] == 0x3b {
            scan_rest(s, slash, None, start + 1)
        } else {
            Err(invalid(s, start + 1))
        }
    } else {
        let end = token_end(s, start);
        let plus = first_plus(s, start + 1, end);
        if end >= s.len() {
            if end > start {
                Ok(Scanned { slash, plus, semi: None, pairs: seq![] })
            } else {
                Err(ParseError::MissingSlash)
            }
        } else if is_separator(s[end]) && end > start {
            scan_rest(s, slash, plus, end)
        } else {
            Err(invalid(s, end))
        }
    }
}

/// What a scan from left to right finds in a text, or its first error: the
/// type is a run of token bytes that is not empty and that `/` closes; the
/// subtype and the parameters follow.
pub open spec fn scan_spec(s: Seq<u8>, can_range: bool) -> Result<Scanned, ParseError> {
    let slash = token_end(s, 0);
    if slash >= s.len() {
        Err(ParseError::MissingSlash)
    } else if !(s[slash] == 0x2f && slash > 0) {
        Err(invalid(s, slash))
    } else {
        scan_subtype(s, can_range, slash)
    }
}

/// What a text parses to: the value, or the error. `can_range` says whether
/// the subtype `*` and the text `*/*` are allowed. A text of more than
/// 65,535 bytes is too long; the text `*/*` is the range of that name, or
/// an error; any other text is scanned.
pub open spec fn parse_spec(s: Seq<u8>, can_range: bool) -> Result<MimeView, ParseError> {
    if s.len() > 0xffff {
        Err(ParseError::TooLong)
    } else if s == lit("*/*") {
        if can_range {
            Ok(atom_view(30))
        } else {
            Err(ParseError::InvalidRange)
        }
    } else {
        match scan_spec(s, can_range) {
            Ok(sc) => Ok(build(s, sc)),
            Err(e) => Err(e),
        }
    }
}

} // verus!
