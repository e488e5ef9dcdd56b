//! The parsed value, its parts and its mathematical view.
use super::constants;
use super::constants::names::CHARSET;
use super::grammar;
use super::grammar::{folded_by, names_charset, normalized};
use super::rfc7231;
use super::sealed::Sealed;
use super::text;
use super::text::{
    cut_ok, lemma_ascii, lemma_cut_is_boundary, lower, make_ascii_lowercase_range, range_eq,
    string_bytes,
};
use vstd::prelude::*;
use vstd::string::StringSliceAdditionalSpecFns;
use vstd::utf8::{
    encode_utf8_valid_utf8, is_char_boundary, is_char_boundary_iff_not_is_continuation_byte,
    is_char_boundary_start_end_of_seq, valid_utf8,
};

verus! {

/// A half-open byte range `(start, end)` into the source text.
pub type Indexed = (u16, u16);

/// The ranges of a parameter: its name, then its value.
pub type IndexedPair = (Indexed, Indexed);

/// How a scan failed.
#[derive(Debug)]
pub enum ParseError {
    /// The text ended before its `/`, or right behind it.
    MissingSlash,
    /// No `=` ended a parameter name.
    MissingEqual,
    /// A quoted parameter value was never closed.
    MissingQuote,
    /// A byte that the grammar does not allow at its position.
    InvalidToken { pos: usize, byte: Byte },
    /// The range `*/*` where only an exact type may stand.
    InvalidRange,
    /// More bytes than a 16-bit offset can index.
    TooLong,
}

/// The byte that a scan stopped at.
#[derive(Clone, Copy, Debug)]
pub struct Byte(pub u8);

/// The text behind a parsed media type.
#[derive(Debug)]
pub enum Source {
    /// An entry of the table of well-known media types: its identity and its
    /// text. Identity 0 marks a text that is no entry of the table.
    Atom(u8, &'static str),
    /// An owned text, folded to lower case where case does not matter.
    Dynamic(String),
}

impl Source {
    /// The identity of the table entry; 0 for any other text.
    pub open spec fn atom_id(&self) -> u8 {
        match self {
            Source::Atom(a, _) => *a,
            Source::Dynamic(_) => 0,
        }
    }

    /// Whether the text is an owned copy.
    pub open spec fn is_owned(&self) -> bool {
        self is Dynamic
    }

    /// The bytes of the text.
    pub open spec fn bytes(&self) -> Seq<u8> {
        match self {
            Source::Atom(_, s) => s.spec_bytes(),
            Source::Dynamic(s) => string_bytes(s),
        }
    }

}

impl AsRef<str> for Source {
    /// The text.
    fn as_ref(&self) -> (r: &str)
        ensures
            r.spec_bytes() == self.bytes(),
    {
        match self {
            Source::Atom(_, s) => s,
            Source::Dynamic(s) => s.as_str(),
        }
    }
}

impl Clone for Source {
    fn clone(&self) -> (r: Self)
        ensures
            r.atom_id() == self.atom_id(),
            r.is_owned() == self.is_owned(),
            r.bytes() == self.bytes(),
    {
        match self {
            Source::Atom(a, s) => Source::Atom(*a, s),
            Source::Dynamic(s) => Source::Dynamic(s.clone()),
        }
    }
}

/// What the table of well-known media types is asked for.
pub enum InternParams {
    /// A text whose one parameter is `charset=utf-8`, behind the separator at
    /// the given offset.
    Utf8(usize),
    /// A text without parameters.
    Bare,
}

/// The parameters of a parsed media type, by shape.
#[derive(Debug)]
pub enum ParamSource {
    /// No parameters.
    Empty,
    /// The single parameter `charset=utf-8`; the offset is that of the
    /// separator that introduces it.
    Utf8(u16),
    /// One parameter, after the separator at the given offset.
    One(u16, IndexedPair),
    /// Two parameters.
    Two(u16, IndexedPair, IndexedPair),
    /// Three parameters or more.
    Custom(u16, Vec<IndexedPair>),
}

/// The mathematical value of a [`ParamSource`].
pub ghost enum ParamShape {
    Empty,
    Utf8(u16),
    One(u16, IndexedPair),
    Two(u16, IndexedPair, IndexedPair),
    Custom(u16, Seq<IndexedPair>),
}

impl View for ParamSource {
    type V = ParamShape;

    open spec fn view(&self) -> ParamShape {
        match *self {
            ParamSource::Empty => ParamShape::Empty,
            ParamSource::Utf8(i) => ParamShape::Utf8(i),
            ParamSource::One(i, a) => ParamShape::One(i, a),
            ParamSource::Two(i, a, b) => ParamShape::Two(i, a, b),
            ParamSource::Custom(i, v) => ParamShape::Custom(i, v@),
        }
    }
}

impl Clone for ParamSource {
    fn clone(&self) -> (r: Self)
        ensures
            r@ == self@,
    {
        match self {
            ParamSource::Empty => ParamSource::Empty,
            ParamSource::Utf8(i) => ParamSource::Utf8(*i),
            ParamSource::One(i, a) => ParamSource::One(*i, *a),
            ParamSource::Two(i, a, b) => ParamSource::Two(*i, *a, *b),
            ParamSource::Custom(i, v) => {
                let mut pairs: Vec<IndexedPair> = Vec::new();
                let mut k: usize = 0;
                while k < v.len()
                    invariant
                        k <= v.len(),
                        pairs@ == v@.subrange(0, k as int),
                    decreases v.len() - k,
                {
                    pairs.push(v[k]);
                    assert(pairs@ =~= v@.subrange(0, k + 1));
                    k += 1;
                }
                assert(pairs@ =~= v@);
                ParamSource::Custom(*i, pairs)
            },
        }
    }
}

impl ParamShape {
    /// The offset of the separator that introduces the parameters.
    pub open spec fn semicolon(self) -> Option<int> {
        match self {
            ParamShape::Empty => None,
            ParamShape::Utf8(i) => Some(i as int),
            ParamShape::One(i, _) => Some(i as int),
            ParamShape::Two(i, _, _) => Some(i as int),
            ParamShape::Custom(i, _) => Some(i as int),
        }
    }

    /// The ranges that the shape stores, in the order of the text.
    pub open spec fn pairs(self) -> Seq<IndexedPair> {
        match self {
            ParamShape::Empty => seq![],
            ParamShape::Utf8(_) => seq![],
            ParamShape::One(_, a) => seq![a],
            ParamShape::Two(_, a, b) => seq![a, b],
            ParamShape::Custom(_, v) => v,
        }
    }

    /// The number of parameters.
    pub open spec fn count(self) -> nat {
        match self {
            ParamShape::Empty => 0,
            ParamShape::Utf8(_) => 1,
            ParamShape::One(_, _) => 1,
            ParamShape::Two(_, _, _) => 2,
            ParamShape::Custom(_, v) => v.len(),
        }
    }
}

/// The mathematical value of a [`Mime`].
pub ghost struct MimeView {
    /// The identity of the table entry that the value names, or 0.
    pub atom: u8,
    /// Whether the text is an owned copy; if not, it is the text of a table
    /// entry or of a literal.
    pub owned: bool,
    /// The bytes of its text.
    pub bytes: Seq<u8>,
    /// The offset of the `/` between type and subtype.
    pub slash: u16,
    /// The offset of the `+` before the suffix.
    pub plus: Option<u16>,
    /// The parameters.
    pub params: ParamShape,
}

/// Whether the ranges of a parameter lie in the text behind the separator at
/// `semi`, in order, with `=` between name and value, and can be cut out of
/// it; a value that opens with a quote also ends with an ASCII byte.
pub open spec fn pair_ok(b: Seq<u8>, semi: int, p: IndexedPair) -> bool {
    &&& semi < p.0.0 < p.0.1 < p.1.0 <= p.1.1 <= b.len()
    &&& p.1.0 == p.0.1 + 1
    &&& b[p.0.1 as int] == 0x3d
    &&& cut_ok(b, p.0.0 as int)
    &&& cut_ok(b, p.1.0 as int)
    &&& cut_ok(b, p.1.1 as int)
    &&& (p.1.0 + 2 <= p.1.1 && b[p.1.0 as int] == 0x22 ==> b[p.1.1 - 1] < 0x80)
}

/// The name and the value that the ranges of a parameter cut out of a text.
pub open spec fn pair_of(b: Seq<u8>, p: IndexedPair) -> (Seq<u8>, Seq<u8>) {
    (b.subrange(p.0.0 as int, p.0.1 as int), b.subrange(p.1.0 as int, p.1.1 as int))
}

/// The parameters of a text as names and values, in the order of the text.
/// The shape for `charset=utf-8` stands for just these two words, whatever
/// the text holds.
pub open spec fn params_of(b: Seq<u8>, shape: ParamShape) -> Seq<(Seq<u8>, Seq<u8>)> {
    match shape {
        ParamShape::Utf8(_) => seq![(grammar::lit("charset"), grammar::lit("utf-8"))],
        _ => Seq::new(shape.pairs().len(), |i: int| pair_of(b, shape.pairs()[i])),
    }
}

/// The value of the first parameter from index `from` on with the given
/// name.
pub open spec fn find_param(ps: Seq<(Seq<u8>, Seq<u8>)>, name: Seq<u8>, from: int) -> Option<
    Seq<u8>,
>
    decreases ps.len() - from,
{
    if from < 0 || from >= ps.len() {
        None
    } else if ps[from].0 == name {
        Some(ps[from].1)
    } else {
        find_param(ps, name, from + 1)
    }
}

/// Whether all ranges of a shape fit the text, behind the separator at
/// `semi`.
pub open spec fn pairs_ok(b: Seq<u8>, semi: int, shape: ParamShape) -> bool {
    &&& forall|k: int| 0 <= k < shape.pairs().len() ==> pair_ok(b, semi, #[trigger] shape.pairs()[k])
    &&& (shape matches ParamShape::Custom(_, v) ==> v.len() >= 3)
}

impl MimeView {
    /// The value without its parameters.
    pub open spec fn without_params(self) -> MimeView {
        match self.params.semicolon() {
            None => self,
            Some(i) => grammar::bare(self.bytes.subrange(0, i), self.slash as int, self.plus),
        }
    }

    /// The end of the essence: the offset of the separator before the
    /// parameters, or the length of the text.
    pub open spec fn end(self) -> int {
        match self.params.semicolon() {
            Some(i) => i,
            None => self.bytes.len() as int,
        }
    }

    /// The top-level type.
    pub open spec fn type_(self) -> Seq<u8> {
        self.bytes.subrange(0, self.slash as int)
    }

    /// The subtype, its suffix included.
    pub open spec fn subtype(self) -> Seq<u8> {
        self.bytes.subrange(self.slash + 1, self.end())
    }

    /// The suffix: what follows the `+`.
    pub open spec fn suffix(self) -> Option<Seq<u8>> {
        match self.plus {
            Some(p) => Some(self.bytes.subrange(p + 1, self.end())),
            None => None,
        }
    }

    /// Type, subtype and suffix, without the parameters.
    pub open spec fn essence(self) -> Seq<u8> {
        self.bytes.subrange(0, self.end())
    }

    /// Whether a separator introduces parameters.
    pub open spec fn has_params(self) -> bool {
        self.params.semicolon() is Some
    }

    /// The parameters as names and values, in the order of the text.
    pub open spec fn params(self) -> Seq<(Seq<u8>, Seq<u8>)> {
        params_of(self.bytes, self.params)
    }

    /// The value of the first parameter with the given name.
    pub open spec fn param(self, name: Seq<u8>) -> Option<Seq<u8>> {
        find_param(self.params(), name, 0)
    }

    /// Whether the offsets fit the text: the `/` and the separator are where
    /// the offsets say; neither the type nor the subtype is empty; the `+`
    /// is the first one of the subtype that does not open it; all parameter
    /// ranges lie behind the separator; every part can be cut out of the
    /// text.
    pub open spec fn structured(self) -> bool {
        let b = self.bytes;
        &&& b.len() <= 0xffff
        &&& 0 < self.slash
        &&& self.slash + 1 < self.end() <= b.len()
        &&& b[self.slash as int] == 0x2f
        &&& cut_ok(b, self.slash + 1)
        &&& cut_ok(b, self.end())
        &&& self.plus == grammar::first_plus(b, self.slash + 2, self.end())
        &&& (self.plus matches Some(p) ==> cut_ok(b, p + 1))
        &&& match self.params.semicolon() {
            Some(i) => i < b.len() && grammar::is_separator(b[i]),
            None => true,
        }
        &&& pairs_ok(b, self.end(), self.params)
    }

    /// Whether this is a value as the scanner builds them: well structured,
    /// and, where it bears the identity of a table entry, that entry. An
    /// owned copy bears no identity.
    pub open spec fn wf(self) -> bool {
        &&& self.structured()
        &&& self.owned ==> self.atom == 0
        &&& self.atom != 0 ==> 1 <= self.atom <= constants::ATOM_COUNT && self
            == constants::atom_view(self.atom)
    }
}

/// A text without parameters gives a well-formed value, if its `/` and its
/// first `+` are where they are said to be.
pub proof fn lemma_bare_wf(s: Seq<u8>, slash: int, plus: Option<u16>)
    requires
        s.len() <= 0xffff,
        0 < slash,
        slash + 1 < s.len(),
        s[slash] == 0x2f,
        cut_ok(s, slash + 1),
        plus == grammar::first_plus(s, slash + 2, s.len() as int),
        plus matches Some(p) ==> cut_ok(s, p + 1),
    ensures
        grammar::bare(s, slash, plus).wf(),
        grammar::bare(s, slash, plus).atom != 0 ==> grammar::bare(s, slash, plus).bytes == s,
{
    let top = s.subrange(0, slash);
    let sub = s.subrange(slash + 1, s.len() as int);
    let id = constants::atom_no_params(top, sub);
    let v = grammar::bare(s, slash, plus);
    if id == 0 {
        grammar::lemma_first_plus_same(s, v.bytes, slash + 2, s.len() as int);
    } else {
        constants::lemma_atom_found(top, sub);
        constants::lemma_atom_entry(id);
        assert(s =~= top + seq![0x2fu8] + sub);
        assert(v == constants::atom_view(id));
    }
}

/// Dropping the parameters of a well-formed value gives a well-formed value.
pub proof fn lemma_without_params(v: MimeView)
    requires
        v.wf(),
    ensures
        v.without_params().wf(),
{
    if let Some(i) = v.params.semicolon() {
        let s = v.bytes.subrange(0, i);
        grammar::lemma_first_plus_same(v.bytes, s, v.slash + 2, i);
        grammar::lemma_first_plus(s, v.slash + 2, i);
        lemma_bare_wf(s, v.slash as int, v.plus);
    }
}

/// Whether a result of the scanner is the one that the grammar gives.
pub open spec fn parsed_as(r: Result<Mime, ParseError>, spec: Result<MimeView, ParseError>) -> bool {
    match spec {
        Ok(v) => r matches Ok(m) && m@ == v,
        Err(e) => r matches Err(x) && x == e,
    }
}

/// A parsed media type or media range.
#[derive(Debug)]
pub struct Mime {
    source: Source,
    slash: u16,
    plus: Option<u16>,
    params: ParamSource,
}

impl View for Mime {
    type V = MimeView;

    closed spec fn view(&self) -> MimeView {
        MimeView {
            atom: self.source.atom_id(),
            owned: self.source.is_owned(),
            bytes: self.source.bytes(),
            slash: self.slash,
            plus: self.plus,
            params: self.params@,
        }
    }
}

impl Clone for Mime {
    fn clone(&self) -> (r: Self)
        ensures
            r@ == self@,
    {
        proof {
            use_type_invariant(self);
        }
        Mime {
            source: self.source.clone(),
            slash: self.slash,
            plus: self.plus,
            params: self.params.clone(),
        }
    }
}

impl Mime {
    /// Every value is well formed.
    #[verifier::type_invariant]
    pub open spec fn inv(&self) -> bool {
        self@.wf()
    }

    /// The top-level type, such as `text` in `text/plain`.
    pub fn type_(&self) -> (r: &str)
        ensures
            r.spec_bytes() == self@.type_(),
    {
        proof {
            use_type_invariant(self);
        }
        text::slice(self.source.as_ref(), 0, self.slash as usize)
    }

    /// The subtype, such as `plain` in `text/plain`. It includes the suffix.
    pub fn subtype(&self) -> (r: &str)
        ensures
            r.spec_bytes() == self@.subtype(),
    {
        proof {
            use_type_invariant(self);
        }
        let end = self.semicolon_or_end();
        text::slice(self.source.as_ref(), self.slash as usize + 1, end)
    }

    /// The offset of the `/`.
    pub fn private_subtype_offset(&self) -> (r: u16)
        ensures
            r == self@.slash,
    {
        self.slash
    }

    /// The suffix, such as `xml` in `image/svg+xml`.
    pub fn suffix(&self) -> (r: Option<&str>)
        ensures
            match self@.suffix() {
                Some(x) => r matches Some(y) && y.spec_bytes() == x,
                None => r is None,
            },
    {
        proof {
            use_type_invariant(self);
            grammar::lemma_first_plus(self@.bytes, self@.slash + 2, self@.end());
        }
        let end = self.semicolon_or_end();
        match self.plus {
            Some(idx) => Some(text::slice(self.source.as_ref(), idx as usize + 1, end)),
            None => None,
        }
    }

    /// The offset of the `+`.
    pub fn private_suffix_offset(&self) -> (r: Option<u16>)
        ensures
            r == self@.plus,
    {
        self.plus
    }

    /// A cursor over the parameters, in the order of the text.
    pub fn params(&self) -> (r: Params<'_>)
        ensures
            r@ == self@.params(),
    {
        proof {
            use_type_invariant(self);
        }
        Params { source: &self.source, params: &self.params, pos: 0 }
    }

    /// The parameters, by shape.
    pub fn private_params_source(&self) -> (r: &ParamSource)
        ensures
            r@ == self@.params,
    {
        &self.params
    }

    /// The value of the first parameter whose name is `attr`, byte for byte.
    pub fn param<'a>(&'a self, attr: &str) -> (r: Option<&'a str>)
        ensures
            match self@.param(attr.spec_bytes()) {
                Some(x) => r matches Some(y) && y.spec_bytes() == x,
                None => r is None,
            },
    {
        let mut it = self.params();
        let ghost all = self@.params();
        let ghost mut k: int = 0;
        loop
            invariant
                all == self@.params(),
                0 <= k <= all.len(),
                it@ == all.skip(k),
                find_param(all, attr.spec_bytes(), 0) == find_param(all, attr.spec_bytes(), k),
            decreases all.len() - k,
        {
            match it.next() {
                Some((name, value)) => {
                    if text::bytes_eq(attr.as_bytes(), name.as_bytes()) {
                        return Some(value);
                    }
                    proof {
                        assert(all.skip(k).drop_first() =~= all.skip(k + 1));
                        k = k + 1;
                    }
                },
                None => {
                    return None;
                },
            }
        }
    }

    /// Whether a separator introduces parameters.
    pub fn has_params(&self) -> (r: bool)
        ensures
            r == self@.has_params(),
    {
        self.semicolon().is_some()
    }

    /// The value without its parameters: what is left is looked up in the
    /// table of well-known media types again.
    pub fn without_params(self) -> (r: Self)
        ensures
            r@ == self@.without_params(),
    {
        proof {
            use_type_invariant(&self);
        }
        let semicolon = match self.semicolon() {
            None => {
                return self;
            },
            Some(i) => i,
        };
        let essence = text::slice(self.source.as_ref(), 0, semicolon);
        let source = constants::Atoms::intern(essence, self.slash, InternParams::Bare);
        proof {
            lemma_without_params(self@);
        }
        Mime { source, slash: self.slash, plus: self.plus, params: ParamSource::Empty }
    }

    /// The offset of the separator before the parameters.
    fn semicolon(&self) -> (r: Option<usize>)
        ensures
            match self@.params.semicolon() {
                Some(i) => r == Some(i as usize),
                None => r is None,
            },
    {
        match self.params {
            ParamSource::Utf8(i) => Some(i as usize),
            ParamSource::One(i, _) => Some(i as usize),
            ParamSource::Two(i, _, _) => Some(i as usize),
            ParamSource::Custom(i, _) => Some(i as usize),
            ParamSource::Empty => None,
        }
    }

    /// The end of the essence.
    fn semicolon_or_end(&self) -> (r: usize)
        ensures
            r == self@.end(),
    {
        proof {
            use_type_invariant(self);
        }
        match self.semicolon() {
            Some(i) => i,
            None => self.source.as_ref().as_bytes().len(),
        }
    }

    /// The identity of the table entry that the value names, or 0.
    pub fn private_atom(&self) -> (r: u8)
        ensures
            r == self@.atom,
    {
        self.atom()
    }

    fn atom(&self) -> (r: u8)
        ensures
            r == self@.atom,
    {
        match self.source {
            Source::Atom(a, _) => a,
            Source::Dynamic(_) => 0,
        }
    }

    /// Type, subtype and suffix, without the parameters.
    pub fn essence(&self) -> (r: &str)
        ensures
            r.spec_bytes() == self@.essence(),
    {
        proof {
            use_type_invariant(self);
        }
        text::slice(self.source.as_ref(), 0, self.semicolon_or_end())
    }

    /// A value from its parts, as a scan of its text would give them.
    pub fn private_from_proc_macro(
        source: Source,
        slash: u16,
        plus: Option<u16>,
        params: ParamSource,
    ) -> (r: Mime)
        requires
            (MimeView {
                atom: source.atom_id(),
                owned: source.is_owned(),
                bytes: source.bytes(),
                slash,
                plus,
                params: params@,
            }).wf(),
        ensures
            r@ == (MimeView {
                atom: source.atom_id(),
                owned: source.is_owned(),
                bytes: source.bytes(),
                slash,
                plus,
                params: params@,
            }),
    {
        Mime { source, slash, plus, params }
    }

    /// The whole text, as an owned string.
    pub fn to_string(&self) -> (r: String)
        ensures
            string_bytes(&r) == self@.bytes,
    {
        self.source.as_ref().to_owned()
    }
}

impl AsRef<str> for Mime {
    /// The whole text.
    fn as_ref(&self) -> (r: &str)
        ensures
            r.spec_bytes() == self@.bytes,
    {
        self.source.as_ref()
    }
}

/// The range of offsets that a pair of them stands for.
pub fn range(index: Indexed) -> (r: std::ops::Range<usize>)
    ensures
        r.start == index.0,
        r.end == index.1,
{
    index.0 as usize..index.1 as usize
}

/// A cursor over the parameters of a [`Mime`]: each call of `next` hands
/// out one name and value, in the order of the text.
#[derive(Debug)]
pub struct Params<'a> {
    source: &'a Source,
    params: &'a ParamSource,
    pos: usize,
}

impl<'a> View for Params<'a> {
    type V = Seq<(Seq<u8>, Seq<u8>)>;

    /// The parameters that are still to come.
    closed spec fn view(&self) -> Seq<(Seq<u8>, Seq<u8>)> {
        params_of(self.source.bytes(), self.params@).skip(self.pos as int)
    }
}

impl<'a> Params<'a> {
    #[verifier::type_invariant]
    closed spec fn inv(&self) -> bool {
        &&& self.pos <= self.params@.count()
        &&& exists|semi: int| pairs_ok(self.source.bytes(), semi, self.params@)
    }

    /// The next parameter, if one is left.
    pub fn next(&mut self) -> (r: Option<(&'a str, &'a str)>)
        ensures
            match r {
                Some((name, value)) => old(self)@.len() > 0 && (name.spec_bytes(), value.spec_bytes())
                    == old(self)@[0] && final(self)@ == old(self)@.drop_first(),
                None => old(self)@.len() == 0 && final(self)@ == old(self)@,
            },
    {
        proof {
            use_type_invariant(&*self);
        }
        let pos = self.pos;
        let pair = match self.params {
            ParamSource::Empty => {
                return None;
            },
            ParamSource::Utf8(_) => {
                if pos == 0 {
                    self.pos = 1;
                    assert(final(self)@ =~= old(self)@.drop_first());
                    return Some((constants::names::CHARSET, "utf-8"));
                }
                return None;
            },
            ParamSource::One(_, a) => {
                if pos >= 1 {
                    return None;
                }
                *a
            },
            ParamSource::Two(_, a, b) => {
                if pos >= 2 {
                    return None;
                }
                if pos == 0 {
                    *a
                } else {
                    *b
                }
            },
            ParamSource::Custom(_, v) => {
                if pos >= v.len() {
                    return None;
                }
                v[pos]
            },
        };
        assert(pair == self.params@.pairs()[pos as int]);
        let text = self.source.as_ref();
        let name = range(pair.0);
        let value = range(pair.1);
        let name = text::slice(text, name.start, name.end);
        let value = text::slice(text, value.start, value.end);
        self.pos = pos + 1;
        assert(final(self)@ =~= old(self)@.drop_first());
        Some((name, value))
    }

    /// The number of parameters that are still to come, as both bounds.
    pub fn size_hint(&self) -> (r: (usize, Option<usize>))
        ensures
            r.0 == self@.len(),
            r.1 == Some(r.0),
    {
        proof {
            use_type_invariant(self);
        }
        let n = match self.params {
            ParamSource::Empty => 0,
            ParamSource::Utf8(_) => 1,
            ParamSource::One(_, _) => 1,
            ParamSource::Two(_, _, _) => 2,
            ParamSource::Custom(_, v) => v.len(),
        };
        (n - self.pos, Some(n - self.pos))
    }
}

/// Parses media types, with or without ranges.
pub struct Parser {
    can_range: bool,
}

impl Parser {
    /// Whether the parser takes the subtype `*` and the text `*/*`.
    pub closed spec fn ranges(&self) -> bool {
        self.can_range
    }

    /// A parser for media ranges.
    pub fn can_range() -> (r: Self)
        ensures
            r.ranges(),
    {
        Parser { can_range: true }
    }

    /// A parser for exact media types.
    pub fn cannot_range() -> (r: Self)
        ensures
            !r.ranges(),
    {
        Parser { can_range: false }
    }

    /// Whether the parser takes the subtype `*` and the text `*/*`.
    pub fn allows_ranges(&self) -> (r: bool)
        ensures
            r == self.ranges(),
    {
        self.can_range
    }

    /// Parses a text: the value that the grammar gives for it, or the first
    /// error of a scan from left to right.
    pub fn parse<P: Parse>(&self, src: P) -> (r: Result<Mime, ParseError>)
        ensures
            parsed_as(r, grammar::parse_spec(src.text(), self.ranges())),
    {
        rfc7231::parse(self, src)
    }
}

/// A text that can be parsed: a `&str` or a `&String`.
pub trait Parse: Sealed {

}

impl<'a> Sealed for &'a str {
    open spec fn text(&self) -> Seq<u8> {
        self.spec_bytes()
    }

    fn as_str(&self) -> (r: &str) {
        *self
    }
}

impl<'a> Parse for &'a str {

}

impl<'a> Sealed for &'a String {
    open spec fn text(&self) -> Seq<u8> {
        string_bytes(*self)
    }

    fn as_str(&self) -> (r: &str) {
        String::as_str(*self)
    }
}

impl<'a> Parse for &'a String {

}

/// Whether a range lies in a text and can be cut out of it: both ends are
/// character boundaries.
pub open spec fn sliceable(b: Seq<u8>, r: Indexed) -> bool {
    r.0 <= r.1 <= b.len() && is_char_boundary(b, r.0 as int) && is_char_boundary(b, r.1 as int)
}

/// The ranges of scanned parameters can be cut out of the text.
pub proof fn lemma_pairs_sliceable(b: Seq<u8>, semi: int, pairs: Seq<IndexedPair>)
    requires
        valid_utf8(b),
        cut_ok(b, semi),
        forall|k: int| 0 <= k < pairs.len() ==> pair_ok(b, semi, #[trigger] pairs[k]),
    ensures
        is_char_boundary(b, semi),
        forall|k: int|
            0 <= k < pairs.len() ==> sliceable(b, (#[trigger] pairs[k]).0) && sliceable(
                b,
                pairs[k].1,
            ),
{
    lemma_cut_is_boundary(b, semi);
    assert forall|k: int| 0 <= k < pairs.len() implies sliceable(b, (#[trigger] pairs[k]).0)
        && sliceable(b, pairs[k].1) by {
        let p = pairs[k];
        assert(pair_ok(b, semi, p));
        lemma_cut_is_boundary(b, p.0.0 as int);
        lemma_cut_is_boundary(b, p.0.1 as int);
        lemma_cut_is_boundary(b, p.1.0 as int);
        lemma_cut_is_boundary(b, p.1.1 as int);
    }
}

/// A character boundary of a text is one of the text with some bytes
/// folded.
proof fn lemma_boundary_kept(s: Seq<u8>, t: Seq<u8>, p: int)
    requires
        valid_utf8(s),
        valid_utf8(t),
        t.len() == s.len(),
        0 <= p <= s.len(),
        0 < p < s.len() ==> t[p] == s[p] || t[p] == lower(s[p]),
        is_char_boundary(s, p),
    ensures
        is_char_boundary(t, p),
{
    if 0 < p < s.len() {
        is_char_boundary_iff_not_is_continuation_byte(s, p);
        is_char_boundary_iff_not_is_continuation_byte(t, p);
    } else {
        is_char_boundary_start_end_of_seq(t);
    }
}

/// A copy of the text in which the bytes before the offset `semi`, the
/// parameter names and the values of `charset` are folded to ASCII lower
/// case. The ranges need not be those of a scan: it is enough that the
/// names, and the values of `charset`, can be cut out of the text.
pub fn lower_ascii_with_params(s: &str, semi: usize, params: &[IndexedPair]) -> (r: String)
    requires
        semi <= s.spec_bytes().len(),
        is_char_boundary(s.spec_bytes(), semi as int),
        forall|k: int|
            0 <= k < params@.len() ==> sliceable(s.spec_bytes(), (#[trigger] params@[k]).0),
        forall|k: int|
            0 <= k < params@.len() && names_charset(s.spec_bytes(), #[trigger] params@[k])
                ==> sliceable(s.spec_bytes(), params@[k].1),
    ensures
        string_bytes(&r) == normalized(s.spec_bytes(), semi as int, params@),
{
    let ghost s0 = s.spec_bytes();
    let mut owned = s.to_owned();
    proof {
        encode_utf8_valid_utf8(s@);
        encode_utf8_valid_utf8(owned@);
        is_char_boundary_start_end_of_seq(s0);
        reveal_strlit("charset");
        lemma_ascii("charset");
    }
    make_ascii_lowercase_range(&mut owned, 0, semi);
    let mut k: usize = 0;
    while k < params.len()
        invariant
            k <= params@.len(),
            s0 == s.spec_bytes(),
            valid_utf8(s0),
            semi <= s0.len(),
            string_bytes(&owned).len() == s0.len(),
            forall|k: int| 0 <= k < params@.len() ==> sliceable(s0, (#[trigger] params@[k]).0),
            forall|k: int|
                0 <= k < params@.len() && names_charset(s0, #[trigger] params@[k]) ==> sliceable(
                    s0,
                    params@[k].1,
                ),
            forall|i: int|
                0 <= i < s0.len() ==> #[trigger] string_bytes(&owned)[i] == (if i < semi
                    || folded_by(s0, params@, k as int, i) {
                    lower(s0[i])
                } else {
                    s0[i]
                }),
            text::lower_seq(grammar::lit(CHARSET)) == grammar::lit(CHARSET),
        decreases params@.len() - k,
    {
        let (name, value) = params[k];
        let ghost b1 = string_bytes(&owned);
        proof {
            assert(sliceable(s0, params@[k as int].0));
            encode_utf8_valid_utf8(owned@);
            lemma_boundary_kept(s0, b1, name.0 as int);
            lemma_boundary_kept(s0, b1, name.1 as int);
        }
        make_ascii_lowercase_range(&mut owned, name.0 as usize, name.1 as usize);
        let ghost b2 = string_bytes(&owned);
        assert(b2.subrange(name.0 as int, name.1 as int) =~= text::lower_seq(
            s0.subrange(name.0 as int, name.1 as int),
        ));
        if range_eq(owned.as_str().as_bytes(), name.0 as usize, name.1 as usize, CHARSET) {
            proof {
                assert(names_charset(s0, params@[k as int]));
                encode_utf8_valid_utf8(owned@);
                lemma_boundary_kept(s0, b2, value.0 as int);
                lemma_boundary_kept(s0, b2, value.1 as int);
            }
            make_ascii_lowercase_range(&mut owned, value.0 as usize, value.1 as usize);
        }
        k += 1;
    }
    assert(string_bytes(&owned) =~= normalized(s0, semi as int, params@));
    owned
}

} // verus!
