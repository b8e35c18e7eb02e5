//! Request construction: path chains, query parameters, and the built
//! request itself.

pub mod endpoints;
pub mod parts;

use core::marker::PhantomData;

use vstd::prelude::*;
use vstd::string::*;
use vstd::utf8::{char_is_scalar, decode_utf8, encode_scalar, encode_utf8, is_scalar};

use crate::request::endpoints::{Endpoint, EndpointWithNoPara, EndpointWithParameters};
use crate::request::parts::{path_of, PathSegment, SegView};
use crate::{ConstServer, DynamicServer};

verus! {

/// Whether a Unicode scalar stands for a character that a query string
/// carries unchanged: `*`, `-`, `.`, `_`, digits, and ASCII letters.
pub open spec fn is_safe_scalar(u: u32) -> bool {
    ||| u == 42  // '*'
    ||| u == 45  // '-'
    ||| u == 46  // '.'
    ||| u == 95  // '_'
    ||| (48 <= u && u <= 57)  // '0' ..= '9'
    ||| (65 <= u && u <= 90)  // 'A' ..= 'Z'
    ||| (97 <= u && u <= 122)  // 'a' ..= 'z'
}

/// The upper-case hexadecimal digit for a value below 16.
pub open spec fn hex_upper(n: u8) -> char {
    if n == 0 { '0' } else if n == 1 { '1' } else if n == 2 { '2' } else if n == 3 { '3' }
    else if n == 4 { '4' } else if n == 5 { '5' } else if n == 6 { '6' } else if n == 7 { '7' }
    else if n == 8 { '8' } else if n == 9 { '9' } else if n == 10 { 'A' } else if n == 11 { 'B' }
    else if n == 12 { 'C' } else if n == 13 { 'D' } else if n == 14 { 'E' } else { 'F' }
}

/// One byte, percent-encoded: `%` and two upper-case hex digits.
pub open spec fn pct_byte(b: u8) -> Seq<char> {
    seq!['%', hex_upper(b / 16), hex_upper(b % 16)]
}

/// A run of bytes, each percent-encoded.
pub open spec fn pct_bytes(bs: Seq<u8>) -> Seq<char>
    decreases bs.len(),
{
    if bs.len() == 0 {
        Seq::empty()
    } else {
        pct_bytes(bs.drop_last()) + pct_byte(bs.last())
    }
}

/// One character as a query string carries it: unchanged when safe,
/// `+` for a space, else each of its UTF-8 bytes percent-encoded.
pub open spec fn enc_char(c: char) -> Seq<char> {
    if is_safe_scalar(c as u32) {
        seq![c]
    } else if c == ' ' {
        seq!['+']
    } else {
        pct_bytes(encode_scalar(c as u32))
    }
}

/// A string as a query string carries it.
pub open spec fn enc_str(s: Seq<char>) -> Seq<char>
    decreases s.len(),
{
    if s.len() == 0 {
        Seq::empty()
    } else {
        enc_str(s.drop_last()) + enc_char(s.last())
    }
}

/// One `key=value` item of a query string.
pub open spec fn enc_pair(kv: (Seq<char>, Seq<char>)) -> Seq<char> {
    enc_str(kv.0) + seq!['='] + enc_str(kv.1)
}

/// The items of a query string, joined by `&`.
pub open spec fn query_items(pairs: Seq<(Seq<char>, Seq<char>)>) -> Seq<char>
    decreases pairs.len(),
{
    if pairs.len() == 0 {
        Seq::empty()
    } else if pairs.len() == 1 {
        enc_pair(pairs[0])
    } else {
        query_items(pairs.drop_last()) + seq!['&'] + enc_pair(pairs.last())
    }
}

/// A whole query string: a leading `?`, then the items.
pub open spec fn query_of(pairs: Seq<(Seq<char>, Seq<char>)>) -> Seq<char> {
    seq!['?'] + query_items(pairs)
}

/// The views of a sequence of key-value pairs.
pub open spec fn pairs_view(ps: Seq<(String, String)>) -> Seq<(Seq<char>, Seq<char>)> {
    ps.map_values(|kv: (String, String)| (kv.0@, kv.1@))
}

/// The value of an upper-case hexadecimal digit.
pub open spec fn hex_val(c: char) -> u8 {
    if c == '0' { 0 } else if c == '1' { 1 } else if c == '2' { 2 } else if c == '3' { 3 }
    else if c == '4' { 4 } else if c == '5' { 5 } else if c == '6' { 6 } else if c == '7' { 7 }
    else if c == '8' { 8 } else if c == '9' { 9 } else if c == 'A' { 10 } else if c == 'B' { 11 }
    else if c == 'C' { 12 } else if c == 'D' { 13 } else if c == 'E' { 14 } else { 15 }
}

/// Well-formed percent usage: every `%` begins a full three-character
/// escape.  Every encoded string satisfies this.
pub open spec fn pct_wf(t: Seq<char>) -> bool {
    forall|p: int| 0 <= p < t.len() && t[p] == '%' ==> p + 3 <= t.len()
}

/// Percent-decoding of an encoded string, back to bytes: `%XX` to the
/// byte it names, `+` to a space, any other character to its own byte.
pub open spec fn dec_str(t: Seq<char>) -> Seq<u8>
    decreases t.len(),
{
    if t.len() == 0 {
        Seq::empty()
    } else if t.len() >= 3 && t[t.len() - 3] == '%' {
        dec_str(t.take(t.len() - 3)) + seq![
            ((hex_val(t[t.len() - 2]) * 16 + hex_val(t[t.len() - 1])) as u8),
        ]
    } else if t.last() == '+' {
        dec_str(t.drop_last()) + seq![32u8]
    } else {
        dec_str(t.drop_last()) + seq![((t.last() as u32) as u8)]
    }
}

/// The upper-case hexadecimal digit for a value below 16.
fn hex_upper_char(n: u8) -> (c: char)
    requires
        n < 16,
    ensures
        c == hex_upper(n),
{
    if n == 0 { '0' } else if n == 1 { '1' } else if n == 2 { '2' } else if n == 3 { '3' }
    else if n == 4 { '4' } else if n == 5 { '5' } else if n == 6 { '6' } else if n == 7 { '7' }
    else if n == 8 { '8' } else if n == 9 { '9' } else if n == 10 { 'A' } else if n == 11 { 'B' }
    else if n == 12 { 'C' } else if n == 13 { 'D' } else if n == 14 { 'E' } else { 'F' }
}

/// Appends one percent-encoded byte to `s`.
fn append_pct_byte(s: &mut String, b: u8)
    ensures
        final(s)@ == old(s)@ + pct_byte(b),
{
    s.push('%');
    s.push(hex_upper_char(b / 16));
    s.push(hex_upper_char(b % 16));
    proof {
        assert(s@ =~= old(s)@ + pct_byte(b));
    }
}

proof fn lemma_pct_bytes_push(bs: Seq<u8>, b: u8)
    ensures
        pct_bytes(bs.push(b)) == pct_bytes(bs) + pct_byte(b),
{
    assert(bs.push(b).drop_last() =~= bs);
    assert(bs.push(b).last() == b);
}

proof fn lemma_pct_bytes_small(bs: Seq<u8>)
    requires
        bs.len() <= 4,
    ensures
        bs.len() == 1 ==> pct_bytes(bs) == pct_byte(bs[0]),
        bs.len() == 2 ==> pct_bytes(bs) == pct_byte(bs[0]) + pct_byte(bs[1]),
        bs.len() == 3 ==> pct_bytes(bs) == pct_byte(bs[0]) + pct_byte(bs[1]) + pct_byte(bs[2]),
        bs.len() == 4 ==> pct_bytes(bs) == pct_byte(bs[0]) + pct_byte(bs[1]) + pct_byte(bs[2])
            + pct_byte(bs[3]),
    decreases bs.len(),
{
    if bs.len() > 0 {
        assert(bs == bs.drop_last().push(bs.last()));
        lemma_pct_bytes_push(bs.drop_last(), bs.last());
        lemma_pct_bytes_small(bs.drop_last());
    }
}

/// Appends the percent-encoded UTF-8 bytes of one scalar to `s`.
fn append_pct_scalar(s: &mut String, u: u32)
    requires
        is_scalar(u),
    ensures
        final(s)@ == old(s)@ + pct_bytes(encode_scalar(u)),
{
    proof {
        lemma_pct_bytes_small(encode_scalar(u));
    }
    if u <= 0x7F {
        let b0: u8 = (u & 0x7F) as u8;
        append_pct_byte(s, b0);
        proof {
            assert(encode_scalar(u) =~= seq![b0]);
            assert(s@ =~= old(s)@ + pct_bytes(encode_scalar(u)));
        }
    } else if u <= 0x7FF {
        let b0: u8 = 0xC0 | ((u >> 6) & 0x1F) as u8;
        let b1: u8 = 0x80 | (u & 0x3F) as u8;
        append_pct_byte(s, b0);
        append_pct_byte(s, b1);
        proof {
            assert(encode_scalar(u) =~= seq![b0, b1]);
            assert(s@ =~= old(s)@ + pct_bytes(encode_scalar(u)));
        }
    } else if u <= 0xFFFF {
        let b0: u8 = 0xE0 | ((u >> 12) & 0x0F) as u8;
        let b1: u8 = 0x80 | ((u >> 6) & 0x3F) as u8;
        let b2: u8 = 0x80 | (u & 0x3F) as u8;
        append_pct_byte(s, b0);
        append_pct_byte(s, b1);
        append_pct_byte(s, b2);
        proof {
            assert(encode_scalar(u) =~= seq![b0, b1, b2]);
            assert(s@ =~= old(s)@ + pct_bytes(encode_scalar(u)));
        }
    } else {
        let b0: u8 = 0xF0 | ((u >> 18) & 0x7) as u8;
        let b1: u8 = 0x80 | ((u >> 12) & 0x3F) as u8;
        let b2: u8 = 0x80 | ((u >> 6) & 0x3F) as u8;
        let b3: u8 = 0x80 | (u & 0x3F) as u8;
        append_pct_byte(s, b0);
        append_pct_byte(s, b1);
        append_pct_byte(s, b2);
        append_pct_byte(s, b3);
        proof {
            assert(encode_scalar(u) =~= seq![b0, b1, b2, b3]);
            assert(s@ =~= old(s)@ + pct_bytes(encode_scalar(u)));
        }
    }
}

/// Appends a string to `s` as a query string carries it.
fn append_encoded(s: &mut String, t: &str)
    ensures
        final(s)@ == old(s)@ + enc_str(t@),
{
    let ghost orig = s@;
    let n = t.unicode_len();
    let mut i: usize = 0;
    while i < n
        invariant
            i <= n,
            n == t@.len(),
            s@ == orig + enc_str(t@.take(i as int)),
        decreases n - i,
    {
        let c = t.get_char(i);
        let u = c as u32;
        if u == 42 || u == 45 || u == 46 || u == 95 || (48 <= u && u <= 57) || (65 <= u && u
            <= 90) || (97 <= u && u <= 122) {
            s.push(c);
        } else if u == 32 {
            s.push('+');
        } else {
            proof {
                char_is_scalar(c);
            }
            append_pct_scalar(s, u);
        }
        proof {
            assert(t@.take(i + 1 as int).drop_last() =~= t@.take(i as int));
            assert(t@.take(i + 1 as int).last() == c);
            assert(s@ =~= orig + enc_str(t@.take(i + 1 as int)));
        }
        i += 1;
    }
    proof {
        assert(t@.take(n as int) =~= t@);
    }
}

/// Appends a whole query string for the given pairs to `s`: a leading
/// `?`, then `key=value` items in the pairs' own order, joined by `&`.
pub fn append_query(s: &mut String, pairs: &Vec<(String, String)>)
    ensures
        final(s)@ == old(s)@ + query_of(pairs_view(pairs@)),
{
    let ghost orig = s@;
    s.push('?');
    let mut i: usize = 0;
    while i < pairs.len()
        invariant
            i <= pairs.len(),
            s@ == orig + seq!['?'] + query_items(pairs_view(pairs@).take(i as int)),
        decreases pairs.len() - i,
    {
        if i > 0 {
            s.push('&');
        }
        append_encoded(s, pairs[i].0.as_str());
        s.push('=');
        append_encoded(s, pairs[i].1.as_str());
        proof {
            let vs = pairs_view(pairs@);
            assert(vs.take(i + 1 as int).drop_last() =~= vs.take(i as int));
            assert(vs.take(i + 1 as int).last() == (pairs@[i as int].0@, pairs@[i as int].1@));
            assert(s@ =~= orig + seq!['?'] + query_items(vs.take(i + 1 as int)));
        }
        i += 1;
    }
    proof {
        assert(pairs_view(pairs@).take(pairs.len() as int) =~= pairs_view(pairs@));
        assert(s@ =~= orig + query_of(pairs_view(pairs@)));
    }
}

/// Marker for types that may stand in a path chain.
pub trait RequestPart {}

/// Marker for caller-supplied configuration objects that path segments
/// may draw values from.
pub trait RequestConfig {}

impl RequestConfig for () {

}

/// A path chain: a type that, given a configuration, yields its ordered
/// segment descriptors, root-most first.
pub trait SerialiseRequestPart<C: RequestConfig>: RequestPart {
    /// The chain's segments for a given configuration, as mathematical
    /// values.  Serialization is a pure function of this sequence.
    /// Every chain of the library overrides this; the default stands
    /// only so that unverified impls need not mention ghost items.
    open spec fn spec_parts(c: C) -> Seq<SegView> {
        Seq::empty()
    }

    /// The chain's segments for the given configuration, root-most first.
    fn parts(config: &C) -> (v: Vec<PathSegment>)
        ensures
            crate::request::parts::views_of(v@) == Self::spec_parts(*config),
    ;

    /// Appends the chain's serialized path to `s`.
    fn add_str(s: &mut String, config: &C)
        ensures
            final(s)@ == old(s)@ + crate::request::parts::path_of(Self::spec_parts(*config)),
    {
        let v = Self::parts(config);
        crate::request::parts::append_path(s, &v);
    }
}

/// A query parameter shape: a flat record of keys and already-rendered
/// values, in the shape's own field order.
pub trait QueryParameters {
    /// The key-value pairs as mathematical values.  Encoding is a pure
    /// function of this sequence.
    /// Every shape of the library overrides this; the default stands
    /// only so that unverified impls need not mention ghost items.
    open spec fn spec_pairs(&self) -> Seq<(Seq<char>, Seq<char>)> {
        Seq::empty()
    }

    /// The key-value pairs, in field order.
    fn pairs(&self) -> (v: Vec<(String, String)>)
        ensures
            pairs_view(v@) == self.spec_pairs(),
    ;

    /// Appends this shape's whole query string to `s`.
    fn add_str(&self, s: &mut String)
        ensures
            final(s)@ == old(s)@ + query_of(self.spec_pairs()),
    {
        let v = self.pairs();
        append_query(s, &v);
    }
}

/// A built request: the fully composed URI, and the offset (in
/// characters) marking the end of its path portion.  Only the query
/// portion may change after the initial build.
pub struct ApiRequest<P> {
    uri: String,
    uri_len: usize,
    inner: PhantomData<P>,
}

impl<E> ApiRequest<E> {
    /// Well-formedness: the stored path end lies within the URI.
    pub closed spec fn wf(&self) -> bool {
        self.uri_len <= self.uri@.len()
    }

    /// The composed URI.
    pub closed spec fn spec_uri(&self) -> Seq<char> {
        self.uri@
    }

    /// The path portion of the URI: everything before the query.
    pub closed spec fn path_part(&self) -> Seq<char> {
        self.uri@.take(self.uri_len as int)
    }

    fn new_inner<C: RequestConfig>(c: &C, root: &str) -> (r: Self) where
        E: SerialiseRequestPart<C>,

        ensures
            r.wf(),
            r.spec_uri() == root@ + path_of(E::spec_parts(*c)),
            r.path_part() == r.spec_uri(),
    {
        let mut uri = root.to_owned();
        E::add_str(&mut uri, c);
        let uri_len = uri.as_str().unicode_len();
        let r = Self { uri, uri_len, inner: PhantomData };
        proof {
            assert(r.path_part() =~= r.spec_uri());
        }
        r
    }

    /// The composed URI; never mutates.
    pub fn uri(&self) -> (r: &str)
        ensures
            r@ == self.spec_uri(),
    {
        self.uri.as_str()
    }

    /// Replaces the query portion: the URI is truncated to the stored
    /// path end, and a freshly encoded query string for `p` is appended.
    /// The path portion is untouched, and the result depends only on it
    /// and on `p`, however often parameters were replaced before.
    pub fn change_para(&mut self, p: E::P) where E: EndpointWithParameters,
        requires
            old(self).wf(),
        ensures
            final(self).wf(),
            final(self).path_part() == old(self).path_part(),
            final(self).spec_uri() == old(self).path_part() + query_of(p.spec_pairs()),
    {
        let mut uri = self.uri.as_str().substring_char(0, self.uri_len).to_owned();
        p.add_str(&mut uri);
        self.uri = uri;
        proof {
            assert(old(self).uri@.subrange(0, old(self).uri_len as int) =~= old(self).path_part());
            assert(self.path_part() =~= old(self).path_part());
        }
    }
}

impl<E: Endpoint> ApiRequest<E> where E::Ser: ConstServer {
    /// Builds a parameter-less request against the constant server root.
    pub fn new<C: RequestConfig>(c: &C) -> (r: Self) where
        E: EndpointWithNoPara + SerialiseRequestPart<C>,

        ensures
            r.wf(),
            r.spec_uri() == <E::Ser as ConstServer>::spec_root() + path_of(E::spec_parts(*c)),
            r.path_part() == r.spec_uri(),
    {
        Self::new_inner(c, E::Ser::root())
    }

    /// Builds a parameterised request against the constant server root:
    /// the serialized path, then the query string for `p`.
    pub fn new_with_para<C>(c: &C, p: E::P) -> (r: Self) where
        C: RequestConfig,
        E: EndpointWithParameters + SerialiseRequestPart<C>,

        ensures
            r.wf(),
            r.path_part() == <E::Ser as ConstServer>::spec_root() + path_of(E::spec_parts(*c)),
            r.spec_uri() == r.path_part() + query_of(p.spec_pairs()),
    {
        let mut s = Self::new_inner(c, E::Ser::root());
        p.add_str(&mut s.uri);
        proof {
            assert(s.path_part() =~= s.uri@.take(s.uri_len as int));
            assert(s.path_part() =~= <E::Ser as ConstServer>::spec_root() + path_of(
                E::spec_parts(*c),
            ));
        }
        s
    }
}

impl<E: Endpoint> ApiRequest<E> where E::Ser: DynamicServer {
    /// Builds a parameter-less request against a runtime server root.
    pub fn new_with_server<C: RequestConfig>(c: &C, s: &E::Ser) -> (r: Self) where
        E: EndpointWithNoPara + SerialiseRequestPart<C>,

        ensures
            r.wf(),
            r.spec_uri() == s.spec_root() + path_of(E::spec_parts(*c)),
            r.path_part() == r.spec_uri(),
    {
        Self::new_inner(c, s.get_root())
    }

    /// Builds a parameterised request against a runtime server root.
    pub fn new_with_para_server<C>(c: &C, p: E::P, s: &E::Ser) -> (r: Self) where
        C: RequestConfig,
        E: EndpointWithParameters + SerialiseRequestPart<C>,

        ensures
            r.wf(),
            r.path_part() == s.spec_root() + path_of(E::spec_parts(*c)),
            r.spec_uri() == r.path_part() + query_of(p.spec_pairs()),
    {
        let mut b = Self::new_inner(c, s.get_root());
        p.add_str(&mut b.uri);
        proof {
            assert(b.path_part() =~= b.uri@.take(b.uri_len as int));
            assert(b.path_part() =~= s.spec_root() + path_of(E::spec_parts(*c)));
        }
        b
    }
}

/// Serialization is deterministic: the URI of a built request is a pure
/// function of the server root, the chain's segments, and the query
/// pairs (if any); two builds from equal inputs yield byte-identical
/// URIs with the same path portion and path-end offset.
pub proof fn lemma_build_deterministic<P>(
    a: ApiRequest<P>,
    b: ApiRequest<P>,
    root: Seq<char>,
    segs: Seq<SegView>,
    pairs: Option<Seq<(Seq<char>, Seq<char>)>>,
)
    requires
        a.path_part() == root + path_of(segs),
        b.path_part() == root + path_of(segs),
        a.spec_uri() == (match pairs {
            Some(q) => a.path_part() + query_of(q),
            None => a.path_part(),
        }),
        b.spec_uri() == (match pairs {
            Some(q) => b.path_part() + query_of(q),
            None => b.path_part(),
        }),
    ensures
        a.spec_uri() == b.spec_uri(),
        a.path_part() == b.path_part(),
{
}

/// Replacing parameters after a parameterised build yields the same URI
/// as a fresh parameterised build with the replacement parameters, for
/// every parameter value and however many replacements came before.
pub proof fn lemma_replace_equals_fresh<P>(
    built: ApiRequest<P>,
    replaced: ApiRequest<P>,
    fresh: ApiRequest<P>,
    path: Seq<char>,
    q1: Seq<(Seq<char>, Seq<char>)>,
)
    requires
        built.path_part() == path,
        replaced.path_part() == built.path_part(),
        replaced.spec_uri() == built.path_part() + query_of(q1),
        fresh.path_part() == path,
        fresh.spec_uri() == fresh.path_part() + query_of(q1),
    ensures
        replaced.spec_uri() == fresh.spec_uri(),
{
}

proof fn lemma_dec_append_pct_byte(a: Seq<char>, b: u8)
    requires
        pct_wf(a),
    ensures
        dec_str(a + pct_byte(b)) == dec_str(a) + seq![b],
        pct_wf(a + pct_byte(b)),
{
    let t = a + pct_byte(b);
    assert(t[t.len() - 3] == '%');
    assert(t.take(t.len() - 3) =~= a);
    assert(hex_val(hex_upper(b / 16)) == b / 16);
    assert(hex_val(hex_upper(b % 16)) == b % 16);
    assert((b / 16) * 16 + b % 16 == b) by (nonlinear_arith);
    assert(dec_str(t) =~= dec_str(a) + seq![b]);
    assert(hex_upper(b / 16) != '%');
    assert(hex_upper(b % 16) != '%');
    assert forall|p: int| 0 <= p < t.len() && t[p] == '%' implies p + 3 <= t.len() by {
        if p > a.len() {
            assert(t[p] != '%');
        }
    }
}

proof fn lemma_dec_append_pct_bytes(a: Seq<char>, bs: Seq<u8>)
    requires
        pct_wf(a),
    ensures
        dec_str(a + pct_bytes(bs)) == dec_str(a) + bs,
        pct_wf(a + pct_bytes(bs)),
    decreases bs.len(),
{
    if bs.len() == 0 {
        assert(a + pct_bytes(bs) =~= a);
        assert(dec_str(a) + bs =~= dec_str(a));
    } else {
        lemma_dec_append_pct_bytes(a, bs.drop_last());
        lemma_dec_append_pct_byte(a + pct_bytes(bs.drop_last()), bs.last());
        assert(a + pct_bytes(bs) =~= (a + pct_bytes(bs.drop_last())) + pct_byte(bs.last()));
        assert(dec_str(a) + bs =~= (dec_str(a) + bs.drop_last()) + seq![bs.last()]);
    }
}

proof fn lemma_dec_append_char(a: Seq<char>, c: char)
    requires
        pct_wf(a),
    ensures
        dec_str(a + enc_char(c)) == dec_str(a) + encode_scalar(c as u32),
        pct_wf(a + enc_char(c)),
{
    let u = c as u32;
    char_is_scalar(c);
    if is_safe_scalar(u) || c == ' ' {
        assert(u <= 0x7F);
        assert(u & 0x7F == u) by (bit_vector)
            requires
                u <= 0x7F,
        ;
        assert(encode_scalar(u) =~= seq![(u as u8)]);
        let t = a + enc_char(c);
        // no escape can end here: a `%` two places before the end of
        // `a` would have no room for its own escape
        if t.len() >= 3 && t[t.len() - 3] == '%' {
            assert(a[a.len() - 2] == '%');
            assert(false);
        }
        if is_safe_scalar(u) {
            assert('+' as u32 == 43);
            assert('%' as u32 == 37);
            assert(t.drop_last() =~= a);
            assert(dec_str(t) =~= dec_str(a) + seq![(u as u8)]);
        } else {
            assert(t.last() == '+');
            assert(u == 32);
            assert(t.drop_last() =~= a);
            assert(dec_str(t) =~= dec_str(a) + seq![32u8]);
        }
        assert forall|p: int| 0 <= p < t.len() && t[p] == '%' implies p + 3 <= t.len() by {
            if p == a.len() {
                assert(t[p] != '%');
            }
        }
    } else {
        lemma_dec_append_pct_bytes(a, encode_scalar(u));
    }
}

proof fn lemma_encode_utf8_append(s: Seq<char>, c: char)
    ensures
        encode_utf8(s.push(c)) == encode_utf8(s) + encode_scalar(c as u32),
    decreases s.len(),
{
    if s.len() == 0 {
        assert(s.push(c)[0] == c);
        assert(s.push(c).drop_first() =~= Seq::<char>::empty());
        assert(encode_utf8(Seq::<char>::empty()) =~= Seq::<u8>::empty());
        assert(encode_utf8(s.push(c)) =~= encode_utf8(s) + encode_scalar(c as u32));
    } else {
        assert(s.push(c)[0] == s[0]);
        assert(s.push(c).drop_first() =~= s.drop_first().push(c));
        lemma_encode_utf8_append(s.drop_first(), c);
        assert(encode_utf8(s.push(c)) =~= encode_utf8(s) + encode_scalar(c as u32));
    }
}

/// The encoding is reversible: percent-decoding an encoded string
/// yields the UTF-8 bytes of the original text, and decoding those
/// bytes yields the original text itself.
pub proof fn lemma_encoding_reversible(s: Seq<char>)
    ensures
        pct_wf(enc_str(s)),
        dec_str(enc_str(s)) == encode_utf8(s),
        decode_utf8(dec_str(enc_str(s))) == s,
    decreases s.len(),
{
    vstd::utf8::encode_utf8_decode_utf8(s);
    if s.len() == 0 {
        assert(enc_str(s) =~= Seq::<char>::empty());
        assert(dec_str(enc_str(s)) =~= Seq::<u8>::empty());
        assert(encode_utf8(s) =~= Seq::<u8>::empty());
    } else {
        lemma_encoding_reversible(s.drop_last());
        lemma_dec_append_char(enc_str(s.drop_last()), s.last());
        assert(s.drop_last().push(s.last()) =~= s);
        lemma_encode_utf8_append(s.drop_last(), s.last());
        assert(dec_str(enc_str(s)) == encode_utf8(s));
    }
}

proof fn lemma_hex_not_separator(n: u8)
    requires
        n < 16,
    ensures
        hex_upper(n) != '?' && hex_upper(n) != '&' && hex_upper(n) != '=',
{
}

proof fn lemma_pct_bytes_separator_free(bs: Seq<u8>, i: int)
    requires
        0 <= i < pct_bytes(bs).len(),
    ensures
        pct_bytes(bs)[i] != '?' && pct_bytes(bs)[i] != '&' && pct_bytes(bs)[i] != '=',
    decreases bs.len(),
{
    if bs.len() > 0 {
        let pre = pct_bytes(bs.drop_last());
        if i < pre.len() {
            lemma_pct_bytes_separator_free(bs.drop_last(), i);
        } else {
            lemma_hex_not_separator(bs.last() / 16);
            lemma_hex_not_separator(bs.last() % 16);
        }
    }
}

/// An encoded string never contains the query structure characters
/// `?`, `&` or `=`: in a whole query string they occur only as the
/// leading `?` and the separators the encoder itself writes, so the
/// split points are unambiguous.
pub proof fn lemma_enc_str_separator_free(s: Seq<char>, i: int)
    requires
        0 <= i < enc_str(s).len(),
    ensures
        enc_str(s)[i] != '?' && enc_str(s)[i] != '&' && enc_str(s)[i] != '=',
    decreases s.len(),
{
    if s.len() > 0 {
        let pre = enc_str(s.drop_last());
        if i < pre.len() {
            lemma_enc_str_separator_free(s.drop_last(), i);
        } else {
            let c = s.last();
            let u = c as u32;
            if is_safe_scalar(u) {
                assert('?' as u32 == 63 && '&' as u32 == 38 && '=' as u32 == 61);
            } else if c == ' ' {
            } else {
                char_is_scalar(c);
                lemma_pct_bytes_separator_free(encode_scalar(u), i - pre.len());
            }
        }
    }
}

/// One `key=value` item of a query string decodes back to its pair:
/// the `=` the encoder writes is the only one in the item, the item
/// holds no `&` at all, and percent-decoding the two sides recovers
/// the key, respectively the value.  With the shape of [`query_of`]
/// this is exactly the splitting a reader performs: items between the
/// `&`s, key and value around the one `=`.
pub proof fn lemma_pair_recoverable(k: Seq<char>, v: Seq<char>)
    ensures
        enc_pair((k, v)).len() == enc_str(k).len() + 1 + enc_str(v).len(),
        enc_pair((k, v))[enc_str(k).len() as int] == '=',
        forall|i: int|
            0 <= i < enc_pair((k, v)).len() && i != enc_str(k).len() as int
                ==> #[trigger] enc_pair((k, v))[i] != '=',
        forall|i: int| 0 <= i < enc_pair((k, v)).len() ==> #[trigger] enc_pair((k, v))[i] != '&',
        decode_utf8(dec_str(enc_pair((k, v)).take(enc_str(k).len() as int))) == k,
        decode_utf8(dec_str(enc_pair((k, v)).skip(enc_str(k).len() as int + 1))) == v,
{
    lemma_encoding_reversible(k);
    lemma_encoding_reversible(v);
    let item = enc_pair((k, v));
    let mid = enc_str(k).len() as int;
    assert(item.take(mid) =~= enc_str(k));
    assert(item.skip(mid + 1) =~= enc_str(v));
    assert forall|i: int| 0 <= i < item.len() && i != mid implies #[trigger] item[i] != '=' by {
        if i < mid {
            lemma_enc_str_separator_free(k, i);
        } else {
            lemma_enc_str_separator_free(v, i - mid - 1);
        }
    }
    assert forall|i: int| 0 <= i < item.len() implies #[trigger] item[i] != '&' by {
        if i < mid {
            lemma_enc_str_separator_free(k, i);
        } else if i > mid {
            lemma_enc_str_separator_free(v, i - mid - 1);
        }
    }
}

} // verus!
