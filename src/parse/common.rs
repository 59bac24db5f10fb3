//! Composite layouts: length-prefixed text and sequences, pairs, and the
//! two-field duration.
use vstd::prelude::*;
use vstd::slice::{slice_subrange, slice_to_vec};
use vstd::string::StringSliceAdditionalSpecFns;
use vstd::utf8::{decode_utf8, encode_utf8, encode_utf8_decode_utf8, encode_utf8_valid_utf8, valid_utf8};

use super::{
    be_encode, bytes_of, join, spec_join, lemma_be_round_trip, lemma_pow256_widths, read_be, spec_read, write_be,
    Parse, ParseLaws, ParserError,
};

verus! {

/// The largest length or element count a 16-bit prefix can carry.
pub const MAX_LEN: usize = 65535;

// ---------------------------------------------------------------- text

/// Text: its UTF-8 byte length as two bytes, then those bytes.
pub open spec fn text_serialise(chars: Seq<char>) -> Result<Seq<u8>, ParserError> {
    let b = encode_utf8(chars);
    if b.len() > MAX_LEN {
        Err(ParserError::TooLarge(b.len() as usize))
    } else {
        Ok(be_encode(b.len(), 2) + b)
    }
}

pub open spec fn text_deserialise(input: Seq<u8>) -> Result<(Seq<char>, Seq<u8>), ParserError> {
    match spec_read(input, 2) {
        Err(e) => Err(e),
        Ok((n, rest)) => if rest.len() < n {
            Err(ParserError::Incomplete((n - rest.len()) as usize))
        } else if !valid_utf8(rest.take(n as int)) {
            Err(ParserError::InvalidUtf8)
        } else {
            Ok((decode_utf8(rest.take(n as int)), rest.skip(n as int)))
        },
    }
}

/// Relies on core::str::from_utf8: it succeeds exactly on valid UTF-8, and the
/// text it returns has the input as its bytes.
#[verifier::external_body]
fn utf8_text(bytes: &[u8]) -> (r: Option<&str>)
    ensures
        r is Some <==> valid_utf8(bytes@),
        r matches Some(s) ==> s.spec_bytes() == bytes@,
{
    core::str::from_utf8(bytes).ok()
}

fn serialise_text(s: &str) -> (r: Result<Vec<u8>, ParserError>)
    ensures
        bytes_of(r) == text_serialise(s@),
{
    let bytes = s.as_bytes();
    let len = bytes.len();
    if len > MAX_LEN {
        return Err(ParserError::TooLarge(len));
    }
    proof {
        lemma_pow256_widths();
    }
    let mut out = Vec::new();
    write_be(len as u128, 2, &mut out);
    let mut body = slice_to_vec(bytes);
    out.append(&mut body);
    Ok(out)
}

proof fn lemma_text_round_trip(chars: Seq<char>, rest: Seq<u8>)
    requires
        text_serialise(chars) is Ok,
    ensures
        text_serialise(chars)->Ok_0.len() > 0,
        text_deserialise(text_serialise(chars)->Ok_0 + rest) == Ok::<
            (Seq<char>, Seq<u8>),
            ParserError,
        >((chars, rest)),
{
    broadcast use encode_utf8_valid_utf8, encode_utf8_decode_utf8;

    let b = encode_utf8(chars);
    lemma_pow256_widths();
    lemma_be_round_trip(b.len(), 2, b + rest);
    assert(be_encode(b.len(), 2) + b + rest =~= be_encode(b.len(), 2) + (b + rest));
    assert((b + rest).take(b.len() as int) =~= b);
    assert((b + rest).skip(b.len() as int) =~= rest);
}

proof fn lemma_text_truncated(chars: Seq<char>)
    requires
        text_serialise(chars) is Ok,
    ensures
        text_deserialise(text_serialise(chars)->Ok_0.drop_last()) == Err::<
            (Seq<char>, Seq<u8>),
            ParserError,
        >(ParserError::Incomplete(1)),
{
    let b = encode_utf8(chars);
    lemma_pow256_widths();
    let p = be_encode(b.len(), 2);
    if b.len() == 0 {
        lemma_be_round_trip(b.len(), 2, Seq::empty());
        assert((p + b).drop_last().len() == 1);
    } else {
        lemma_be_round_trip(b.len(), 2, b.drop_last());
        assert((p + b).drop_last() =~= p + b.drop_last());
    }
}

impl Parse for String {
    type V = Seq<char>;

    open spec fn model(&self) -> Seq<char> {
        self@
    }

    open spec fn spec_serialise(v: Seq<char>) -> Result<Seq<u8>, ParserError> {
        text_serialise(v)
    }

    open spec fn spec_deserialise(input: Seq<u8>) -> Result<(Seq<char>, Seq<u8>), ParserError> {
        text_deserialise(input)
    }

    fn serialise(&self) -> (r: Result<Vec<u8>, ParserError>) {
        serialise_text(self.as_str())
    }

    fn deserialise<'a>(input: &'a [u8]) -> (r: Result<(&'a [u8], String), ParserError>) {
        broadcast use encode_utf8_decode_utf8;

        proof {
            lemma_pow256_widths();
        }
        let (n, rest) = match read_be(input, 2) {
            Ok(p) => p,
            Err(e) => return Err(e),
        };
        let n = n as usize;
        if rest.len() < n {
            return Err(ParserError::Incomplete(n - rest.len()));
        }
        let body = slice_subrange(rest, 0, n);
        let after = slice_subrange(rest, n, rest.len());
        assert(body@ =~= rest@.take(n as int));
        assert(after@ =~= rest@.skip(n as int));
        match utf8_text(body) {
            None => Err(ParserError::InvalidUtf8),
            Some(t) => Ok((after, t.to_owned())),
        }
    }
}

impl ParseLaws for String {
    proof fn lemma_consumes(input: Seq<u8>) {
    }


    proof fn lemma_round_trip(v: Seq<char>, rest: Seq<u8>) {
        lemma_text_round_trip(v, rest);
    }

    proof fn lemma_truncated(v: Seq<char>) {
        lemma_text_truncated(v);
    }
}

/// A borrowed text encodes as its owned form does; decoding into it always
/// fails, since nothing owns bytes for it to borrow.
impl<'b> Parse for &'b str {
    type V = Seq<char>;

    open spec fn model(&self) -> Seq<char> {
        self@
    }

    open spec fn spec_serialise(v: Seq<char>) -> Result<Seq<u8>, ParserError> {
        text_serialise(v)
    }

    open spec fn spec_deserialise(input: Seq<u8>) -> Result<(Seq<char>, Seq<u8>), ParserError> {
        Err(ParserError::DeserialiseOnBorrowedType)
    }

    fn serialise(&self) -> (r: Result<Vec<u8>, ParserError>) {
        serialise_text(*self)
    }

    fn deserialise<'a>(input: &'a [u8]) -> (r: Result<(&'a [u8], &'b str), ParserError>) {
        Err(ParserError::DeserialiseOnBorrowedType)
    }
}

// ---------------------------------------------------------------- sequences

/// The models of a slice's items.
pub open spec fn models<T: Parse>(items: Seq<T>) -> Seq<T::V> {
    items.map_values(|x: T| x.model())
}

/// The items' encodings concatenated in order; the first failure wins.
pub open spec fn items_serialise<T: Parse>(s: Seq<T::V>) -> Result<Seq<u8>, ParserError>
    decreases s.len(),
{
    if s.len() == 0 {
        Ok(Seq::empty())
    } else {
        match items_serialise::<T>(s.drop_last()) {
            Err(e) => Err(e),
            Ok(b) => match T::spec_serialise(s.last()) {
                Err(e) => Err(e),
                Ok(c) => Ok(b + c),
            },
        }
    }
}

/// A sequence: its element count as two bytes, then each element.
pub open spec fn seq_serialise<T: Parse>(s: Seq<T::V>) -> Result<Seq<u8>, ParserError> {
    if s.len() > MAX_LEN {
        Err(ParserError::TooLarge(s.len() as usize))
    } else {
        match items_serialise::<T>(s) {
            Err(e) => Err(e),
            Ok(b) => Ok(be_encode(s.len(), 2) + b),
        }
    }
}

/// Decoding `n` elements one after another from the front of `input`.
pub open spec fn items_deserialise<T: Parse>(n: nat, input: Seq<u8>) -> Result<
    (Seq<T::V>, Seq<u8>),
    ParserError,
>
    decreases n,
{
    if n == 0 {
        Ok((Seq::empty(), input))
    } else {
        match items_deserialise::<T>((n - 1) as nat, input) {
            Err(e) => Err(e),
            Ok((vs, rest)) => match T::spec_deserialise(rest) {
                Err(e) => Err(e),
                Ok((v, after)) => Ok((vs.push(v), after)),
            },
        }
    }
}

pub open spec fn seq_deserialise<T: Parse>(input: Seq<u8>) -> Result<
    (Seq<T::V>, Seq<u8>),
    ParserError,
> {
    match spec_read(input, 2) {
        Err(e) => Err(e),
        Ok((n, rest)) => items_deserialise::<T>(n, rest),
    }
}

proof fn lemma_items_serialise_err<T: Parse>(s: Seq<T::V>, k: int, e: ParserError)
    requires
        0 <= k <= s.len(),
        items_serialise::<T>(s.take(k)) == Err::<Seq<u8>, ParserError>(e),
    ensures
        items_serialise::<T>(s) == Err::<Seq<u8>, ParserError>(e),
    decreases s.len() - k,
{
    if k < s.len() {
        assert(s.take(k + 1).drop_last() =~= s.take(k));
        lemma_items_serialise_err::<T>(s, k + 1, e);
    } else {
        assert(s.take(k) =~= s);
    }
}

proof fn lemma_items_deserialise_err<T: Parse>(k: nat, n: nat, input: Seq<u8>, e: ParserError)
    requires
        k <= n,
        items_deserialise::<T>(k, input) == Err::<(Seq<T::V>, Seq<u8>), ParserError>(e),
    ensures
        items_deserialise::<T>(n, input) == Err::<(Seq<T::V>, Seq<u8>), ParserError>(e),
    decreases n,
{
    if k < n {
        lemma_items_deserialise_err::<T>(k, (n - 1) as nat, input, e);
    }
}

/// The items' encodings split after the first item.
pub proof fn lemma_items_serialise_front<T: Parse>(s: Seq<T::V>)
    requires
        s.len() > 0,
        items_serialise::<T>(s) is Ok,
    ensures
        T::spec_serialise(s[0]) is Ok,
        items_serialise::<T>(s.drop_first()) is Ok,
        items_serialise::<T>(s)->Ok_0 == T::spec_serialise(s[0])->Ok_0 + items_serialise::<T>(
            s.drop_first(),
        )->Ok_0,
    decreases s.len(),
{
    if s.len() == 1 {
        assert(s.drop_last() =~= Seq::<T::V>::empty());
        assert(s.drop_first() =~= Seq::<T::V>::empty());
        let c = T::spec_serialise(s[0])->Ok_0;
        assert(Seq::<u8>::empty() + c =~= c + Seq::<u8>::empty());
    } else {
        let d = s.drop_last();
        lemma_items_serialise_front::<T>(d);
        assert(s.drop_first().drop_last() =~= d.drop_first());
        assert(s.drop_first().last() == s.last());
        assert(d[0] == s[0]);
        let c0 = T::spec_serialise(s[0])->Ok_0;
        let m = items_serialise::<T>(d.drop_first())->Ok_0;
        let l = T::spec_serialise(s.last())->Ok_0;
        assert(c0 + m + l =~= c0 + (m + l));
    }
}

proof fn lemma_items_consume<T: ParseLaws>(n: nat, input: Seq<u8>)
    ensures
        items_deserialise::<T>(n, input) matches Ok((_, rest)) ==> rest.len() <= input.len(),
    decreases n,
{
    if n > 0 {
        lemma_items_consume::<T>((n - 1) as nat, input);
        if let Ok((_, rest)) = items_deserialise::<T>((n - 1) as nat, input) {
            T::lemma_consumes(rest);
        }
    }
}

proof fn lemma_items_round_trip<T: ParseLaws>(s: Seq<T::V>, rest: Seq<u8>)
    requires
        items_serialise::<T>(s) is Ok,
    ensures
        s.len() > 0 ==> items_serialise::<T>(s)->Ok_0.len() > 0,
        items_deserialise::<T>(s.len(), items_serialise::<T>(s)->Ok_0 + rest) == Ok::<
            (Seq<T::V>, Seq<u8>),
            ParserError,
        >((s, rest)),
    decreases s.len(),
{
    if s.len() > 0 {
        let b = items_serialise::<T>(s.drop_last())->Ok_0;
        let c = T::spec_serialise(s.last())->Ok_0;
        lemma_items_round_trip::<T>(s.drop_last(), c + rest);
        T::lemma_round_trip(s.last(), rest);
        assert(b + c + rest =~= b + (c + rest));
        assert(s.drop_last().push(s.last()) =~= s);
        assert(items_serialise::<T>(s)->Ok_0 == b + c);
        assert(items_deserialise::<T>(s.drop_last().len(), b + (c + rest)) == Ok::<
            (Seq<T::V>, Seq<u8>),
            ParserError,
        >((s.drop_last(), c + rest)));
        assert(s.drop_last().len() == (s.len() - 1) as nat);
    } else {
        assert(s =~= Seq::<T::V>::empty());
        assert(Seq::<u8>::empty() + rest =~= rest);
    }
}

proof fn lemma_items_truncated<T: ParseLaws>(s: Seq<T::V>)
    requires
        items_serialise::<T>(s) is Ok,
        s.len() > 0,
    ensures
        items_deserialise::<T>(s.len(), items_serialise::<T>(s)->Ok_0.drop_last()) == Err::<
            (Seq<T::V>, Seq<u8>),
            ParserError,
        >(ParserError::Incomplete(1)),
{
    let b = items_serialise::<T>(s.drop_last())->Ok_0;
    let c = T::spec_serialise(s.last())->Ok_0;
    T::lemma_round_trip(s.last(), Seq::empty());
    T::lemma_truncated(s.last());
    lemma_items_round_trip::<T>(s.drop_last(), c.drop_last());
    assert((b + c).drop_last() =~= b + c.drop_last());
}

proof fn lemma_seq_round_trip<T: ParseLaws>(s: Seq<T::V>, rest: Seq<u8>)
    requires
        seq_serialise::<T>(s) is Ok,
    ensures
        seq_serialise::<T>(s)->Ok_0.len() > 0,
        seq_deserialise::<T>(seq_serialise::<T>(s)->Ok_0 + rest) == Ok::<
            (Seq<T::V>, Seq<u8>),
            ParserError,
        >((s, rest)),
{
    let b = items_serialise::<T>(s)->Ok_0;
    let p = be_encode(s.len(), 2);
    lemma_pow256_widths();
    lemma_be_round_trip(s.len(), 2, b + rest);
    lemma_items_round_trip::<T>(s, rest);
    assert(p + b + rest =~= p + (b + rest));
}

proof fn lemma_seq_truncated<T: ParseLaws>(s: Seq<T::V>)
    requires
        seq_serialise::<T>(s) is Ok,
    ensures
        seq_deserialise::<T>(seq_serialise::<T>(s)->Ok_0.drop_last()) == Err::<
            (Seq<T::V>, Seq<u8>),
            ParserError,
        >(ParserError::Incomplete(1)),
{
    let b = items_serialise::<T>(s)->Ok_0;
    let p = be_encode(s.len(), 2);
    lemma_pow256_widths();
    if s.len() == 0 {
        lemma_be_round_trip(s.len(), 2, Seq::empty());
        assert((p + b).drop_last().len() == 1);
    } else {
        lemma_items_round_trip::<T>(s, Seq::empty());
        lemma_be_round_trip(s.len(), 2, b.drop_last());
        lemma_items_truncated::<T>(s);
        assert((p + b).drop_last() =~= p + b.drop_last());
    }
}

fn serialise_items<T: Parse>(items: &[T]) -> (r: Result<Vec<u8>, ParserError>)
    ensures
        bytes_of(r) == seq_serialise::<T>(models(items@)),
{
    let len = items.len();
    if len > MAX_LEN {
        return Err(ParserError::TooLarge(len));
    }
    let ghost ms = models(items@);
    let mut body: Vec<u8> = Vec::new();
    let mut i: usize = 0;
    assert(ms.take(0) =~= Seq::<T::V>::empty());
    while i < len
        invariant
            len == items@.len() == ms.len(),
            len <= MAX_LEN,
            ms == models(items@),
            i <= len,
            items_serialise::<T>(ms.take(i as int)) == Ok::<Seq<u8>, ParserError>(body@),
        decreases len - i,
    {
        assert(ms.take(i + 1).drop_last() =~= ms.take(i as int));
        assert(ms.take(i + 1).last() == items@[i as int].model());
        match items[i].serialise() {
            Err(e) => {
                proof {
                    lemma_items_serialise_err::<T>(ms, i + 1, e);
                }
                return Err(e);
            },
            Ok(c) => {
                let mut c = c;
                body.append(&mut c);
            },
        }
        i = i + 1;
    }
    assert(ms.take(len as int) =~= ms);
    proof {
        lemma_pow256_widths();
    }
    let mut out = Vec::new();
    write_be(len as u128, 2, &mut out);
    out.append(&mut body);
    Ok(out)
}

impl<T: Parse> Parse for Vec<T> {
    type V = Seq<T::V>;

    open spec fn model(&self) -> Seq<T::V> {
        models(self@)
    }

    open spec fn spec_serialise(v: Seq<T::V>) -> Result<Seq<u8>, ParserError> {
        seq_serialise::<T>(v)
    }

    open spec fn spec_deserialise(input: Seq<u8>) -> Result<(Seq<T::V>, Seq<u8>), ParserError> {
        seq_deserialise::<T>(input)
    }

    fn serialise(&self) -> (r: Result<Vec<u8>, ParserError>) {
        serialise_items(self.as_slice())
    }

    fn deserialise<'a>(input: &'a [u8]) -> (r: Result<(&'a [u8], Vec<T>), ParserError>) {
        let (n, rest) = match read_be(input, 2) {
            Ok(p) => p,
            Err(e) => return Err(e),
        };
        let mut rest = rest;
        let mut data: Vec<T> = Vec::new();
        let mut i: u128 = 0;
        let ghost start = rest@;
        assert(models(data@) =~= Seq::<T::V>::empty());
        while i < n
            invariant
                i <= n,
                spec_read(input@, 2) == Ok::<(nat, Seq<u8>), ParserError>((n as nat, start)),
                items_deserialise::<T>(i as nat, start) == Ok::<
                    (Seq<T::V>, Seq<u8>),
                    ParserError,
                >((models(data@), rest@)),
            decreases n - i,
        {
            match T::deserialise(rest) {
                Err(e) => {
                    proof {
                        lemma_items_deserialise_err::<T>((i + 1) as nat, n as nat, start, e);
                    }
                    return Err(e);
                },
                Ok((after, v)) => {
                    let ghost before = data@;
                    rest = after;
                    data.push(v);
                    assert(models(data@) =~= models(before).push(v.model()));
                },
            }
            i = i + 1;
        }
        Ok((rest, data))
    }
}

impl<T: ParseLaws> ParseLaws for Vec<T> {
    proof fn lemma_consumes(input: Seq<u8>) {
        if let Ok((n, rest)) = spec_read(input, 2) {
            lemma_items_consume::<T>(n, rest);
        }
    }


    proof fn lemma_round_trip(v: Seq<T::V>, rest: Seq<u8>) {
        lemma_seq_round_trip::<T>(v, rest);
    }

    proof fn lemma_truncated(v: Seq<T::V>) {
        lemma_seq_truncated::<T>(v);
    }
}

/// A borrowed slice encodes as its owned form does; decoding into it always
/// fails, since nothing owns the elements for it to borrow.
impl<'b, T: Parse> Parse for &'b [T] {
    type V = Seq<T::V>;

    open spec fn model(&self) -> Seq<T::V> {
        models(self@)
    }

    open spec fn spec_serialise(v: Seq<T::V>) -> Result<Seq<u8>, ParserError> {
        seq_serialise::<T>(v)
    }

    open spec fn spec_deserialise(input: Seq<u8>) -> Result<(Seq<T::V>, Seq<u8>), ParserError> {
        Err(ParserError::DeserialiseOnBorrowedType)
    }

    fn serialise(&self) -> (r: Result<Vec<u8>, ParserError>) {
        serialise_items(*self)
    }

    fn deserialise<'a>(input: &'a [u8]) -> (r: Result<(&'a [u8], &'b [T]), ParserError>) {
        Err(ParserError::DeserialiseOnBorrowedType)
    }
}

// ---------------------------------------------------------------- pairs

/// A pair: the first component's encoding, then the second's.
impl<A: Parse, B: Parse> Parse for (A, B) {
    type V = (A::V, B::V);

    open spec fn model(&self) -> (A::V, B::V) {
        (self.0.model(), self.1.model())
    }

    open spec fn spec_serialise(v: (A::V, B::V)) -> Result<Seq<u8>, ParserError> {
        spec_join(A::spec_serialise(v.0), B::spec_serialise(v.1))
    }

    open spec fn spec_deserialise(input: Seq<u8>) -> Result<((A::V, B::V), Seq<u8>), ParserError> {
        match A::spec_deserialise(input) {
            Err(e) => Err(e),
            Ok((a, rest)) => match B::spec_deserialise(rest) {
                Err(e) => Err(e),
                Ok((b, after)) => Ok(((a, b), after)),
            },
        }
    }

    fn serialise(&self) -> (r: Result<Vec<u8>, ParserError>) {
        join(self.0.serialise(), self.1.serialise())
    }

    fn deserialise<'a>(input: &'a [u8]) -> (r: Result<(&'a [u8], (A, B)), ParserError>) {
        let (rest, a) = match A::deserialise(input) {
            Ok(p) => p,
            Err(e) => return Err(e),
        };
        let (rest, b) = match B::deserialise(rest) {
            Ok(p) => p,
            Err(e) => return Err(e),
        };
        Ok((rest, (a, b)))
    }
}

impl<A: ParseLaws, B: ParseLaws> ParseLaws for (A, B) {
    proof fn lemma_consumes(input: Seq<u8>) {
        A::lemma_consumes(input);
        if let Ok((_, rest)) = A::spec_deserialise(input) {
            B::lemma_consumes(rest);
        }
    }


    proof fn lemma_round_trip(v: (A::V, B::V), rest: Seq<u8>) {
        let a = A::spec_serialise(v.0)->Ok_0;
        let b = B::spec_serialise(v.1)->Ok_0;
        A::lemma_round_trip(v.0, b + rest);
        B::lemma_round_trip(v.1, rest);
        assert(a + b + rest =~= a + (b + rest));
    }

    proof fn lemma_truncated(v: (A::V, B::V)) {
        let a = A::spec_serialise(v.0)->Ok_0;
        let b = B::spec_serialise(v.1)->Ok_0;
        B::lemma_round_trip(v.1, Seq::empty());
        B::lemma_truncated(v.1);
        A::lemma_round_trip(v.0, b.drop_last());
        assert((a + b).drop_last() =~= a + b.drop_last());
    }
}

// ---------------------------------------------------------------- duration

/// A span of time as whole seconds and the nanoseconds beyond them.
///
/// The wire form is the seconds as eight bytes, then the nanoseconds as four.
/// Decoding takes both fields as they stand: nanoseconds below one second
/// are what `new` asks of its callers, not something the codec enforces.
#[derive(Debug, Clone, Copy, PartialEq, Eq, Structural)]
pub struct Duration {
    pub secs: u64,
    pub nanos: u32,
}

/// One second in nanoseconds.
pub const NANOS_PER_SEC: u32 = 1_000_000_000;

impl Duration {
    pub fn new(secs: u64, nanos: u32) -> (d: Duration)
        requires
            nanos < NANOS_PER_SEC,
        ensures
            d == (Duration { secs, nanos }),
    {
        Duration { secs, nanos }
    }

    pub fn as_secs(&self) -> (r: u64)
        ensures
            r == self.secs,
    {
        self.secs
    }

    pub fn subsec_nanos(&self) -> (r: u32)
        ensures
            r == self.nanos,
    {
        self.nanos
    }
}

impl Parse for Duration {
    type V = Duration;

    open spec fn model(&self) -> Duration {
        *self
    }

    open spec fn spec_serialise(v: Duration) -> Result<Seq<u8>, ParserError> {
        <(u64, u32)>::spec_serialise((v.secs, v.nanos))
    }

    open spec fn spec_deserialise(input: Seq<u8>) -> Result<(Duration, Seq<u8>), ParserError> {
        match <(u64, u32)>::spec_deserialise(input) {
            Err(e) => Err(e),
            Ok(((secs, nanos), rest)) => Ok((Duration { secs, nanos }, rest)),
        }
    }

    fn serialise(&self) -> (r: Result<Vec<u8>, ParserError>) {
        (self.secs, self.nanos).serialise()
    }

    fn deserialise<'a>(input: &'a [u8]) -> (r: Result<(&'a [u8], Duration), ParserError>) {
        match <(u64, u32)>::deserialise(input) {
            Err(e) => Err(e),
            Ok((rest, (secs, nanos))) => Ok((rest, Duration { secs, nanos })),
        }
    }
}

impl ParseLaws for Duration {
    proof fn lemma_consumes(input: Seq<u8>) {
        <(u64, u32)>::lemma_consumes(input);
    }


    proof fn lemma_round_trip(v: Duration, rest: Seq<u8>) {
        <(u64, u32)>::lemma_round_trip((v.secs, v.nanos), rest);
    }

    proof fn lemma_truncated(v: Duration) {
        <(u64, u32)>::lemma_truncated((v.secs, v.nanos));
    }
}

} // verus!
