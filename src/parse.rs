//! The byte codec: the `Parse` capability, its error kinds and the
//! big-endian integer layout every other encoding is built from.
use vstd::prelude::*;

pub mod common;
pub mod primitives;

verus! {

/// Why an encode or decode failed.
#[derive(Debug, Clone, Copy, PartialEq, Eq, Structural)]
pub enum ParserError {
    /// Decoding was asked to produce a borrowed view, which it never can.
    DeserialiseOnBorrowedType,
    /// The input ended early; the payload is how many more bytes were needed.
    Incomplete(usize),
    /// A length or element count does not fit the 16-bit prefix.
    TooLarge(usize),
    /// A tag byte names no case of the enumeration.
    InvalidVariant,
    /// A text field does not hold valid UTF-8.
    InvalidUtf8,
}

/// Byte serialisation and deserialisation.
///
/// `V` is the mathematical model of a value; `spec_serialise` and
/// `spec_deserialise` state the wire format over that model, and the two
/// executable methods are held to them exactly.
pub trait Parse: Sized {
    type V;

    spec fn model(&self) -> Self::V;

    /// The bytes of `v`, or the error encoding it yields.
    spec fn spec_serialise(v: Self::V) -> Result<Seq<u8>, ParserError>;

    /// The value at the front of `input` and what follows it, or the error.
    spec fn spec_deserialise(input: Seq<u8>) -> Result<(Self::V, Seq<u8>), ParserError>;

    fn serialise(&self) -> (r: Result<Vec<u8>, ParserError>)
        ensures
            Self::spec_serialise(self.model()) == bytes_of(r),
    ;

    fn deserialise<'a>(input: &'a [u8]) -> (r: Result<(&'a [u8], Self), ParserError>)
        ensures
            Self::spec_deserialise(input@) == match r {
                Ok((rest, v)) => Ok((v.model(), rest@)),
                Err(e) => Err(e),
            },
    ;
}

/// Laws of the owned types: decoding an encoding gives the value back and
/// leaves what followed it, an encoding cut short by one byte is reported
/// as incomplete, and a decode that succeeds takes at least one byte.
pub trait ParseLaws: Parse {
    proof fn lemma_consumes(input: Seq<u8>)
        ensures
            Self::spec_deserialise(input) matches Ok((_, rest)) ==> rest.len() < input.len(),
    ;

    proof fn lemma_round_trip(v: Self::V, rest: Seq<u8>)
        requires
            Self::spec_serialise(v) is Ok,
        ensures
            Self::spec_serialise(v)->Ok_0.len() > 0,
            Self::spec_deserialise(Self::spec_serialise(v)->Ok_0 + rest) == Ok::<
                (Self::V, Seq<u8>),
                ParserError,
            >((v, rest)),
    ;

    proof fn lemma_truncated(v: Self::V)
        requires
            Self::spec_serialise(v) is Ok,
        ensures
            Self::spec_deserialise(Self::spec_serialise(v)->Ok_0.drop_last()) == Err::<
                (Self::V, Seq<u8>),
                ParserError,
            >(ParserError::Incomplete(1)),
    ;
}

pub open spec fn bytes_of(r: Result<Vec<u8>, ParserError>) -> Result<Seq<u8>, ParserError> {
    match r {
        Ok(b) => Ok(b@),
        Err(e) => Err(e),
    }
}

pub open spec fn pow256(w: nat) -> nat
    decreases w,
{
    if w == 0 {
        1
    } else {
        256 * pow256((w - 1) as nat)
    }
}

/// `v` as `w` bytes, most significant first.
pub open spec fn be_encode(v: nat, w: nat) -> Seq<u8>
    decreases w,
{
    if w == 0 {
        Seq::empty()
    } else {
        be_encode(v / 256, (w - 1) as nat).push((v % 256) as u8)
    }
}

/// The number that bytes stand for, most significant first.
pub open spec fn be_decode(s: Seq<u8>) -> nat
    decreases s.len(),
{
    if s.len() == 0 {
        0
    } else {
        (be_decode(s.drop_last()) * 256 + s.last()) as nat
    }
}

/// Reading a `w`-byte big-endian number from the front of `input`.
pub open spec fn spec_read(input: Seq<u8>, w: nat) -> Result<(nat, Seq<u8>), ParserError> {
    if input.len() < w {
        Err(ParserError::Incomplete((w - input.len()) as usize))
    } else {
        Ok((be_decode(input.take(w as int)), input.skip(w as int)))
    }
}

/// Two encodings one after the other; the first failure wins.
pub open spec fn spec_join(a: Result<Seq<u8>, ParserError>, b: Result<Seq<u8>, ParserError>) -> Result<
    Seq<u8>,
    ParserError,
> {
    match a {
        Err(e) => Err(e),
        Ok(x) => match b {
            Err(e) => Err(e),
            Ok(y) => Ok(x + y),
        },
    }
}

pub fn join(a: Result<Vec<u8>, ParserError>, b: Result<Vec<u8>, ParserError>) -> (r: Result<
    Vec<u8>,
    ParserError,
>)
    ensures
        bytes_of(r) == spec_join(bytes_of(a), bytes_of(b)),
{
    let mut x = match a {
        Ok(x) => x,
        Err(e) => return Err(e),
    };
    let mut y = match b {
        Ok(y) => y,
        Err(e) => return Err(e),
    };
    x.append(&mut y);
    Ok(x)
}

/// A tag byte followed by a payload's encoding.
pub open spec fn tagged(t: u8, payload: Result<Seq<u8>, ParserError>) -> Result<Seq<u8>, ParserError> {
    spec_join(Ok(seq![t]), payload)
}

pub fn write_tagged(t: u8, payload: Result<Vec<u8>, ParserError>) -> (r: Result<Vec<u8>, ParserError>)
    ensures
        bytes_of(r) == tagged(t, bytes_of(payload)),
{
    let mut out = Vec::new();
    out.push(t);
    assert(out@ =~= seq![t]);
    join(Ok(out), payload)
}

pub fn write_tag(t: u8) -> (r: Result<Vec<u8>, ParserError>)
    ensures
        bytes_of(r) == Ok::<Seq<u8>, ParserError>(seq![t]),
{
    let mut out = Vec::new();
    out.push(t);
    assert(out@ =~= seq![t]);
    Ok(out)
}

/// Decoding a tagged payload: the tag is read, then the payload after it.
pub proof fn lemma_tagged_round_trip<T: ParseLaws>(t: u8, v: T::V, rest: Seq<u8>)
    requires
        T::spec_serialise(v) is Ok,
    ensures
        tagged(t, T::spec_serialise(v)) is Ok,
        tag_read(tagged(t, T::spec_serialise(v))->Ok_0 + rest) == Ok::<(u8, Seq<u8>), ParserError>(
            (t, T::spec_serialise(v)->Ok_0 + rest),
        ),
        tag_read(tagged(t, T::spec_serialise(v))->Ok_0.drop_last()) == Ok::<
            (u8, Seq<u8>),
            ParserError,
        >((t, T::spec_serialise(v)->Ok_0.drop_last())),
        T::spec_deserialise(T::spec_serialise(v)->Ok_0 + rest) == Ok::<(T::V, Seq<u8>), ParserError>(
            (v, rest),
        ),
        T::spec_deserialise(T::spec_serialise(v)->Ok_0.drop_last()) == Err::<
            (T::V, Seq<u8>),
            ParserError,
        >(ParserError::Incomplete(1)),
{
    let p = T::spec_serialise(v)->Ok_0;
    T::lemma_round_trip(v, rest);
    T::lemma_truncated(v);
    lemma_tag_round_trip(t, p + rest);
    lemma_tag_round_trip(t, p.drop_last());
    assert(seq![t] + p + rest =~= seq![t] + (p + rest));
    assert((seq![t] + p).drop_last() =~= seq![t] + p.drop_last());
}

/// A bare tag byte reads back, and cut short it is incomplete.
pub proof fn lemma_unit_round_trip(t: u8, rest: Seq<u8>)
    ensures
        tag_read(seq![t] + rest) == Ok::<(u8, Seq<u8>), ParserError>((t, rest)),
        tag_read(seq![t].drop_last()) == Err::<(u8, Seq<u8>), ParserError>(
            ParserError::Incomplete(1),
        ),
{
    lemma_tag_round_trip(t, rest);
}

/// Reading the one-byte tag of an enumeration.
pub open spec fn tag_read(input: Seq<u8>) -> Result<(u8, Seq<u8>), ParserError> {
    if input.len() == 0 {
        Err(ParserError::Incomplete(1))
    } else {
        Ok((input[0], input.skip(1)))
    }
}

pub fn read_tag<'a>(input: &'a [u8]) -> (r: Result<(u8, &'a [u8]), ParserError>)
    ensures
        tag_read(input@) == match r {
            Ok((t, rest)) => Ok((t, rest@)),
            Err(e) => Err(e),
        },
{
    if input.len() == 0 {
        return Err(ParserError::Incomplete(1));
    }
    let rest = vstd::slice::slice_subrange(input, 1, input.len());
    assert(rest@ =~= input@.skip(1));
    Ok((input[0], rest))
}

pub proof fn lemma_tag_round_trip(t: u8, rest: Seq<u8>)
    ensures
        tag_read(seq![t] + rest) == Ok::<(u8, Seq<u8>), ParserError>((t, rest)),
{
    assert((seq![t] + rest).skip(1) =~= rest);
}

pub proof fn lemma_pow256_mono(i: nat, j: nat)
    requires
        i <= j,
    ensures
        1 <= pow256(i) <= pow256(j),
    decreases j,
{
    if j > 0 {
        if i < j {
            lemma_pow256_mono(i, (j - 1) as nat);
        } else {
            lemma_pow256_mono((j - 1) as nat, (j - 1) as nat);
        }
    }
}

/// The moduli of the integer widths the format uses.
pub proof fn lemma_pow256_widths()
    ensures
        pow256(1) == 0x100,
        pow256(2) == 0x1_0000,
        pow256(4) == 0x1_0000_0000,
        pow256(8) == 0x1_0000_0000_0000_0000,
        pow256(16) == 0x1_0000_0000_0000_0000_0000_0000_0000_0000,
{
    reveal_with_fuel(pow256, 17);
}

pub proof fn lemma_be_round_trip(v: nat, w: nat, rest: Seq<u8>)
    requires
        v < pow256(w),
    ensures
        be_encode(v, w).len() == w,
        be_decode(be_encode(v, w)) == v,
        spec_read(be_encode(v, w) + rest, w) == Ok::<(nat, Seq<u8>), ParserError>((v, rest)),
    decreases w,
{
    if w > 0 {
        let p = pow256((w - 1) as nat);
        assert(v / 256 < p) by (nonlinear_arith)
            requires
                v < 256 * p,
        ;
        lemma_be_round_trip(v / 256, (w - 1) as nat, rest);
        let e = be_encode(v, w);
        assert(e.drop_last() =~= be_encode(v / 256, (w - 1) as nat));
        assert(v == (v / 256) * 256 + v % 256) by (nonlinear_arith);
    }
    let e = be_encode(v, w);
    assert((e + rest).take(w as int) =~= e);
    assert((e + rest).skip(w as int) =~= rest);
}

/// Appends the `w` big-endian bytes of `v` to `out`.
pub fn write_be(v: u128, w: usize, out: &mut Vec<u8>)
    requires
        w <= 16,
        v < pow256(w as nat),
    ensures
        final(out)@ == old(out)@ + be_encode(v as nat, w as nat),
    decreases w,
{
    if w > 0 {
        proof {
            let p = pow256((w - 1) as nat);
            assert(v / 256 < p) by (nonlinear_arith)
                requires
                    v < 256 * p,
            ;
        }
        write_be(v / 256, w - 1, out);
        out.push((v % 256) as u8);
        assert(final(out)@ =~= old(out)@ + be_encode(v as nat, w as nat));
    } else {
        assert(final(out)@ =~= old(out)@ + be_encode(v as nat, w as nat));
    }
}

/// Reads a `w`-byte big-endian number from the front of `input`, or reports
/// how many bytes are missing.
pub fn read_be<'a>(input: &'a [u8], w: usize) -> (r: Result<(u128, &'a [u8]), ParserError>)
    requires
        w <= 16,
    ensures
        spec_read(input@, w as nat) == match r {
            Ok((n, rest)) => Ok((n as nat, rest@)),
            Err(e) => Err(e),
        },
        r matches Ok((n, _)) ==> n < pow256(w as nat),
{
    if input.len() < w {
        return Err(ParserError::Incomplete(w - input.len()));
    }
    let mut acc: u128 = 0;
    let mut i: usize = 0;
    proof {
        lemma_pow256_widths();
        lemma_pow256_mono(w as nat, 16);
        assert(input@.take(0) =~= Seq::<u8>::empty());
    }
    while i < w
        invariant
            i <= w <= 16,
            w <= input@.len(),
            acc as nat == be_decode(input@.take(i as int)),
            acc < pow256(i as nat),
            pow256(16) == 0x1_0000_0000_0000_0000_0000_0000_0000_0000,
        decreases w - i,
    {
        proof {
            lemma_pow256_mono((i + 1) as nat, 16);
            let p = pow256(i as nat);
            let b = input@[i as int];
            assert(acc * 256 + b < 256 * p) by (nonlinear_arith)
                requires
                    acc < p,
                    b < 256,
            ;
            assert(input@.take(i + 1).drop_last() =~= input@.take(i as int));
        }
        acc = acc * 256 + input[i] as u128;
        i = i + 1;
    }
    let rest = vstd::slice::slice_subrange(input, w, input.len());
    assert(rest@ =~= input@.skip(w as int));
    Ok((acc, rest))
}

} // verus!
