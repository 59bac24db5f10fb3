//! Properties of the format that relate several encodings or decodings.
//! Each type's own round trip and truncation laws are the methods of
//! [`ParseLaws`].
use vstd::prelude::*;
use vstd::utf8::encode_utf8;

use crate::datainit::{Availability, DataLength, DataTier, DataType};
use crate::parse::common::{items_serialise, lemma_items_serialise_front, MAX_LEN};
use crate::parse::{lemma_tag_round_trip, Parse, ParseLaws, ParserError};
use crate::{spec_deserialise_stream, Packet, PacketData, PacketModel};

verus! {

/// A length prefix has 16 bits: text of 65536 UTF-8 bytes and sequences of
/// 65536 elements are refused as too large, with that size; at 65535 text
/// is accepted, and so is a sequence whose elements all encode.
pub proof fn lemma_length_ceiling<'a, T: Parse>(text: Seq<char>, items: Seq<T::V>)
    ensures
        encode_utf8(text).len() == MAX_LEN + 1 ==> {
            &&& String::spec_serialise(text) == Err::<Seq<u8>, ParserError>(
                ParserError::TooLarge(65536),
            )
            &&& <&'a str>::spec_serialise(text) == Err::<Seq<u8>, ParserError>(
                ParserError::TooLarge(65536),
            )
        },
        encode_utf8(text).len() == MAX_LEN ==> String::spec_serialise(text) is Ok
            && <&'a str>::spec_serialise(text) is Ok,
        items.len() == MAX_LEN + 1 ==> {
            &&& Vec::<T>::spec_serialise(items) == Err::<Seq<u8>, ParserError>(
                ParserError::TooLarge(65536),
            )
            &&& <&'a [T]>::spec_serialise(items) == Err::<Seq<u8>, ParserError>(
                ParserError::TooLarge(65536),
            )
        },
        items.len() == MAX_LEN && items_serialise::<T>(items) is Ok ==> Vec::<
            T,
        >::spec_serialise(items) is Ok && <&'a [T]>::spec_serialise(items) is Ok,
{
}

/// A tag byte equal to or past the number of declared cases is rejected as
/// an invalid variant, whatever follows it.
pub proof fn lemma_unknown_tag_rejected(tag: u8, rest: Seq<u8>)
    ensures
        tag >= 4 ==> DataTier::spec_deserialise(seq![tag] + rest) == Err::<
            (DataTier, Seq<u8>),
            ParserError,
        >(ParserError::InvalidVariant),
        tag >= 15 ==> DataType::spec_deserialise(seq![tag] + rest) == Err::<
            (DataType, Seq<u8>),
            ParserError,
        >(ParserError::InvalidVariant),
        tag >= 3 ==> DataLength::spec_deserialise(seq![tag] + rest) == Err::<
            (DataLength, Seq<u8>),
            ParserError,
        >(ParserError::InvalidVariant),
        tag >= 4 ==> Availability::spec_deserialise(seq![tag] + rest) == Err::<
            (Availability, Seq<u8>),
            ParserError,
        >(ParserError::InvalidVariant),
        tag >= 5 ==> PacketData::spec_deserialise(seq![tag] + rest) is Err
            && PacketData::spec_deserialise(seq![tag] + rest)->Err_0
            == ParserError::InvalidVariant,
{
    lemma_tag_round_trip(tag, rest);
}

/// Decoding into a borrowed view fails, whatever the input holds.
pub proof fn lemma_borrowed_rejected<'a, T: Parse>(input: Seq<u8>)
    ensures
        <&'a str>::spec_deserialise(input) == Err::<(Seq<char>, Seq<u8>), ParserError>(
            ParserError::DeserialiseOnBorrowedType,
        ),
        <&'a [T]>::spec_deserialise(input) == Err::<(Seq<T::V>, Seq<u8>), ParserError>(
            ParserError::DeserialiseOnBorrowedType,
        ),
{
}

proof fn lemma_stream_empty()
    ensures
        spec_deserialise_stream(Seq::empty()) == (Seq::<PacketModel>::empty(), Seq::<u8>::empty()),
{
    assert(Packet::spec_deserialise(Seq::empty()) is Err);
}

proof fn lemma_stream_step(p: PacketModel, rest: Seq<u8>)
    requires
        Packet::spec_serialise(p) is Ok,
    ensures
        spec_deserialise_stream(Packet::spec_serialise(p)->Ok_0 + rest) == (
            seq![p] + spec_deserialise_stream(rest).0,
            spec_deserialise_stream(rest).1,
        ),
{
    Packet::lemma_round_trip(p, rest);
}

/// Packets encoded one after another and concatenated decode back as a
/// stream: the same packets in the same order, with no byte left over.
pub proof fn lemma_stream_round_trip(ps: Seq<PacketModel>)
    requires
        items_serialise::<Packet>(ps) is Ok,
    ensures
        spec_deserialise_stream(items_serialise::<Packet>(ps)->Ok_0) == (ps, Seq::<u8>::empty()),
    decreases ps.len(),
{
    if ps.len() == 0 {
        lemma_stream_empty();
    } else {
        lemma_items_serialise_front::<Packet>(ps);
        let b = items_serialise::<Packet>(ps.drop_first())->Ok_0;
        lemma_stream_step(ps[0], b);
        lemma_stream_round_trip(ps.drop_first());
        assert(seq![ps[0]] + ps.drop_first() =~= ps);
    }
}

} // verus!
