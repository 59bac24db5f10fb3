//! Schema descriptors: the metadata that announces a data source before
//! its samples arrive.
use vstd::prelude::*;

use crate::parse::common::Duration;
use crate::parse::{
    join, lemma_tagged_round_trip, lemma_unit_round_trip, read_tag, tag_read, tagged,
    write_tag, write_tagged, Parse, ParseLaws, ParserError,
};

verus! {

/// How far a data source's values are from the raw measurement.
#[derive(Debug, Clone, Copy, PartialEq, Eq, Structural)]
pub enum DataTier {
    Raw,
    Processed,
    Calculated,
    State,
}

impl DataTier {
    /// The tag byte of each case: its position in the declaration.
    pub open spec fn spec_tag(self) -> u8 {
        match self {
            DataTier::Raw => 0,
            DataTier::Processed => 1,
            DataTier::Calculated => 2,
            DataTier::State => 3,
        }
    }
}

impl Parse for DataTier {
    type V = DataTier;

    open spec fn model(&self) -> DataTier {
        *self
    }

    open spec fn spec_serialise(v: DataTier) -> Result<Seq<u8>, ParserError> {
        Ok(seq![v.spec_tag()])
    }

    open spec fn spec_deserialise(input: Seq<u8>) -> Result<(DataTier, Seq<u8>), ParserError> {
        match tag_read(input) {
            Err(e) => Err(e),
            Ok((t, rest)) => match t {
                0u8 => Ok((DataTier::Raw, rest)),
                1u8 => Ok((DataTier::Processed, rest)),
                2u8 => Ok((DataTier::Calculated, rest)),
                3u8 => Ok((DataTier::State, rest)),
                _ => Err(ParserError::InvalidVariant),
            },
        }
    }

    fn serialise(&self) -> (r: Result<Vec<u8>, ParserError>) {
        let t: u8 = match self {
            DataTier::Raw => 0,
            DataTier::Processed => 1,
            DataTier::Calculated => 2,
            DataTier::State => 3,
        };
        write_tag(t)
    }

    fn deserialise<'a>(input: &'a [u8]) -> (r: Result<(&'a [u8], DataTier), ParserError>) {
        let (t, rest) = match read_tag(input) {
            Ok(p) => p,
            Err(e) => return Err(e),
        };
        let v = match t {
            0u8 => DataTier::Raw,
            1u8 => DataTier::Processed,
            2u8 => DataTier::Calculated,
            3u8 => DataTier::State,
            _ => return Err(ParserError::InvalidVariant),
        };
        Ok((rest, v))
    }
}

impl ParseLaws for DataTier {
    proof fn lemma_consumes(input: Seq<u8>) {
    }


    proof fn lemma_round_trip(v: DataTier, rest: Seq<u8>) {
        lemma_unit_round_trip(v.spec_tag(), rest);
    }

    proof fn lemma_truncated(v: DataTier) {
        lemma_unit_round_trip(v.spec_tag(), Seq::empty());
    }
}

/// The element kind of a data source's values.
#[derive(Debug, Clone, Copy, PartialEq, Eq, Structural)]
pub enum DataType {
    Boolean,
    F32,
    F64,
    I128,
    I16,
    I32,
    I64,
    I8,
    U128,
    U16,
    U32,
    U64,
    U8,
    Vec2,
    Vec3,
}

impl DataType {
    /// The tag byte of each case: its position in the declaration.
    pub open spec fn spec_tag(self) -> u8 {
        match self {
            DataType::Boolean => 0,
            DataType::F32 => 1,
            DataType::F64 => 2,
            DataType::I128 => 3,
            DataType::I16 => 4,
            DataType::I32 => 5,
            DataType::I64 => 6,
            DataType::I8 => 7,
            DataType::U128 => 8,
            DataType::U16 => 9,
            DataType::U32 => 10,
            DataType::U64 => 11,
            DataType::U8 => 12,
            DataType::Vec2 => 13,
            DataType::Vec3 => 14,
        }
    }
}

impl Parse for DataType {
    type V = DataType;

    open spec fn model(&self) -> DataType {
        *self
    }

    open spec fn spec_serialise(v: DataType) -> Result<Seq<u8>, ParserError> {
        Ok(seq![v.spec_tag()])
    }

    open spec fn spec_deserialise(input: Seq<u8>) -> Result<(DataType, Seq<u8>), ParserError> {
        match tag_read(input) {
            Err(e) => Err(e),
            Ok((t, rest)) => match t {
                0u8 => Ok((DataType::Boolean, rest)),
                1u8 => Ok((DataType::F32, rest)),
                2u8 => Ok((DataType::F64, rest)),
                3u8 => Ok((DataType::I128, rest)),
                4u8 => Ok((DataType::I16, rest)),
                5u8 => Ok((DataType::I32, rest)),
                6u8 => Ok((DataType::I64, rest)),
                7u8 => Ok((DataType::I8, rest)),
                8u8 => Ok((DataType::U128, rest)),
                9u8 => Ok((DataType::U16, rest)),
                10u8 => Ok((DataType::U32, rest)),
                11u8 => Ok((DataType::U64, rest)),
                12u8 => Ok((DataType::U8, rest)),
                13u8 => Ok((DataType::Vec2, rest)),
                14u8 => Ok((DataType::Vec3, rest)),
                _ => Err(ParserError::InvalidVariant),
            },
        }
    }

    fn serialise(&self) -> (r: Result<Vec<u8>, ParserError>) {
        let t: u8 = match self {
            DataType::Boolean => 0,
            DataType::F32 => 1,
            DataType::F64 => 2,
            DataType::I128 => 3,
            DataType::I16 => 4,
            DataType::I32 => 5,
            DataType::I64 => 6,
            DataType::I8 => 7,
            DataType::U128 => 8,
            DataType::U16 => 9,
            DataType::U32 => 10,
            DataType::U64 => 11,
            DataType::U8 => 12,
            DataType::Vec2 => 13,
            DataType::Vec3 => 14,
        };
        write_tag(t)
    }

    fn deserialise<'a>(input: &'a [u8]) -> (r: Result<(&'a [u8], DataType), ParserError>) {
        let (t, rest) = match read_tag(input) {
            Ok(p) => p,
            Err(e) => return Err(e),
        };
        let v = match t {
            0u8 => DataType::Boolean,
            1u8 => DataType::F32,
            2u8 => DataType::F64,
            3u8 => DataType::I128,
            4u8 => DataType::I16,
            5u8 => DataType::I32,
            6u8 => DataType::I64,
            7u8 => DataType::I8,
            8u8 => DataType::U128,
            9u8 => DataType::U16,
            10u8 => DataType::U32,
            11u8 => DataType::U64,
            12u8 => DataType::U8,
            13u8 => DataType::Vec2,
            14u8 => DataType::Vec3,
            _ => return Err(ParserError::InvalidVariant),
        };
        Ok((rest, v))
    }
}

impl ParseLaws for DataType {
    proof fn lemma_consumes(input: Seq<u8>) {
    }


    proof fn lemma_round_trip(v: DataType, rest: Seq<u8>) {
        lemma_unit_round_trip(v.spec_tag(), rest);
    }

    proof fn lemma_truncated(v: DataType) {
        lemma_unit_round_trip(v.spec_tag(), Seq::empty());
    }
}

/// How many elements a data source's value holds.
#[derive(Debug, Clone, Copy, PartialEq, Eq, Structural)]
pub enum DataLength {
    Single,
    Fixed(u16),
    Variable,
}

impl Parse for DataLength {
    type V = DataLength;

    open spec fn model(&self) -> DataLength {
        *self
    }

    open spec fn spec_serialise(v: DataLength) -> Result<Seq<u8>, ParserError> {
        match v {
            DataLength::Single => Ok(seq![0u8]),
            DataLength::Fixed(n) => tagged(1, u16::spec_serialise(n)),
            DataLength::Variable => Ok(seq![2u8]),
        }
    }

    open spec fn spec_deserialise(input: Seq<u8>) -> Result<(DataLength, Seq<u8>), ParserError> {
        match tag_read(input) {
            Err(e) => Err(e),
            Ok((t, rest)) => match t {
                0u8 => Ok((DataLength::Single, rest)),
                1u8 => match u16::spec_deserialise(rest) {
                    Err(e) => Err(e),
                    Ok((n, after)) => Ok((DataLength::Fixed(n), after)),
                },
                2u8 => Ok((DataLength::Variable, rest)),
                _ => Err(ParserError::InvalidVariant),
            },
        }
    }

    fn serialise(&self) -> (r: Result<Vec<u8>, ParserError>) {
        match self {
            DataLength::Single => write_tag(0),
            DataLength::Fixed(n) => write_tagged(1, n.serialise()),
            DataLength::Variable => write_tag(2),
        }
    }

    fn deserialise<'a>(input: &'a [u8]) -> (r: Result<(&'a [u8], DataLength), ParserError>) {
        let (t, rest) = match read_tag(input) {
            Ok(p) => p,
            Err(e) => return Err(e),
        };
        match t {
            0u8 => Ok((rest, DataLength::Single)),
            1u8 => match u16::deserialise(rest) {
                Err(e) => Err(e),
                Ok((after, n)) => Ok((after, DataLength::Fixed(n))),
            },
            2u8 => Ok((rest, DataLength::Variable)),
            _ => Err(ParserError::InvalidVariant),
        }
    }
}

impl ParseLaws for DataLength {
    proof fn lemma_consumes(input: Seq<u8>) {
        u16::lemma_consumes(input.skip(1));
    }


    proof fn lemma_round_trip(v: DataLength, rest: Seq<u8>) {
        match v {
            DataLength::Single => lemma_unit_round_trip(0, rest),
            DataLength::Fixed(n) => lemma_tagged_round_trip::<u16>(1, n, rest),
            DataLength::Variable => lemma_unit_round_trip(2, rest),
        }
    }

    proof fn lemma_truncated(v: DataLength) {
        match v {
            DataLength::Single => lemma_unit_round_trip(0, Seq::empty()),
            DataLength::Fixed(n) => lemma_tagged_round_trip::<u16>(1, n, Seq::empty()),
            DataLength::Variable => lemma_unit_round_trip(2, Seq::empty()),
        }
    }
}

/// When a data source's values can be expected.
#[derive(Debug, Clone, Copy, PartialEq, Eq, Structural)]
pub enum Availability {
    Once,
    Whenever,
    Within(Duration),
    Always,
}

impl Parse for Availability {
    type V = Availability;

    open spec fn model(&self) -> Availability {
        *self
    }

    open spec fn spec_serialise(v: Availability) -> Result<Seq<u8>, ParserError> {
        match v {
            Availability::Once => Ok(seq![0u8]),
            Availability::Whenever => Ok(seq![1u8]),
            Availability::Within(d) => tagged(2, Duration::spec_serialise(d)),
            Availability::Always => Ok(seq![3u8]),
        }
    }

    open spec fn spec_deserialise(input: Seq<u8>) -> Result<(Availability, Seq<u8>), ParserError> {
        match tag_read(input) {
            Err(e) => Err(e),
            Ok((t, rest)) => match t {
                0u8 => Ok((Availability::Once, rest)),
                1u8 => Ok((Availability::Whenever, rest)),
                2u8 => match Duration::spec_deserialise(rest) {
                    Err(e) => Err(e),
                    Ok((d, after)) => Ok((Availability::Within(d), after)),
                },
                3u8 => Ok((Availability::Always, rest)),
                _ => Err(ParserError::InvalidVariant),
            },
        }
    }

    fn serialise(&self) -> (r: Result<Vec<u8>, ParserError>) {
        match self {
            Availability::Once => write_tag(0),
            Availability::Whenever => write_tag(1),
            Availability::Within(d) => write_tagged(2, d.serialise()),
            Availability::Always => write_tag(3),
        }
    }

    fn deserialise<'a>(input: &'a [u8]) -> (r: Result<(&'a [u8], Availability), ParserError>) {
        let (t, rest) = match read_tag(input) {
            Ok(p) => p,
            Err(e) => return Err(e),
        };
        match t {
            0u8 => Ok((rest, Availability::Once)),
            1u8 => Ok((rest, Availability::Whenever)),
            2u8 => match Duration::deserialise(rest) {
                Err(e) => Err(e),
                Ok((after, d)) => Ok((after, Availability::Within(d))),
            },
            3u8 => Ok((rest, Availability::Always)),
            _ => Err(ParserError::InvalidVariant),
        }
    }
}

impl ParseLaws for Availability {
    proof fn lemma_consumes(input: Seq<u8>) {
        Duration::lemma_consumes(input.skip(1));
    }


    proof fn lemma_round_trip(v: Availability, rest: Seq<u8>) {
        match v {
            Availability::Within(d) => lemma_tagged_round_trip::<Duration>(2, d, rest),
            _ => {
                lemma_unit_round_trip(0, rest);
                lemma_unit_round_trip(1, rest);
                lemma_unit_round_trip(3, rest);
            },
        }
    }

    proof fn lemma_truncated(v: Availability) {
        match v {
            Availability::Within(d) => lemma_tagged_round_trip::<Duration>(2, d, Seq::empty()),
            _ => {
                lemma_unit_round_trip(0, Seq::empty());
                lemma_unit_round_trip(1, Seq::empty());
                lemma_unit_round_trip(3, Seq::empty());
            },
        }
    }
}

/// The model of a schema descriptor: robot identifier, data identifier,
/// tier, element descriptions and availability, nested as pairs in wire order.
pub type DataInitModel = (
    Seq<char>,
    (Seq<char>, (DataTier, (Seq<(DataType, DataLength)>, Availability))),
);

/// The owned types of a schema descriptor's fields, nested as its model is.
pub type DataInitFields = (String, (String, (DataTier, (Vec<(DataType, DataLength)>, Availability))));

/// Announces a data source: which robot it belongs to, its own identifier,
/// its tier, the `(type, length)` of each element field, and its availability.
#[derive(Debug, PartialEq)]
pub struct DataInit {
    pub robot_ident: String,
    pub data_ident: String,
    pub data_tier: DataTier,
    pub data_info: Vec<(DataType, DataLength)>,
    pub availability: Availability,
}

impl DataInit {
    pub fn new(
        robot_ident: String,
        data_ident: String,
        data_tier: DataTier,
        data_info: Vec<(DataType, DataLength)>,
        availability: Availability,
    ) -> (r: DataInit)
        ensures
            r.robot_ident == robot_ident,
            r.data_ident == data_ident,
            r.data_tier == data_tier,
            r.data_info == data_info,
            r.availability == availability,
    {
        DataInit { robot_ident, data_ident, data_tier, data_info, availability }
    }
}

impl Parse for DataInit {
    type V = DataInitModel;

    open spec fn model(&self) -> DataInitModel {
        (
            self.robot_ident@,
            (self.data_ident@, (self.data_tier, (self.data_info.model(), self.availability))),
        )
    }

    open spec fn spec_serialise(v: DataInitModel) -> Result<Seq<u8>, ParserError> {
        <DataInitFields as Parse>::spec_serialise(v)
    }

    open spec fn spec_deserialise(input: Seq<u8>) -> Result<(DataInitModel, Seq<u8>), ParserError> {
        <DataInitFields as Parse>::spec_deserialise(input)
    }

    fn serialise(&self) -> (r: Result<Vec<u8>, ParserError>) {
        join(
            self.robot_ident.serialise(),
            join(
                self.data_ident.serialise(),
                join(
                    self.data_tier.serialise(),
                    join(self.data_info.serialise(), self.availability.serialise()),
                ),
            ),
        )
    }

    fn deserialise<'a>(input: &'a [u8]) -> (r: Result<(&'a [u8], DataInit), ParserError>) {
        match <DataInitFields as Parse>::deserialise(input) {
            Err(e) => Err(e),
            Ok((rest, (robot_ident, (data_ident, (data_tier, (data_info, availability)))))) => {
                Ok((rest, DataInit { robot_ident, data_ident, data_tier, data_info, availability }))
            },
        }
    }
}

impl ParseLaws for DataInit {
    proof fn lemma_consumes(input: Seq<u8>) {
        <DataInitFields as ParseLaws>::lemma_consumes(input);
    }


    proof fn lemma_round_trip(v: DataInitModel, rest: Seq<u8>) {
        <DataInitFields as ParseLaws>::lemma_round_trip(v, rest);
    }

    proof fn lemma_truncated(v: DataInitModel) {
        <DataInitFields as ParseLaws>::lemma_truncated(v);
    }
}

} // verus!
