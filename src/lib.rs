//! A compact binary wire format for robot telemetry.
//!
//! Every wire type implements [`parse::Parse`]: big-endian integers,
//! length-prefixed text and sequences, and enumerations as a tag byte (the
//! case's position in its declaration) followed by the case's payload. The
//! unit placed on the wire is a [`Packet`]: a timestamp and one
//! [`PacketData`] case.
use vstd::prelude::*;

pub mod data;
pub mod laws;
pub mod datainit;
pub mod parse;

use crate::data::Data;
use crate::datainit::{DataInit, DataInitModel};
use crate::parse::common::{models, Duration};
use crate::parse::{
    join, lemma_tagged_round_trip, read_tag, tag_read, tagged, write_tagged, Parse, ParseLaws,
    ParserError,
};

verus! {

/// Announces that a data source of a robot is gone.
#[derive(Debug, PartialEq)]
pub struct DataRemove {
    pub robot_ident: String,
    pub data_ident: String,
}

impl DataRemove {
    pub fn new(robot_ident: String, data_ident: String) -> (r: DataRemove)
        ensures
            r.robot_ident == robot_ident,
            r.data_ident == data_ident,
    {
        DataRemove { robot_ident, data_ident }
    }
}

impl Parse for DataRemove {
    type V = (Seq<char>, Seq<char>);

    open spec fn model(&self) -> (Seq<char>, Seq<char>) {
        (self.robot_ident@, self.data_ident@)
    }

    open spec fn spec_serialise(v: (Seq<char>, Seq<char>)) -> Result<Seq<u8>, ParserError> {
        <(String, String) as Parse>::spec_serialise(v)
    }

    open spec fn spec_deserialise(input: Seq<u8>) -> Result<
        ((Seq<char>, Seq<char>), Seq<u8>),
        ParserError,
    > {
        <(String, String) as Parse>::spec_deserialise(input)
    }

    fn serialise(&self) -> (r: Result<Vec<u8>, ParserError>) {
        join(self.robot_ident.serialise(), self.data_ident.serialise())
    }

    fn deserialise<'a>(input: &'a [u8]) -> (r: Result<(&'a [u8], DataRemove), ParserError>) {
        match <(String, String) as Parse>::deserialise(input) {
            Err(e) => Err(e),
            Ok((rest, (robot_ident, data_ident))) => Ok((rest, DataRemove { robot_ident, data_ident })),
        }
    }
}

impl ParseLaws for DataRemove {
    proof fn lemma_consumes(input: Seq<u8>) {
        <(String, String) as ParseLaws>::lemma_consumes(input);
    }


    proof fn lemma_round_trip(v: (Seq<char>, Seq<char>), rest: Seq<u8>) {
        <(String, String) as ParseLaws>::lemma_round_trip(v, rest);
    }

    proof fn lemma_truncated(v: (Seq<char>, Seq<char>)) {
        <(String, String) as ParseLaws>::lemma_truncated(v);
    }
}

/// What a packet carries.
#[derive(Debug, PartialEq)]
pub enum PacketData {
    /// A new robot, by its unique identifier.
    RobotInit(String),
    /// A new data source, with its metadata.
    DataInit(DataInit),
    /// A robot that is gone, by its identifier.
    RobotRemove(String),
    /// A data source that is gone.
    DataRemove(DataRemove),
    /// One sample of a data source announced earlier.
    Data(Data),
}

/// The model of [`PacketData`]: each case holds its payload's model.
pub enum PacketDataModel {
    RobotInit(Seq<char>),
    DataInit(DataInitModel),
    RobotRemove(Seq<char>),
    DataRemove((Seq<char>, Seq<char>)),
    Data((u32, Seq<u8>)),
}

impl Parse for PacketData {
    type V = PacketDataModel;

    open spec fn model(&self) -> PacketDataModel {
        match self {
            PacketData::RobotInit(s) => PacketDataModel::RobotInit(s@),
            PacketData::DataInit(d) => PacketDataModel::DataInit(d.model()),
            PacketData::RobotRemove(s) => PacketDataModel::RobotRemove(s@),
            PacketData::DataRemove(d) => PacketDataModel::DataRemove(d.model()),
            PacketData::Data(d) => PacketDataModel::Data(d.model()),
        }
    }

    open spec fn spec_serialise(v: PacketDataModel) -> Result<Seq<u8>, ParserError> {
        match v {
            PacketDataModel::RobotInit(s) => tagged(0, String::spec_serialise(s)),
            PacketDataModel::DataInit(d) => tagged(1, DataInit::spec_serialise(d)),
            PacketDataModel::RobotRemove(s) => tagged(2, String::spec_serialise(s)),
            PacketDataModel::DataRemove(d) => tagged(3, DataRemove::spec_serialise(d)),
            PacketDataModel::Data(d) => tagged(4, Data::spec_serialise(d)),
        }
    }

    open spec fn spec_deserialise(input: Seq<u8>) -> Result<(PacketDataModel, Seq<u8>), ParserError> {
        match tag_read(input) {
            Err(e) => Err(e),
            Ok((t, rest)) => match t {
                0u8 => match String::spec_deserialise(rest) {
                    Err(e) => Err(e),
                    Ok((s, after)) => Ok((PacketDataModel::RobotInit(s), after)),
                },
                1u8 => match DataInit::spec_deserialise(rest) {
                    Err(e) => Err(e),
                    Ok((d, after)) => Ok((PacketDataModel::DataInit(d), after)),
                },
                2u8 => match String::spec_deserialise(rest) {
                    Err(e) => Err(e),
                    Ok((s, after)) => Ok((PacketDataModel::RobotRemove(s), after)),
                },
                3u8 => match DataRemove::spec_deserialise(rest) {
                    Err(e) => Err(e),
                    Ok((d, after)) => Ok((PacketDataModel::DataRemove(d), after)),
                },
                4u8 => match Data::spec_deserialise(rest) {
                    Err(e) => Err(e),
                    Ok((d, after)) => Ok((PacketDataModel::Data(d), after)),
                },
                _ => Err(ParserError::InvalidVariant),
            },
        }
    }

    fn serialise(&self) -> (r: Result<Vec<u8>, ParserError>) {
        match self {
            PacketData::RobotInit(s) => write_tagged(0, s.serialise()),
            PacketData::DataInit(d) => write_tagged(1, d.serialise()),
            PacketData::RobotRemove(s) => write_tagged(2, s.serialise()),
            PacketData::DataRemove(d) => write_tagged(3, d.serialise()),
            PacketData::Data(d) => write_tagged(4, d.serialise()),
        }
    }

    fn deserialise<'a>(input: &'a [u8]) -> (r: Result<(&'a [u8], PacketData), ParserError>) {
        let (t, rest) = match read_tag(input) {
            Ok(p) => p,
            Err(e) => return Err(e),
        };
        match t {
            0u8 => match String::deserialise(rest) {
                Err(e) => Err(e),
                Ok((after, s)) => Ok((after, PacketData::RobotInit(s))),
            },
            1u8 => match DataInit::deserialise(rest) {
                Err(e) => Err(e),
                Ok((after, d)) => Ok((after, PacketData::DataInit(d))),
            },
            2u8 => match String::deserialise(rest) {
                Err(e) => Err(e),
                Ok((after, s)) => Ok((after, PacketData::RobotRemove(s))),
            },
            3u8 => match DataRemove::deserialise(rest) {
                Err(e) => Err(e),
                Ok((after, d)) => Ok((after, PacketData::DataRemove(d))),
            },
            4u8 => match Data::deserialise(rest) {
                Err(e) => Err(e),
                Ok((after, d)) => Ok((after, PacketData::Data(d))),
            },
            _ => Err(ParserError::InvalidVariant),
        }
    }
}

impl ParseLaws for PacketData {
    proof fn lemma_consumes(input: Seq<u8>) {
        let rest = input.skip(1);
        String::lemma_consumes(rest);
        DataInit::lemma_consumes(rest);
        DataRemove::lemma_consumes(rest);
        Data::lemma_consumes(rest);
    }


    proof fn lemma_round_trip(v: PacketDataModel, rest: Seq<u8>) {
        match v {
            PacketDataModel::RobotInit(s) => lemma_tagged_round_trip::<String>(0, s, rest),
            PacketDataModel::DataInit(d) => lemma_tagged_round_trip::<DataInit>(1, d, rest),
            PacketDataModel::RobotRemove(s) => lemma_tagged_round_trip::<String>(2, s, rest),
            PacketDataModel::DataRemove(d) => lemma_tagged_round_trip::<DataRemove>(3, d, rest),
            PacketDataModel::Data(d) => lemma_tagged_round_trip::<Data>(4, d, rest),
        }
    }

    proof fn lemma_truncated(v: PacketDataModel) {
        let e = Seq::<u8>::empty();
        match v {
            PacketDataModel::RobotInit(s) => lemma_tagged_round_trip::<String>(0, s, e),
            PacketDataModel::DataInit(d) => lemma_tagged_round_trip::<DataInit>(1, d, e),
            PacketDataModel::RobotRemove(s) => lemma_tagged_round_trip::<String>(2, s, e),
            PacketDataModel::DataRemove(d) => lemma_tagged_round_trip::<DataRemove>(3, d, e),
            PacketDataModel::Data(d) => lemma_tagged_round_trip::<Data>(4, d, e),
        }
    }
}

/// The unit placed on the wire: the time since the Unix epoch at which it
/// was sent, and what it carries.
#[derive(Debug, PartialEq)]
pub struct Packet {
    pub timestamp: Duration,
    pub data: PacketData,
}

/// The model of a [`Packet`]: its timestamp and its payload's model.
pub type PacketModel = (Duration, PacketDataModel);

/// Decoding packets one after another from the front of `input`, each from
/// what the one before left. It stops, without failing, where what is left
/// holds no complete packet, and returns the packets and the bytes left.
pub open spec fn spec_deserialise_stream(input: Seq<u8>) -> (Seq<PacketModel>, Seq<u8>)
    decreases input.len(),
    via stream_decreases
{
    match Packet::spec_deserialise(input) {
        Ok((p, rest)) => {
            let (ps, left) = spec_deserialise_stream(rest);
            (seq![p] + ps, left)
        },
        Err(_) => (Seq::empty(), input),
    }
}

#[via_fn]
proof fn stream_decreases(input: Seq<u8>) {
    Packet::lemma_consumes(input);
}

impl Packet {
    pub fn new(timestamp: Duration, data: PacketData) -> (r: Packet)
        ensures
            r.timestamp == timestamp,
            r.data == data,
    {
        Packet { timestamp, data }
    }

    /// Decodes the packets that lie one after another at the front of
    /// `input`, and returns them with the bytes after the last complete one.
    pub fn deserialise_stream<'a>(input: &'a [u8]) -> (r: (Vec<Packet>, &'a [u8]))
        ensures
            (models(r.0@), r.1@) == spec_deserialise_stream(input@),
    {
        let mut packets: Vec<Packet> = Vec::new();
        let mut rest = input;
        assert(models(packets@) + spec_deserialise_stream(rest@).0 =~= spec_deserialise_stream(
            rest@,
        ).0);
        loop
            invariant
                spec_deserialise_stream(input@) == (
                    models(packets@) + spec_deserialise_stream(rest@).0,
                    spec_deserialise_stream(rest@).1,
                ),
            decreases rest@.len(),
        {
            let ghost before = packets@;
            match Packet::deserialise(rest) {
                Ok((after, p)) => {
                    proof {
                        Packet::lemma_consumes(rest@);
                    }
                    packets.push(p);
                    proof {
                        let tail = spec_deserialise_stream(after@).0;
                        assert(models(packets@) =~= models(before).push(p.model()));
                        assert(models(before) + (seq![p.model()] + tail) =~= models(packets@)
                            + tail);
                    }
                    rest = after;
                },
                Err(_) => {
                    assert(models(packets@) + Seq::<PacketModel>::empty() =~= models(packets@));
                    return (packets, rest);
                },
            }
        }
    }
}

impl Parse for Packet {
    type V = PacketModel;

    open spec fn model(&self) -> PacketModel {
        (self.timestamp, self.data.model())
    }

    open spec fn spec_serialise(v: PacketModel) -> Result<Seq<u8>, ParserError> {
        <(Duration, PacketData) as Parse>::spec_serialise(v)
    }

    open spec fn spec_deserialise(input: Seq<u8>) -> Result<(PacketModel, Seq<u8>), ParserError> {
        <(Duration, PacketData) as Parse>::spec_deserialise(input)
    }

    fn serialise(&self) -> (r: Result<Vec<u8>, ParserError>) {
        join(self.timestamp.serialise(), self.data.serialise())
    }

    fn deserialise<'a>(input: &'a [u8]) -> (r: Result<(&'a [u8], Packet), ParserError>) {
        match <(Duration, PacketData) as Parse>::deserialise(input) {
            Err(e) => Err(e),
            Ok((rest, (timestamp, data))) => Ok((rest, Packet { timestamp, data })),
        }
    }
}

impl ParseLaws for Packet {
    proof fn lemma_consumes(input: Seq<u8>) {
        <(Duration, PacketData) as ParseLaws>::lemma_consumes(input);
    }


    proof fn lemma_round_trip(v: PacketModel, rest: Seq<u8>) {
        <(Duration, PacketData) as ParseLaws>::lemma_round_trip(v, rest);
    }

    proof fn lemma_truncated(v: PacketModel) {
        <(Duration, PacketData) as ParseLaws>::lemma_truncated(v);
    }
}

} // verus!
