//! Data samples: one reading of a data source announced earlier.
use vstd::prelude::*;

use crate::parse::{join, Parse, ParseLaws, ParserError};

verus! {

/// One sample: its sequence number and the raw bytes of its value, whose
/// shape the matching schema descriptor gives.
#[derive(Debug, PartialEq)]
pub struct Data {
    pub iteration: u32,
    pub data: Vec<u8>,
}

impl Data {
    pub fn new(iteration: u32, data: Vec<u8>) -> (r: Data)
        ensures
            r.iteration == iteration,
            r.data == data,
    {
        Data { iteration, data }
    }
}

impl Parse for Data {
    type V = (u32, Seq<u8>);

    open spec fn model(&self) -> (u32, Seq<u8>) {
        (self.iteration, self.data.model())
    }

    open spec fn spec_serialise(v: (u32, Seq<u8>)) -> Result<Seq<u8>, ParserError> {
        <(u32, Vec<u8>) as Parse>::spec_serialise(v)
    }

    open spec fn spec_deserialise(input: Seq<u8>) -> Result<((u32, Seq<u8>), Seq<u8>), ParserError> {
        <(u32, Vec<u8>) as Parse>::spec_deserialise(input)
    }

    fn serialise(&self) -> (r: Result<Vec<u8>, ParserError>) {
        join(self.iteration.serialise(), self.data.serialise())
    }

    fn deserialise<'a>(input: &'a [u8]) -> (r: Result<(&'a [u8], Data), ParserError>) {
        match <(u32, Vec<u8>) as Parse>::deserialise(input) {
            Err(e) => Err(e),
            Ok((rest, (iteration, data))) => Ok((rest, Data { iteration, data })),
        }
    }
}

impl ParseLaws for Data {
    proof fn lemma_consumes(input: Seq<u8>) {
        <(u32, Vec<u8>) as ParseLaws>::lemma_consumes(input);
    }


    proof fn lemma_round_trip(v: (u32, Seq<u8>), rest: Seq<u8>) {
        <(u32, Vec<u8>) as ParseLaws>::lemma_round_trip(v, rest);
    }

    proof fn lemma_truncated(v: (u32, Seq<u8>)) {
        <(u32, Vec<u8>) as ParseLaws>::lemma_truncated(v);
    }
}

} // verus!
