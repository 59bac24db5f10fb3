//! Fixed-width integers: each is written as its width in bytes, most
//! significant byte first; signed values in two's complement.
use vstd::prelude::*;

use super::{
    be_encode, lemma_be_round_trip, lemma_pow256_widths, pow256, read_be, spec_read, write_be,
    Parse, ParseLaws, ParserError,
};

verus! {

/// The two's-complement bit pattern of `v` modulo `m`.
pub open spec fn to_unsigned(v: int, m: nat) -> nat {
    if v < 0 {
        (v + m) as nat
    } else {
        v as nat
    }
}

/// The signed value whose two's-complement pattern modulo `m` is `n`.
pub open spec fn to_signed(n: nat, m: nat) -> int {
    if n >= m / 2 {
        n - m
    } else {
        n as int
    }
}

fn signed_to_wire(v: i128, mask: u128) -> (u: u128)
    requires
        mask % 2 == 1,
        -(mask as int + 1) / 2 <= v < (mask as int + 1) / 2,
    ensures
        u as nat == to_unsigned(v as int, (mask + 1) as nat),
{
    if v < 0 {
        mask - ((-(v + 1)) as u128)
    } else {
        v as u128
    }
}

fn wire_to_signed(n: u128, mask: u128) -> (v: i128)
    requires
        mask % 2 == 1,
        n <= mask,
        mask as int + 1 <= 2 * (i128::MAX as int + 1),
    ensures
        v as int == to_signed(n as nat, (mask + 1) as nat),
{
    if n > mask / 2 {
        -((mask - n) as i128) - 1
    } else {
        n as i128
    }
}

impl Parse for u8 {
    type V = u8;

    open spec fn model(&self) -> u8 {
        *self
    }

    open spec fn spec_serialise(v: u8) -> Result<Seq<u8>, ParserError> {
        Ok(be_encode(v as nat, 1))
    }

    open spec fn spec_deserialise(input: Seq<u8>) -> Result<(u8, Seq<u8>), ParserError> {
        match spec_read(input, 1) {
            Ok((n, rest)) => Ok((n as u8, rest)),
            Err(e) => Err(e),
        }
    }

    fn serialise(&self) -> (r: Result<Vec<u8>, ParserError>) {
        proof {
            lemma_pow256_widths();
        }
        let mut out = Vec::new();
        write_be(*self as u128, 1, &mut out);
        assert(out@ =~= be_encode(*self as nat, 1));
        Ok(out)
    }

    fn deserialise<'a>(input: &'a [u8]) -> (r: Result<(&'a [u8], u8), ParserError>) {
        proof {
            lemma_pow256_widths();
        }
        match read_be(input, 1) {
            Ok((n, rest)) => Ok((rest, n as u8)),
            Err(e) => Err(e),
        }
    }
}

impl ParseLaws for u8 {
    proof fn lemma_consumes(input: Seq<u8>) {
    }


    proof fn lemma_round_trip(v: u8, rest: Seq<u8>) {
        lemma_pow256_widths();
        lemma_be_round_trip(v as nat, 1, rest);
    }

    proof fn lemma_truncated(v: u8) {
        lemma_pow256_widths();
        lemma_be_round_trip(v as nat, 1, Seq::empty());
    }
}

impl Parse for u16 {
    type V = u16;

    open spec fn model(&self) -> u16 {
        *self
    }

    open spec fn spec_serialise(v: u16) -> Result<Seq<u8>, ParserError> {
        Ok(be_encode(v as nat, 2))
    }

    open spec fn spec_deserialise(input: Seq<u8>) -> Result<(u16, Seq<u8>), ParserError> {
        match spec_read(input, 2) {
            Ok((n, rest)) => Ok((n as u16, rest)),
            Err(e) => Err(e),
        }
    }

    fn serialise(&self) -> (r: Result<Vec<u8>, ParserError>) {
        proof {
            lemma_pow256_widths();
        }
        let mut out = Vec::new();
        write_be(*self as u128, 2, &mut out);
        assert(out@ =~= be_encode(*self as nat, 2));
        Ok(out)
    }

    fn deserialise<'a>(input: &'a [u8]) -> (r: Result<(&'a [u8], u16), ParserError>) {
        proof {
            lemma_pow256_widths();
        }
        match read_be(input, 2) {
            Ok((n, rest)) => Ok((rest, n as u16)),
            Err(e) => Err(e),
        }
    }
}

impl ParseLaws for u16 {
    proof fn lemma_consumes(input: Seq<u8>) {
    }


    proof fn lemma_round_trip(v: u16, rest: Seq<u8>) {
        lemma_pow256_widths();
        lemma_be_round_trip(v as nat, 2, rest);
    }

    proof fn lemma_truncated(v: u16) {
        lemma_pow256_widths();
        lemma_be_round_trip(v as nat, 2, Seq::empty());
    }
}

impl Parse for u32 {
    type V = u32;

    open spec fn model(&self) -> u32 {
        *self
    }

    open spec fn spec_serialise(v: u32) -> Result<Seq<u8>, ParserError> {
        Ok(be_encode(v as nat, 4))
    }

    open spec fn spec_deserialise(input: Seq<u8>) -> Result<(u32, Seq<u8>), ParserError> {
        match spec_read(input, 4) {
            Ok((n, rest)) => Ok((n as u32, rest)),
            Err(e) => Err(e),
        }
    }

    fn serialise(&self) -> (r: Result<Vec<u8>, ParserError>) {
        proof {
            lemma_pow256_widths();
        }
        let mut out = Vec::new();
        write_be(*self as u128, 4, &mut out);
        assert(out@ =~= be_encode(*self as nat, 4));
        Ok(out)
    }

    fn deserialise<'a>(input: &'a [u8]) -> (r: Result<(&'a [u8], u32), ParserError>) {
        proof {
            lemma_pow256_widths();
        }
        match read_be(input, 4) {
            Ok((n, rest)) => Ok((rest, n as u32)),
            Err(e) => Err(e),
        }
    }
}

impl ParseLaws for u32 {
    proof fn lemma_consumes(input: Seq<u8>) {
    }


    proof fn lemma_round_trip(v: u32, rest: Seq<u8>) {
        lemma_pow256_widths();
        lemma_be_round_trip(v as nat, 4, rest);
    }

    proof fn lemma_truncated(v: u32) {
        lemma_pow256_widths();
        lemma_be_round_trip(v as nat, 4, Seq::empty());
    }
}

impl Parse for u64 {
    type V = u64;

    open spec fn model(&self) -> u64 {
        *self
    }

    open spec fn spec_serialise(v: u64) -> Result<Seq<u8>, ParserError> {
        Ok(be_encode(v as nat, 8))
    }

    open spec fn spec_deserialise(input: Seq<u8>) -> Result<(u64, Seq<u8>), ParserError> {
        match spec_read(input, 8) {
            Ok((n, rest)) => Ok((n as u64, rest)),
            Err(e) => Err(e),
        }
    }

    fn serialise(&self) -> (r: Result<Vec<u8>, ParserError>) {
        proof {
            lemma_pow256_widths();
        }
        let mut out = Vec::new();
        write_be(*self as u128, 8, &mut out);
        assert(out@ =~= be_encode(*self as nat, 8));
        Ok(out)
    }

    fn deserialise<'a>(input: &'a [u8]) -> (r: Result<(&'a [u8], u64), ParserError>) {
        proof {
            lemma_pow256_widths();
        }
        match read_be(input, 8) {
            Ok((n, rest)) => Ok((rest, n as u64)),
            Err(e) => Err(e),
        }
    }
}

impl ParseLaws for u64 {
    proof fn lemma_consumes(input: Seq<u8>) {
    }


    proof fn lemma_round_trip(v: u64, rest: Seq<u8>) {
        lemma_pow256_widths();
        lemma_be_round_trip(v as nat, 8, rest);
    }

    proof fn lemma_truncated(v: u64) {
        lemma_pow256_widths();
        lemma_be_round_trip(v as nat, 8, Seq::empty());
    }
}

impl Parse for u128 {
    type V = u128;

    open spec fn model(&self) -> u128 {
        *self
    }

    open spec fn spec_serialise(v: u128) -> Result<Seq<u8>, ParserError> {
        Ok(be_encode(v as nat, 16))
    }

    open spec fn spec_deserialise(input: Seq<u8>) -> Result<(u128, Seq<u8>), ParserError> {
        match spec_read(input, 16) {
            Ok((n, rest)) => Ok((n as u128, rest)),
            Err(e) => Err(e),
        }
    }

    fn serialise(&self) -> (r: Result<Vec<u8>, ParserError>) {
        proof {
            lemma_pow256_widths();
        }
        let mut out = Vec::new();
        write_be(*self as u128, 16, &mut out);
        assert(out@ =~= be_encode(*self as nat, 16));
        Ok(out)
    }

    fn deserialise<'a>(input: &'a [u8]) -> (r: Result<(&'a [u8], u128), ParserError>) {
        proof {
            lemma_pow256_widths();
        }
        match read_be(input, 16) {
            Ok((n, rest)) => Ok((rest, n as u128)),
            Err(e) => Err(e),
        }
    }
}

impl ParseLaws for u128 {
    proof fn lemma_consumes(input: Seq<u8>) {
    }


    proof fn lemma_round_trip(v: u128, rest: Seq<u8>) {
        lemma_pow256_widths();
        lemma_be_round_trip(v as nat, 16, rest);
    }

    proof fn lemma_truncated(v: u128) {
        lemma_pow256_widths();
        lemma_be_round_trip(v as nat, 16, Seq::empty());
    }
}

impl Parse for i8 {
    type V = i8;

    open spec fn model(&self) -> i8 {
        *self
    }

    open spec fn spec_serialise(v: i8) -> Result<Seq<u8>, ParserError> {
        Ok(be_encode(to_unsigned(v as int, pow256(1)), 1))
    }

    open spec fn spec_deserialise(input: Seq<u8>) -> Result<(i8, Seq<u8>), ParserError> {
        match spec_read(input, 1) {
            Ok((n, rest)) => Ok((to_signed(n, pow256(1)) as i8, rest)),
            Err(e) => Err(e),
        }
    }

    fn serialise(&self) -> (r: Result<Vec<u8>, ParserError>) {
        proof {
            lemma_pow256_widths();
        }
        let u = signed_to_wire(*self as i128, 0xff);
        let mut out = Vec::new();
        write_be(u, 1, &mut out);
        assert(out@ =~= be_encode(to_unsigned(*self as int, pow256(1)), 1));
        Ok(out)
    }

    fn deserialise<'a>(input: &'a [u8]) -> (r: Result<(&'a [u8], i8), ParserError>) {
        proof {
            lemma_pow256_widths();
        }
        match read_be(input, 1) {
            Ok((n, rest)) => Ok((rest, wire_to_signed(n, 0xff) as i8)),
            Err(e) => Err(e),
        }
    }
}

impl ParseLaws for i8 {
    proof fn lemma_consumes(input: Seq<u8>) {
    }


    proof fn lemma_round_trip(v: i8, rest: Seq<u8>) {
        lemma_pow256_widths();
        lemma_be_round_trip(to_unsigned(v as int, pow256(1)), 1, rest);
    }

    proof fn lemma_truncated(v: i8) {
        lemma_pow256_widths();
        lemma_be_round_trip(to_unsigned(v as int, pow256(1)), 1, Seq::empty());
    }
}

impl Parse for i16 {
    type V = i16;

    open spec fn model(&self) -> i16 {
        *self
    }

    open spec fn spec_serialise(v: i16) -> Result<Seq<u8>, ParserError> {
        Ok(be_encode(to_unsigned(v as int, pow256(2)), 2))
    }

    open spec fn spec_deserialise(input: Seq<u8>) -> Result<(i16, Seq<u8>), ParserError> {
        match spec_read(input, 2) {
            Ok((n, rest)) => Ok((to_signed(n, pow256(2)) as i16, rest)),
            Err(e) => Err(e),
        }
    }

    fn serialise(&self) -> (r: Result<Vec<u8>, ParserError>) {
        proof {
            lemma_pow256_widths();
        }
        let u = signed_to_wire(*self as i128, 0xffff);
        let mut out = Vec::new();
        write_be(u, 2, &mut out);
        assert(out@ =~= be_encode(to_unsigned(*self as int, pow256(2)), 2));
        Ok(out)
    }

    fn deserialise<'a>(input: &'a [u8]) -> (r: Result<(&'a [u8], i16), ParserError>) {
        proof {
            lemma_pow256_widths();
        }
        match read_be(input, 2) {
            Ok((n, rest)) => Ok((rest, wire_to_signed(n, 0xffff) as i16)),
            Err(e) => Err(e),
        }
    }
}

impl ParseLaws for i16 {
    proof fn lemma_consumes(input: Seq<u8>) {
    }


    proof fn lemma_round_trip(v: i16, rest: Seq<u8>) {
        lemma_pow256_widths();
        lemma_be_round_trip(to_unsigned(v as int, pow256(2)), 2, rest);
    }

    proof fn lemma_truncated(v: i16) {
        lemma_pow256_widths();
        lemma_be_round_trip(to_unsigned(v as int, pow256(2)), 2, Seq::empty());
    }
}

impl Parse for i32 {
    type V = i32;

    open spec fn model(&self) -> i32 {
        *self
    }

    open spec fn spec_serialise(v: i32) -> Result<Seq<u8>, ParserError> {
        Ok(be_encode(to_unsigned(v as int, pow256(4)), 4))
    }

    open spec fn spec_deserialise(input: Seq<u8>) -> Result<(i32, Seq<u8>), ParserError> {
        match spec_read(input, 4) {
            Ok((n, rest)) => Ok((to_signed(n, pow256(4)) as i32, rest)),
            Err(e) => Err(e),
        }
    }

    fn serialise(&self) -> (r: Result<Vec<u8>, ParserError>) {
        proof {
            lemma_pow256_widths();
        }
        let u = signed_to_wire(*self as i128, 0xffff_ffff);
        let mut out = Vec::new();
        write_be(u, 4, &mut out);
        assert(out@ =~= be_encode(to_unsigned(*self as int, pow256(4)), 4));
        Ok(out)
    }

    fn deserialise<'a>(input: &'a [u8]) -> (r: Result<(&'a [u8], i32), ParserError>) {
        proof {
            lemma_pow256_widths();
        }
        match read_be(input, 4) {
            Ok((n, rest)) => Ok((rest, wire_to_signed(n, 0xffff_ffff) as i32)),
            Err(e) => Err(e),
        }
    }
}

impl ParseLaws for i32 {
    proof fn lemma_consumes(input: Seq<u8>) {
    }


    proof fn lemma_round_trip(v: i32, rest: Seq<u8>) {
        lemma_pow256_widths();
        lemma_be_round_trip(to_unsigned(v as int, pow256(4)), 4, rest);
    }

    proof fn lemma_truncated(v: i32) {
        lemma_pow256_widths();
        lemma_be_round_trip(to_unsigned(v as int, pow256(4)), 4, Seq::empty());
    }
}

impl Parse for i64 {
    type V = i64;

    open spec fn model(&self) -> i64 {
        *self
    }

    open spec fn spec_serialise(v: i64) -> Result<Seq<u8>, ParserError> {
        Ok(be_encode(to_unsigned(v as int, pow256(8)), 8))
    }

    open spec fn spec_deserialise(input: Seq<u8>) -> Result<(i64, Seq<u8>), ParserError> {
        match spec_read(input, 8) {
            Ok((n, rest)) => Ok((to_signed(n, pow256(8)) as i64, rest)),
            Err(e) => Err(e),
        }
    }

    fn serialise(&self) -> (r: Result<Vec<u8>, ParserError>) {
        proof {
            lemma_pow256_widths();
        }
        let u = signed_to_wire(*self as i128, 0xffff_ffff_ffff_ffff);
        let mut out = Vec::new();
        write_be(u, 8, &mut out);
        assert(out@ =~= be_encode(to_unsigned(*self as int, pow256(8)), 8));
        Ok(out)
    }

    fn deserialise<'a>(input: &'a [u8]) -> (r: Result<(&'a [u8], i64), ParserError>) {
        proof {
            lemma_pow256_widths();
        }
        match read_be(input, 8) {
            Ok((n, rest)) => Ok((rest, wire_to_signed(n, 0xffff_ffff_ffff_ffff) as i64)),
            Err(e) => Err(e),
        }
    }
}

impl ParseLaws for i64 {
    proof fn lemma_consumes(input: Seq<u8>) {
    }


    proof fn lemma_round_trip(v: i64, rest: Seq<u8>) {
        lemma_pow256_widths();
        lemma_be_round_trip(to_unsigned(v as int, pow256(8)), 8, rest);
    }

    proof fn lemma_truncated(v: i64) {
        lemma_pow256_widths();
        lemma_be_round_trip(to_unsigned(v as int, pow256(8)), 8, Seq::empty());
    }
}

impl Parse for i128 {
    type V = i128;

    open spec fn model(&self) -> i128 {
        *self
    }

    open spec fn spec_serialise(v: i128) -> Result<Seq<u8>, ParserError> {
        Ok(be_encode(to_unsigned(v as int, pow256(16)), 16))
    }

    open spec fn spec_deserialise(input: Seq<u8>) -> Result<(i128, Seq<u8>), ParserError> {
        match spec_read(input, 16) {
            Ok((n, rest)) => Ok((to_signed(n, pow256(16)) as i128, rest)),
            Err(e) => Err(e),
        }
    }

    fn serialise(&self) -> (r: Result<Vec<u8>, ParserError>) {
        proof {
            lemma_pow256_widths();
        }
        let u = signed_to_wire(*self as i128, u128::MAX);
        let mut out = Vec::new();
        write_be(u, 16, &mut out);
        assert(out@ =~= be_encode(to_unsigned(*self as int, pow256(16)), 16));
        Ok(out)
    }

    fn deserialise<'a>(input: &'a [u8]) -> (r: Result<(&'a [u8], i128), ParserError>) {
        proof {
            lemma_pow256_widths();
        }
        match read_be(input, 16) {
            Ok((n, rest)) => Ok((rest, wire_to_signed(n, u128::MAX) as i128)),
            Err(e) => Err(e),
        }
    }
}

impl ParseLaws for i128 {
    proof fn lemma_consumes(input: Seq<u8>) {
    }


    proof fn lemma_round_trip(v: i128, rest: Seq<u8>) {
        lemma_pow256_widths();
        lemma_be_round_trip(to_unsigned(v as int, pow256(16)), 16, rest);
    }

    proof fn lemma_truncated(v: i128) {
        lemma_pow256_widths();
        lemma_be_round_trip(to_unsigned(v as int, pow256(16)), 16, Seq::empty());
    }
}

} // verus!
