//! The tally record and its 33-byte layout.

use crate::error::Failure;
use crate::wire::{
    lemma_digits_of_value, lemma_le_digits_len, lemma_le_value_bound, lemma_radix_pow_8,
    lemma_value_of_digits, le_value, push_u64_le, read_u64_le, u64_le,
};
use vstd::prelude::*;

verus! {

/// The length in bytes of an encoded tally: one flag byte and four counters
/// of eight bytes each.
pub const ENCODED_LEN: usize = 33;

/// The votes recorded so far for each of the four options.
#[derive(Debug, Clone, Copy, PartialEq, Eq, Structural)]
pub struct VotingAccount {
    /// True once the record has been created.
    pub is_initialized: bool,
    /// Votes for option 0.
    pub option_a_votes: u64,
    /// Votes for option 1.
    pub option_b_votes: u64,
    /// Votes for option 2.
    pub option_c_votes: u64,
    /// Votes for option 3.
    pub option_d_votes: u64,
}

/// The byte that stands for a flag: 1 for true, 0 for false.
pub open spec fn flag_byte(flag: bool) -> u8 {
    if flag {
        1
    } else {
        0
    }
}

impl VotingAccount {
    /// The record as it is born: initialized, with no vote for any option.
    pub open spec fn fresh() -> VotingAccount {
        VotingAccount {
            is_initialized: true,
            option_a_votes: 0,
            option_b_votes: 0,
            option_c_votes: 0,
            option_d_votes: 0,
        }
    }

    /// The four counters in the order of their options.
    pub open spec fn tally(self) -> Seq<nat> {
        seq![
            self.option_a_votes as nat,
            self.option_b_votes as nat,
            self.option_c_votes as nat,
            self.option_d_votes as nat,
        ]
    }

    /// The record with the given flag and the given four counters, each of
    /// which fits in 64 bits.
    pub open spec fn from_tally(is_initialized: bool, tally: Seq<nat>) -> VotingAccount
        recommends
            tally.len() == 4,
            forall|k: int| 0 <= k < 4 ==> tally[k] <= u64::MAX,
    {
        VotingAccount {
            is_initialized,
            option_a_votes: tally[0] as u64,
            option_b_votes: tally[1] as u64,
            option_c_votes: tally[2] as u64,
            option_d_votes: tally[3] as u64,
        }
    }

    /// The 33 bytes that stand for the record: the flag, then the counters
    /// of options 0 to 3, each little-endian.
    pub open spec fn encoding(self) -> Seq<u8> {
        seq![flag_byte(self.is_initialized)] + u64_le(self.option_a_votes) + u64_le(
            self.option_b_votes,
        ) + u64_le(self.option_c_votes) + u64_le(self.option_d_votes)
    }

    /// Whether `bytes` is the encoding of some record: 33 bytes, the first
    /// of which is 0 or 1.
    pub open spec fn well_formed(bytes: Seq<u8>) -> bool {
        bytes.len() == ENCODED_LEN && bytes[0] <= 1
    }

    /// The record that `bytes` stands for, if it stands for one.
    pub open spec fn decoding(bytes: Seq<u8>) -> Option<VotingAccount> {
        if Self::well_formed(bytes) {
            Some(
                VotingAccount {
                    is_initialized: bytes[0] == 1,
                    option_a_votes: le_value(bytes.subrange(1, 9)) as u64,
                    option_b_votes: le_value(bytes.subrange(9, 17)) as u64,
                    option_c_votes: le_value(bytes.subrange(17, 25)) as u64,
                    option_d_votes: le_value(bytes.subrange(25, 33)) as u64,
                },
            )
        } else {
            None
        }
    }

    /// What recording one vote for `option` makes of the record: the counter
    /// of that option goes up by one and nothing else changes. An option
    /// above 3 is refused, and so is a vote that the counter cannot hold.
    pub open spec fn voted(self, option: u8) -> Result<VotingAccount, Failure> {
        if option > 3 {
            Err(Failure::InvalidOption)
        } else if self.tally()[option as int] >= u64::MAX {
            Err(Failure::Overflow)
        } else {
            Ok(
                Self::from_tally(
                    self.is_initialized,
                    self.tally().update(option as int, self.tally()[option as int] + 1),
                ),
            )
        }
    }

    /// Creates the record as it is born.
    pub fn new() -> (record: VotingAccount)
        ensures
            record == Self::fresh(),
    {
        VotingAccount {
            is_initialized: true,
            option_a_votes: 0,
            option_b_votes: 0,
            option_c_votes: 0,
            option_d_votes: 0,
        }
    }

    /// Encodes the record in its 33-byte layout.
    pub fn encode(&self) -> (out: Vec<u8>)
        ensures
            out@ == self.encoding(),
    {
        let mut out: Vec<u8> = Vec::with_capacity(ENCODED_LEN);
        out.push(if self.is_initialized { 1u8 } else { 0u8 });
        assert(out@ =~= seq![flag_byte(self.is_initialized)]);
        push_u64_le(&mut out, self.option_a_votes);
        push_u64_le(&mut out, self.option_b_votes);
        push_u64_le(&mut out, self.option_c_votes);
        push_u64_le(&mut out, self.option_d_votes);
        out
    }

    /// Decodes a record from its 33-byte layout. Any other length, and any
    /// first byte but 0 and 1, is a `DecodeError`.
    pub fn decode(bytes: &[u8]) -> (result: Result<VotingAccount, Failure>)
        ensures
            match Self::decoding(bytes@) {
                Some(record) => result == Ok::<VotingAccount, Failure>(record),
                None => result == Err::<VotingAccount, Failure>(Failure::DecodeError),
            },
    {
        if bytes.len() != ENCODED_LEN {
            return Err(Failure::DecodeError);
        }
        let flag: u8 = bytes[0];
        if flag > 1 {
            return Err(Failure::DecodeError);
        }
        Ok(
            VotingAccount {
                is_initialized: flag == 1,
                option_a_votes: read_u64_le(bytes, 1),
                option_b_votes: read_u64_le(bytes, 9),
                option_c_votes: read_u64_le(bytes, 17),
                option_d_votes: read_u64_le(bytes, 25),
            },
        )
    }

    /// Records one vote for `option`. On a refusal the record is unchanged.
    pub fn cast_vote(&mut self, option: u8) -> (result: Result<(), Failure>)
        ensures
            match old(self).voted(option) {
                Ok(next) => result is Ok && *final(self) == next,
                Err(failure) => result == Err::<(), Failure>(failure) && *final(self) == *old(
                    self,
                ),
            },
    {
        let counter: u64 = match option {
            0 => self.option_a_votes,
            1 => self.option_b_votes,
            2 => self.option_c_votes,
            3 => self.option_d_votes,
            _ => { return Err(Failure::InvalidOption); },
        };
        let raised: u64 = match counter.checked_add(1) {
            Some(raised) => raised,
            None => { return Err(Failure::Overflow); },
        };
        match option {
            0 => { self.option_a_votes = raised; },
            1 => { self.option_b_votes = raised; },
            2 => { self.option_c_votes = raised; },
            _ => { self.option_d_votes = raised; },
        }
        Ok(())
    }
}

/// Decoding what a record encodes to gives the record back.
pub proof fn lemma_decode_encode(record: VotingAccount)
    ensures
        record.encoding().len() == ENCODED_LEN,
        VotingAccount::decoding(record.encoding()) == Some(record),
{
    let a = record.option_a_votes;
    let b = record.option_b_votes;
    let c = record.option_c_votes;
    let d = record.option_d_votes;
    let bytes = record.encoding();
    lemma_le_digits_len(a as nat, 8);
    lemma_le_digits_len(b as nat, 8);
    lemma_le_digits_len(c as nat, 8);
    lemma_le_digits_len(d as nat, 8);
    assert(bytes.subrange(1, 9) =~= u64_le(a));
    assert(bytes.subrange(9, 17) =~= u64_le(b));
    assert(bytes.subrange(17, 25) =~= u64_le(c));
    assert(bytes.subrange(25, 33) =~= u64_le(d));
    lemma_radix_pow_8();
    lemma_value_of_digits(a as nat, 8);
    lemma_value_of_digits(b as nat, 8);
    lemma_value_of_digits(c as nat, 8);
    lemma_value_of_digits(d as nat, 8);
}

/// Encoding what a well-formed byte string decodes to gives the bytes back.
pub proof fn lemma_encode_decode(bytes: Seq<u8>)
    requires
        VotingAccount::well_formed(bytes),
    ensures
        VotingAccount::decoding(bytes) is Some,
        VotingAccount::decoding(bytes).unwrap().encoding() == bytes,
{
    let record = VotingAccount::decoding(bytes).unwrap();
    let a = bytes.subrange(1, 9);
    let b = bytes.subrange(9, 17);
    let c = bytes.subrange(17, 25);
    let d = bytes.subrange(25, 33);
    lemma_radix_pow_8();
    lemma_le_value_bound(a);
    lemma_le_value_bound(b);
    lemma_le_value_bound(c);
    lemma_le_value_bound(d);
    lemma_digits_of_value(a);
    lemma_digits_of_value(b);
    lemma_digits_of_value(c);
    lemma_digits_of_value(d);
    assert(record.encoding() =~= bytes);
}

/// A vote for a valid option whose counter can still grow changes that
/// counter by exactly one and leaves the flag and the other counters as
/// they were.
pub proof fn lemma_vote_increments_one_counter(record: VotingAccount, option: u8)
    requires
        option <= 3,
        record.tally()[option as int] < u64::MAX,
    ensures
        record.voted(option) is Ok,
        record.voted(option).unwrap().is_initialized == record.is_initialized,
        record.voted(option).unwrap().tally() == record.tally().update(
            option as int,
            record.tally()[option as int] + 1,
        ),
        forall|k: int|
            0 <= k < 4 && k != option ==> record.voted(option).unwrap().tally()[k]
                == record.tally()[k],
{
    let next = record.voted(option).unwrap();
    assert(next.tally() =~= record.tally().update(
        option as int,
        record.tally()[option as int] + 1,
    ));
}

} // verus!
