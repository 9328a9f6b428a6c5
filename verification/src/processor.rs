//! The state transition: one invocation on one storage region.

use crate::error::Failure;
use crate::instruction::VoteInstruction;
use crate::region::{Identity, RegionView, StorageRegion};
use crate::state::{lemma_decode_encode, VotingAccount, ENCODED_LEN};
use vstd::prelude::*;

verus! {

/// The record that a region with contents `data` holds: a fresh one where
/// the region was never written, else the one that the contents decode to,
/// if any.
pub open spec fn loaded(data: Seq<u8>) -> Option<VotingAccount> {
    if data.len() == 0 {
        Some(VotingAccount::fresh())
    } else {
        VotingAccount::decoding(data)
    }
}

/// What the instruction bytes make of a record: nothing where there are
/// none, else the vote that they decode to, recorded.
pub open spec fn applied(record: VotingAccount, instruction: Seq<u8>) -> Result<
    VotingAccount,
    Failure,
> {
    if instruction.len() == 0 {
        Ok(record)
    } else {
        match VoteInstruction::decoding(instruction) {
            Some(vote) => record.voted(vote.option),
            None => Err(Failure::DecodeError),
        }
    }
}

/// One invocation as a function: the region that it leaves and its result,
/// from the identity expected to own the region, the region and the
/// instruction bytes. The checks come in a fixed order (owner, stored bytes,
/// instruction, room for the 33 bytes of the record), the first that fails
/// decides the failure, and every failure leaves the region as it was.
pub open spec fn step(program_id: Seq<u8>, region: RegionView, instruction: Seq<u8>) -> (
    RegionView,
    Result<(), Failure>,
) {
    if region.owner != program_id {
        (region, Err(Failure::IncorrectOwner))
    } else {
        match loaded(region.data) {
            None => (region, Err(Failure::DecodeError)),
            Some(record) => match applied(record, instruction) {
                Err(failure) => (region, Err(failure)),
                Ok(next) => if region.capacity < ENCODED_LEN {
                    (region, Err(Failure::BufferTooSmall))
                } else {
                    (RegionView { data: next.encoding(), ..region }, Ok(()))
                },
            },
        }
    }
}

/// Loads the record that a region with contents `data` holds.
pub fn load(data: &[u8]) -> (result: Result<VotingAccount, Failure>)
    ensures
        match loaded(data@) {
            Some(record) => result == Ok::<VotingAccount, Failure>(record),
            None => result == Err::<VotingAccount, Failure>(Failure::DecodeError),
        },
{
    if data.len() == 0 {
        Ok(VotingAccount::new())
    } else {
        VotingAccount::decode(data)
    }
}

/// Applies the instruction bytes to the record. On a refusal the record is
/// unchanged.
pub fn apply(record: &mut VotingAccount, instruction_data: &[u8]) -> (result: Result<(), Failure>)
    ensures
        match applied(*old(record), instruction_data@) {
            Ok(next) => result is Ok && *final(record) == next,
            Err(failure) => result == Err::<(), Failure>(failure) && *final(record) == *old(
                record,
            ),
        },
{
    if instruction_data.len() == 0 {
        return Ok(());
    }
    match VoteInstruction::decode(instruction_data) {
        Ok(vote) => record.cast_vote(vote.option),
        Err(failure) => Err(failure),
    }
}

/// Runs one invocation on `region`: checks that `program_id` owns it, loads
/// or starts the tally, records the vote that `instruction_data` holds, if
/// any, and writes the tally back. On a failure the region is unchanged.
pub fn process_instruction(
    program_id: &Identity,
    region: &mut StorageRegion,
    instruction_data: &[u8],
) -> (result: Result<(), Failure>)
    ensures
        final(region)@ == step(program_id@, old(region)@, instruction_data@).0,
        result == step(program_id@, old(region)@, instruction_data@).1,
        result is Err ==> final(region)@ == old(region)@,
        final(region)@.owner == old(region)@.owner,
        final(region)@.capacity == old(region)@.capacity,
        old(region)@.wf() ==> final(region)@.wf(),
{
    if region.owner != *program_id {
        return Err(Failure::IncorrectOwner);
    }
    let mut record: VotingAccount = match load(region.data.as_slice()) {
        Ok(record) => record,
        Err(failure) => { return Err(failure); },
    };
    match apply(&mut record, instruction_data) {
        Ok(()) => {},
        Err(failure) => { return Err(failure); },
    }
    proof {
        lemma_decode_encode(record);
    }
    region.store(record.encode())
}

/// A failed invocation leaves the region exactly as it was.
pub proof fn lemma_failure_leaves_region(
    program_id: Seq<u8>,
    region: RegionView,
    instruction: Seq<u8>,
)
    requires
        step(program_id, region, instruction).1 is Err,
    ensures
        step(program_id, region, instruction).0 == region,
{
}

/// A first call, on a region that was never written and with no
/// instruction, leaves a record that is initialized and has all four
/// counters at zero, provided that the caller owns the region and that the
/// region has room for the record.
pub proof fn lemma_first_call_initializes(program_id: Seq<u8>, region: RegionView)
    requires
        region.owner == program_id,
        region.data.len() == 0,
        region.capacity >= ENCODED_LEN,
    ensures
        step(program_id, region, Seq::empty()).1 is Ok,
        step(program_id, region, Seq::empty()).0 == (RegionView {
            data: VotingAccount::fresh().encoding(),
            ..region
        }),
        loaded(step(program_id, region, Seq::empty()).0.data) == Some(VotingAccount::fresh()),
{
    lemma_decode_encode(VotingAccount::fresh());
}

/// On a region of the caller's that holds the record `record`, a vote for a
/// valid option whose counter can still grow succeeds and leaves a record
/// that differs from `record` in that one counter alone, which is one
/// higher.
pub proof fn lemma_step_records_vote(
    program_id: Seq<u8>,
    region: RegionView,
    record: VotingAccount,
    option: u8,
)
    requires
        region.wf(),
        region.owner == program_id,
        region.data == record.encoding(),
        option <= 3,
        record.tally()[option as int] < u64::MAX,
    ensures
        step(program_id, region, seq![option]).1 is Ok,
        loaded(step(program_id, region, seq![option]).0.data) == record.voted(option).ok(),
        record.voted(option).unwrap().is_initialized == record.is_initialized,
        record.voted(option).unwrap().tally() == record.tally().update(
            option as int,
            record.tally()[option as int] + 1,
        ),
{
    let next = record.voted(option).unwrap();
    lemma_decode_encode(record);
    lemma_decode_encode(next);
    assert(next.tally() =~= record.tally().update(
        option as int,
        record.tally()[option as int] + 1,
    ));
}

/// An instruction that names an option other than 0, 1, 2 and 3 makes the
/// invocation fail, and the region keeps its bytes. Where the caller owns
/// the region and the region holds a record, the failure is `InvalidOption`.
pub proof fn lemma_invalid_option_leaves_region(
    program_id: Seq<u8>,
    region: RegionView,
    option: u8,
)
    requires
        option > 3,
    ensures
        step(program_id, region, seq![option]).1 is Err,
        step(program_id, region, seq![option]).0 == region,
        region.owner == program_id && loaded(region.data) is Some ==> step(
            program_id,
            region,
            seq![option],
        ).1 == Err::<(), Failure>(Failure::InvalidOption),
{
}

/// On a region that another identity owns, the invocation fails with
/// `IncorrectOwner` and the region keeps its bytes, whatever the instruction.
pub proof fn lemma_owner_mismatch_leaves_region(
    program_id: Seq<u8>,
    region: RegionView,
    instruction: Seq<u8>,
)
    requires
        region.owner != program_id,
    ensures
        step(program_id, region, instruction) == (
            region,
            Err::<(), Failure>(Failure::IncorrectOwner),
        ),
{
}

/// Over one successful invocation no counter goes down: either the record
/// that the region holds stays as it is, or exactly one counter goes up by
/// one. The flag stays as it is, and the region afterwards holds no more
/// bytes than it can hold.
pub proof fn lemma_counters_only_grow(
    program_id: Seq<u8>,
    region: RegionView,
    instruction: Seq<u8>,
)
    requires
        step(program_id, region, instruction).1 is Ok,
    ensures
        loaded(region.data) is Some,
        loaded(step(program_id, region, instruction).0.data) is Some,
        step(program_id, region, instruction).0.wf(),
        ({
            let before = loaded(region.data).unwrap();
            let after = loaded(step(program_id, region, instruction).0.data).unwrap();
            &&& after.is_initialized == before.is_initialized
            &&& forall|k: int| 0 <= k < 4 ==> after.tally()[k] >= before.tally()[k]
            &&& after == before || exists|k: int|
                0 <= k < 4 && after.tally() == #[trigger] before.tally().update(
                    k,
                    before.tally()[k] + 1,
                )
        }),
{
    let before = loaded(region.data).unwrap();
    let next = applied(before, instruction).unwrap();
    lemma_decode_encode(next);
    if instruction.len() != 0 {
        let option = VoteInstruction::decoding(instruction).unwrap().option;
        assert(next.tally() =~= before.tally().update(
            option as int,
            before.tally()[option as int] + 1,
        ));
    }
}

} // verus!
