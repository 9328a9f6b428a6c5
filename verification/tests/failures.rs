use voting::processor::{apply, load};
use voting::{process_instruction, Failure, Identity, StorageRegion, VoteInstruction, VotingAccount};

fn owner() -> Identity {
    Identity { bytes: [1u8; 32] }
}

fn other() -> Identity {
    Identity { bytes: [2u8; 32] }
}

fn tally(a: u64, b: u64, c: u64, d: u64) -> VotingAccount {
    VotingAccount {
        is_initialized: true,
        option_a_votes: a,
        option_b_votes: b,
        option_c_votes: c,
        option_d_votes: d,
    }
}

fn run(region: &mut StorageRegion, instruction: &[u8]) -> Result<(), Failure> {
    let before = region.clone();
    let result = process_instruction(&owner(), region, instruction);
    if result.is_err() {
        assert_eq!(*region, before);
    }
    result
}

#[test]
fn incorrect_owner() {
    let mut region = StorageRegion { owner: other(), data: tally(1, 1, 1, 1).encode(), capacity: 33 };
    assert_eq!(run(&mut region, &[0]), Err(Failure::IncorrectOwner));
}

#[test]
fn decode_error_on_short_region() {
    let mut region = StorageRegion { owner: owner(), data: vec![1u8; 32], capacity: 33 };
    assert_eq!(run(&mut region, &[0]), Err(Failure::DecodeError));
    let mut one_byte = StorageRegion { owner: owner(), data: vec![1u8], capacity: 33 };
    assert_eq!(run(&mut one_byte, &[]), Err(Failure::DecodeError));
}

#[test]
fn decode_error_on_long_region() {
    let mut data = tally(1, 2, 3, 4).encode();
    data.push(0);
    let mut region = StorageRegion { owner: owner(), data, capacity: 64 };
    assert_eq!(run(&mut region, &[0]), Err(Failure::DecodeError));
}

#[test]
fn decode_error_on_bad_flag() {
    for flag in [2u8, 3, 128, 255] {
        let mut data = tally(1, 2, 3, 4).encode();
        data[0] = flag;
        assert_eq!(VotingAccount::decode(&data), Err(Failure::DecodeError));
        let mut region = StorageRegion { owner: owner(), data, capacity: 33 };
        assert_eq!(run(&mut region, &[]), Err(Failure::DecodeError));
    }
}

#[test]
fn decode_error_on_long_instruction() {
    let mut region = StorageRegion { owner: owner(), data: tally(1, 2, 3, 4).encode(), capacity: 33 };
    assert_eq!(run(&mut region, &[0, 0]), Err(Failure::DecodeError));
    assert_eq!(run(&mut region, &[1, 2, 3]), Err(Failure::DecodeError));
    assert_eq!(VoteInstruction::decode(&[]), Err(Failure::DecodeError));
    assert_eq!(VoteInstruction::decode(&[0, 0]), Err(Failure::DecodeError));
}

#[test]
fn invalid_option() {
    let mut region = StorageRegion { owner: owner(), data: tally(0, 0, 0, 0).encode(), capacity: 33 };
    assert_eq!(run(&mut region, &[4]), Err(Failure::InvalidOption));
    assert_eq!(run(&mut region, &[255]), Err(Failure::InvalidOption));
}

#[test]
fn buffer_too_small() {
    for capacity in [0usize, 1, 32] {
        let mut region = StorageRegion::new(owner(), capacity);
        assert_eq!(run(&mut region, &[]), Err(Failure::BufferTooSmall));
        assert_eq!(run(&mut region, &[2]), Err(Failure::BufferTooSmall));
        assert!(region.data.is_empty());
    }
    let mut exact = StorageRegion::new(owner(), 33);
    assert_eq!(run(&mut exact, &[2]), Ok(()));
    let mut roomy = StorageRegion::new(owner(), 1000);
    assert_eq!(run(&mut roomy, &[2]), Ok(()));
    assert_eq!(roomy.data, exact.data);
    assert_eq!(roomy.data.len(), 33);
}

#[test]
fn overflow() {
    let full = u64::MAX;
    let stored = [tally(full, 0, 0, 0), tally(0, full, 0, 0), tally(0, 0, full, 0), tally(0, 0, 0, full)];
    for option in 0u8..4 {
        let record = stored[option as usize];
        let mut region = StorageRegion { owner: owner(), data: record.encode(), capacity: 33 };
        assert_eq!(run(&mut region, &[option]), Err(Failure::Overflow));
        assert_eq!(region.data, record.encode());
        let neighbour = (option + 1) % 4;
        assert_eq!(run(&mut region, &[neighbour]), Ok(()));
    }
}

#[test]
fn counter_reaches_its_maximum() {
    let mut record = tally(u64::MAX - 1, 0, 0, 0);
    assert_eq!(record.cast_vote(0), Ok(()));
    assert_eq!(record, tally(u64::MAX, 0, 0, 0));
    assert_eq!(record.cast_vote(0), Err(Failure::Overflow));
    assert_eq!(record, tally(u64::MAX, 0, 0, 0));
}

#[test]
fn owner_is_checked_first() {
    let mut garbage = StorageRegion { owner: other(), data: vec![9u8; 5], capacity: 0 };
    assert_eq!(run(&mut garbage, &[9, 9]), Err(Failure::IncorrectOwner));
}

#[test]
fn stored_bytes_are_checked_before_instruction() {
    let mut garbage = StorageRegion { owner: owner(), data: vec![9u8; 5], capacity: 5 };
    assert_eq!(run(&mut garbage, &[9]), Err(Failure::DecodeError));
}

#[test]
fn instruction_is_checked_before_room() {
    let mut region = StorageRegion::new(owner(), 0);
    assert_eq!(run(&mut region, &[9]), Err(Failure::InvalidOption));
    assert_eq!(run(&mut region, &[1, 1]), Err(Failure::DecodeError));
}

#[test]
fn load_of_contents() {
    assert_eq!(load(&[]), Ok(tally(0, 0, 0, 0)));
    assert_eq!(load(&tally(3, 2, 1, 0).encode()), Ok(tally(3, 2, 1, 0)));
    assert_eq!(load(&[1]), Err(Failure::DecodeError));
}

#[test]
fn apply_of_instruction_bytes() {
    let mut record = tally(3, 2, 1, 0);
    assert_eq!(apply(&mut record, &[]), Ok(()));
    assert_eq!(record, tally(3, 2, 1, 0));
    assert_eq!(apply(&mut record, &[3]), Ok(()));
    assert_eq!(record, tally(3, 2, 1, 1));
    assert_eq!(apply(&mut record, &[4]), Err(Failure::InvalidOption));
    assert_eq!(apply(&mut record, &[0, 0]), Err(Failure::DecodeError));
    assert_eq!(record, tally(3, 2, 1, 1));
}

#[test]
fn store_replaces_or_refuses() {
    let mut region = StorageRegion::new(owner(), 4);
    assert_eq!(region.store(vec![1, 2, 3, 4]), Ok(()));
    assert_eq!(region.data, vec![1, 2, 3, 4]);
    assert_eq!(region.store(vec![5, 6, 7, 8, 9]), Err(Failure::BufferTooSmall));
    assert_eq!(region.data, vec![1, 2, 3, 4]);
    assert_eq!(region.store(vec![]), Ok(()));
    assert!(region.data.is_empty());
    assert_eq!(region.capacity, 4);
    assert_eq!(region.owner, owner());
}

#[test]
fn identities_are_equal_by_bytes() {
    let mut bytes = [0u8; 32];
    for (at, byte) in bytes.iter_mut().enumerate() {
        *byte = at as u8;
    }
    let left = Identity { bytes };
    let right = Identity { bytes };
    assert!(left == right);
    assert!(!(left != right));
    for at in 0..32 {
        let mut changed = bytes;
        changed[at] ^= 1;
        assert!(left != Identity { bytes: changed });
        assert!(!(left == Identity { bytes: changed }));
    }
    assert!(owner() != other());
}
