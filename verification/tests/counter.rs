use simple_solana_program::error::CounterError;
use simple_solana_program::instruction::CounterInstruction;
use simple_solana_program::processor::AccountRef;
use simple_solana_program::processor::process_instruction;
use simple_solana_program::state::CounterAccount;
use simple_solana_program::state::RECORD_WIDTH;

const PROGRAM_ID: [u8; 32] = [42u8; 32];
const INITIALIZE: [u8; 1] = [0u8];
const INCREMENT: [u8; 1] = [1u8];
const DECREMENT: [u8; 1] = [2u8];

fn rent_minimum_balance() -> u64 {
    solana_program::rent::Rent::default().minimum_balance(RECORD_WIDTH)
}

fn payer(id_byte: u8) -> AccountRef {
    AccountRef {
        id: [id_byte; 32],
        is_signer: true,
        owner: [0u8; 32],
        lamports: 1_000_000_000,
        data: Vec::new(),
    }
}

fn fresh_counter() -> AccountRef {
    AccountRef {
        id: [99u8; 32],
        is_signer: false,
        owner: PROGRAM_ID,
        lamports: rent_minimum_balance(),
        data: vec![0u8; RECORD_WIDTH],
    }
}

fn initialized_accounts(payer_byte: u8) -> Vec<AccountRef> {
    let mut accounts = vec![payer(payer_byte), fresh_counter()];
    process_instruction(&PROGRAM_ID, &mut accounts, &INITIALIZE, rent_minimum_balance())
        .expect("initialize should succeed");
    accounts
}

#[test]
fn test_initialize_counter() {
    let mut accounts = vec![payer(7), fresh_counter()];
    assert!(process_instruction(&PROGRAM_ID, &mut accounts, &INITIALIZE, rent_minimum_balance())
        .is_ok());

    let counter_data = CounterAccount::try_from_slice(&accounts[1].data).unwrap();
    assert_eq!(counter_data.count, 0);
    assert_eq!(counter_data.authority, [7u8; 32]);
}

#[test]
fn test_increment_counter() {
    let mut accounts = initialized_accounts(7);

    assert!(process_instruction(&PROGRAM_ID, &mut accounts, &INCREMENT, rent_minimum_balance())
        .is_ok());

    let counter_data = CounterAccount::try_from_slice(&accounts[1].data).unwrap();
    assert_eq!(counter_data.count, 1);
}

#[test]
fn test_decrement_counter() {
    let mut accounts = initialized_accounts(7);
    process_instruction(&PROGRAM_ID, &mut accounts, &INCREMENT, rent_minimum_balance())
        .expect("increment should succeed");

    assert!(process_instruction(&PROGRAM_ID, &mut accounts, &DECREMENT, rent_minimum_balance())
        .is_ok());

    let counter_data = CounterAccount::try_from_slice(&accounts[1].data).unwrap();
    assert_eq!(counter_data.count, 0);
}

#[test]
fn test_unauthorized_access() {
    let mut accounts = initialized_accounts(7);
    let before = accounts[1].data.clone();

    // Sign with an identity other than the stored authority.
    accounts[0] = payer(8);
    assert!(process_instruction(&PROGRAM_ID, &mut accounts, &INCREMENT, rent_minimum_balance())
        .is_err());
    assert_eq!(
        process_instruction(&PROGRAM_ID, &mut accounts, &INCREMENT, rent_minimum_balance()),
        Err(CounterError::AuthorityMismatch)
    );
    assert_eq!(accounts[1].data, before);
}

#[test]
fn decode_recognizes_the_three_tags() {
    assert_eq!(
        CounterInstruction::try_from_slice(&[0]),
        Ok(CounterInstruction::Initialize)
    );
    assert_eq!(
        CounterInstruction::try_from_slice(&[1]),
        Ok(CounterInstruction::Increment)
    );
    assert_eq!(
        CounterInstruction::try_from_slice(&[2]),
        Ok(CounterInstruction::Decrement)
    );
}

#[test]
fn decode_rejects_malformed_bytes() {
    assert_eq!(
        CounterInstruction::try_from_slice(&[]),
        Err(CounterError::MalformedInstruction)
    );
    assert_eq!(
        CounterInstruction::try_from_slice(&[3]),
        Err(CounterError::MalformedInstruction)
    );
    assert_eq!(
        CounterInstruction::try_from_slice(&[0, 0]),
        Err(CounterError::MalformedInstruction)
    );
}

#[test]
fn record_round_trips_through_the_codec() {
    let record = CounterAccount {
        count: 0x0102030405060708,
        authority: [9u8; 32],
    };
    let mut buffer = vec![0u8; RECORD_WIDTH];
    record.serialize_into(&mut buffer);
    let back = CounterAccount::try_from_slice(&buffer).unwrap();
    assert_eq!(back, record);
}

#[test]
fn record_encoding_is_little_endian_count_then_authority() {
    let record = CounterAccount {
        count: 0x0102030405060708,
        authority: [9u8; 32],
    };
    let mut buffer = vec![0u8; RECORD_WIDTH];
    record.serialize_into(&mut buffer);
    assert_eq!(&buffer[0..8], &[8, 7, 6, 5, 4, 3, 2, 1]);
    assert_eq!(&buffer[8..40], &[9u8; 32]);
}

#[test]
fn record_encoding_agrees_with_borsh() {
    let record = CounterAccount {
        count: 123_456_789_012_345,
        authority: [250u8; 32],
    };
    let mut buffer = vec![0u8; RECORD_WIDTH];
    record.serialize_into(&mut buffer);

    let borsh_bytes = borsh::to_vec(&(record.count, record.authority)).unwrap();
    assert_eq!(buffer, borsh_bytes);

    let (count, authority): (u64, [u8; 32]) = borsh::from_slice(&buffer).unwrap();
    assert_eq!(count, record.count);
    assert_eq!(authority, record.authority);
}

#[test]
fn serialize_preserves_buffer_length_and_tail() {
    let record = CounterAccount {
        count: 5,
        authority: [1u8; 32],
    };
    let mut buffer = vec![0u8; RECORD_WIDTH + 8];
    for (i, byte) in buffer.iter_mut().enumerate().skip(RECORD_WIDTH) {
        *byte = i as u8;
    }
    let tail: Vec<u8> = buffer[RECORD_WIDTH..].to_vec();
    record.serialize_into(&mut buffer);
    assert_eq!(buffer.len(), RECORD_WIDTH + 8);
    assert_eq!(&buffer[RECORD_WIDTH..], &tail[..]);
}

#[test]
fn initialize_fails_without_two_accounts() {
    let mut accounts = vec![payer(7)];
    assert_eq!(
        process_instruction(&PROGRAM_ID, &mut accounts, &INITIALIZE, rent_minimum_balance()),
        Err(CounterError::NotEnoughAccounts)
    );
}

#[test]
fn initialize_fails_without_signature() {
    let mut unsigned = payer(7);
    unsigned.is_signer = false;
    let mut accounts = vec![unsigned, fresh_counter()];
    assert_eq!(
        process_instruction(&PROGRAM_ID, &mut accounts, &INITIALIZE, rent_minimum_balance()),
        Err(CounterError::MissingSignature)
    );
    assert_eq!(accounts[1].data, vec![0u8; RECORD_WIDTH]);
}

#[test]
fn initialize_fails_on_foreign_owner() {
    let mut counter = fresh_counter();
    counter.owner = [1u8; 32];
    let mut accounts = vec![payer(7), counter];
    assert_eq!(
        process_instruction(&PROGRAM_ID, &mut accounts, &INITIALIZE, rent_minimum_balance()),
        Err(CounterError::WrongOwner)
    );
}

#[test]
fn initialize_fails_when_already_initialized() {
    let mut accounts = initialized_accounts(7);
    let before = accounts[1].data.clone();
    assert_eq!(
        process_instruction(&PROGRAM_ID, &mut accounts, &INITIALIZE, rent_minimum_balance()),
        Err(CounterError::AlreadyInitialized)
    );
    assert_eq!(accounts[1].data, before);
}

#[test]
fn initialize_fails_on_short_buffer() {
    let mut counter = fresh_counter();
    counter.data = vec![0u8; RECORD_WIDTH - 1];
    let mut accounts = vec![payer(7), counter];
    assert_eq!(
        process_instruction(&PROGRAM_ID, &mut accounts, &INITIALIZE, rent_minimum_balance()),
        Err(CounterError::BufferTooSmall)
    );
}

#[test]
fn initialize_fails_below_rent_exemption() {
    let mut counter = fresh_counter();
    counter.lamports = rent_minimum_balance() - 1;
    let mut accounts = vec![payer(7), counter];
    assert_eq!(
        process_instruction(&PROGRAM_ID, &mut accounts, &INITIALIZE, rent_minimum_balance()),
        Err(CounterError::NotRentExempt)
    );
    // The buffer is left empty of any record.
    assert_eq!(accounts[1].data, vec![0u8; RECORD_WIDTH]);
}

#[test]
fn initialize_ignores_the_tail_of_a_larger_buffer() {
    let mut counter = fresh_counter();
    counter.data = vec![0u8; RECORD_WIDTH + 4];
    let mut accounts = vec![payer(7), counter];
    assert!(process_instruction(&PROGRAM_ID, &mut accounts, &INITIALIZE, rent_minimum_balance())
        .is_ok());
    let counter_data = CounterAccount::try_from_slice(&accounts[1].data).unwrap();
    assert_eq!(counter_data.count, 0);
    assert_eq!(accounts[1].data.len(), RECORD_WIDTH + 4);
    assert_eq!(&accounts[1].data[RECORD_WIDTH..], &[0u8; 4]);
}

#[test]
fn step_fails_without_signature_on_any_buffer() {
    let mut accounts = initialized_accounts(7);
    accounts[0].is_signer = false;
    let before = accounts[1].data.clone();
    assert_eq!(
        process_instruction(&PROGRAM_ID, &mut accounts, &INCREMENT, rent_minimum_balance()),
        Err(CounterError::MissingSignature)
    );
    // The signature is checked before the record is even decoded.
    accounts[1].data = vec![1u8; 3];
    assert_eq!(
        process_instruction(&PROGRAM_ID, &mut accounts, &DECREMENT, rent_minimum_balance()),
        Err(CounterError::MissingSignature)
    );
    accounts[1].data = before.clone();
    accounts[0].is_signer = true;
    assert!(process_instruction(&PROGRAM_ID, &mut accounts, &INCREMENT, rent_minimum_balance())
        .is_ok());
}

#[test]
fn step_fails_on_malformed_state() {
    let mut accounts = initialized_accounts(7);
    accounts[1].data = vec![1u8; RECORD_WIDTH - 1];
    assert_eq!(
        process_instruction(&PROGRAM_ID, &mut accounts, &INCREMENT, rent_minimum_balance()),
        Err(CounterError::MalformedState)
    );
}

#[test]
fn increment_fails_at_maximum_count() {
    let mut accounts = initialized_accounts(7);
    let record = CounterAccount {
        count: u64::MAX,
        authority: [7u8; 32],
    };
    record.serialize_into(&mut accounts[1].data);
    let before = accounts[1].data.clone();
    assert_eq!(
        process_instruction(&PROGRAM_ID, &mut accounts, &INCREMENT, rent_minimum_balance()),
        Err(CounterError::ArithmeticOverflow)
    );
    assert_eq!(accounts[1].data, before);
}

#[test]
fn decrement_fails_at_count_zero() {
    let mut accounts = initialized_accounts(7);
    let before = accounts[1].data.clone();
    assert_eq!(
        process_instruction(&PROGRAM_ID, &mut accounts, &DECREMENT, rent_minimum_balance()),
        Err(CounterError::ArithmeticOverflow)
    );
    assert_eq!(accounts[1].data, before);
}

#[test]
fn malformed_instruction_is_rejected_before_accounts_are_checked() {
    let mut accounts: Vec<AccountRef> = Vec::new();
    assert_eq!(
        process_instruction(&PROGRAM_ID, &mut accounts, &[9], rent_minimum_balance()),
        Err(CounterError::MalformedInstruction)
    );
}

#[test]
fn extra_accounts_are_ignored() {
    let mut accounts = vec![payer(7), fresh_counter(), payer(9)];
    assert!(process_instruction(&PROGRAM_ID, &mut accounts, &INITIALIZE, rent_minimum_balance())
        .is_ok());
    let counter_data = CounterAccount::try_from_slice(&accounts[1].data).unwrap();
    assert_eq!(counter_data.authority, [7u8; 32]);
    assert_eq!(accounts[2].id, [9u8; 32]);
}
