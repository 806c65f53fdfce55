use voting_program::errors::{AccountStateKind, ValidationErrorKind, VoteProgramError};
use voting_program::get_voting_pda_and_bump;
use voting_program::instruction::{
    AccountHandle, CreateVotingAccounts, VoteAccounts, VotingOption,
};
use voting_program::processor::Processor;
use voting_program::state::VotingAccount;

const START: i64 = 1_700_000_000;
const END: i64 = START + 3600;

fn program_id() -> Vec<u8> {
    vec![9; 32]
}

fn owner_key() -> Vec<u8> {
    vec![1; 32]
}

fn yes_no_options() -> Vec<VotingOption> {
    vec![
        VotingOption { counter: 0, id: 1, description: b"Yes".to_vec() },
        VotingOption { counter: 0, id: 2, description: b"No".to_vec() },
    ]
}

fn derived_pda(uid: &[u8]) -> (Vec<u8>, u8) {
    get_voting_pda_and_bump(&owner_key(), &uid.to_vec(), &program_id())
        .expect("a nonce exists for these seeds")
}

fn owner_account() -> AccountHandle {
    AccountHandle { key: owner_key(), is_signer: true, lamports: 1_000_000, data: vec![] }
}

fn create_accounts(uid: &[u8]) -> CreateVotingAccounts {
    let (pda_key, _bump) = derived_pda(uid);
    CreateVotingAccounts {
        owner: owner_account(),
        pda: AccountHandle { key: pda_key, is_signer: false, lamports: 0, data: vec![] },
        sys_program: AccountHandle {
            key: vec![0; 32],
            is_signer: false,
            lamports: 0,
            data: vec![],
        },
    }
}

fn vote_accounts(uid: &[u8], record: Vec<u8>) -> VoteAccounts {
    let (pda_key, _bump) = derived_pda(uid);
    VoteAccounts {
        voter: AccountHandle { key: vec![3; 32], is_signer: true, lamports: 5, data: vec![] },
        owner: owner_account(),
        voting_pda: AccountHandle { key: pda_key, is_signer: false, lamports: 100, data: record },
    }
}

fn created_record(uid: &[u8]) -> Vec<u8> {
    let plan = Processor::process_create_voting(
        &program_id(),
        &uid.to_vec(),
        b"My poll".to_vec(),
        yes_no_options(),
        START,
        END,
        create_accounts(uid),
        START,
    )
    .expect("creation succeeds");
    Processor::finish_create_voting(&plan, 1000).expect("owner can fund the record")
}

fn counters(record: &Vec<u8>) -> Vec<(u8, u32)> {
    let poll = VotingAccount::decode(record).expect("stored record decodes");
    poll.voting_options.iter().map(|o| (o.option_id, o.counter)).collect()
}

#[test]
fn derive_is_deterministic() {
    let a = derived_pda(b"poll1");
    let b = derived_pda(b"poll1");
    assert_eq!(a, b);
    assert_eq!(a.0.len(), 32);
    // The derived address is a hash, not any of the inputs handed in.
    assert_ne!(a.0, owner_key());
    assert_ne!(a.0, program_id());
}

#[test]
fn scenario_create_then_vote() {
    let uid = b"poll1";
    let record = created_record(uid);
    assert_eq!(counters(&record), vec![(1, 0), (2, 0)]);

    let after_vote =
        Processor::process_vote(&program_id(), 1, vote_accounts(uid, record.clone()), START + 10)
            .expect("vote inside the window succeeds");
    assert_eq!(after_vote.len(), record.len());
    assert_eq!(counters(&after_vote), vec![(1, 1), (2, 0)]);

    let unknown =
        Processor::process_vote(&program_id(), 9, vote_accounts(uid, after_vote.clone()), START + 10);
    assert_eq!(unknown, Err(VoteProgramError::UnknownOption));

    let expired =
        Processor::process_vote(&program_id(), 1, vote_accounts(uid, after_vote.clone()), END + 1);
    assert_eq!(expired, Err(VoteProgramError::VotingExpired));

    // Failures returned no bytes, so the stored record is untouched.
    assert_eq!(counters(&after_vote), vec![(1, 1), (2, 0)]);
}

#[test]
fn vote_leaves_other_fields_identical() {
    let uid = b"poll1";
    let record = created_record(uid);
    let before = VotingAccount::decode(&record).unwrap();
    let after_bytes =
        Processor::process_vote(&program_id(), 2, vote_accounts(uid, record.clone()), START)
            .unwrap();
    let after = VotingAccount::decode(&after_bytes).unwrap();
    assert_eq!(after.uid, before.uid);
    assert_eq!(after.voting_name, before.voting_name);
    assert_eq!(after.start_date, before.start_date);
    assert_eq!(after.end_date, before.end_date);
    assert_eq!(after.voting_options[0], before.voting_options[0]);
    assert_eq!(after.voting_options[1].counter, before.voting_options[1].counter + 1);
    assert_eq!(after.voting_options[1].option_id, before.voting_options[1].option_id);
    assert_eq!(
        after.voting_options[1].option_description,
        before.voting_options[1].option_description
    );
}

#[test]
fn vote_window_boundaries() {
    let uid = b"poll1";
    let record = created_record(uid);

    let at_start = Processor::process_vote(&program_id(), 1, vote_accounts(uid, record.clone()), START);
    assert!(at_start.is_ok());

    let at_end = Processor::process_vote(&program_id(), 1, vote_accounts(uid, record.clone()), END);
    assert!(at_end.is_ok());

    let early =
        Processor::process_vote(&program_id(), 1, vote_accounts(uid, record.clone()), START - 1);
    assert_eq!(early, Err(VoteProgramError::VotingNotStartedYet));

    let late = Processor::process_vote(&program_id(), 1, vote_accounts(uid, record.clone()), END + 1);
    assert_eq!(late, Err(VoteProgramError::VotingExpired));
}

#[test]
fn create_rejects_wrong_storage_address() {
    let uid = b"poll1";
    let mut accounts = create_accounts(uid);
    accounts.pda.key = vec![7; 32];
    let r = Processor::process_create_voting(
        &program_id(),
        &uid.to_vec(),
        b"My poll".to_vec(),
        yes_no_options(),
        START,
        END,
        accounts,
        START,
    );
    assert_eq!(r.map(|_| ()), Err(VoteProgramError::AddressMismatch));
}

#[test]
fn vote_rejects_substituted_record() {
    // A record created under one identifier, presented at the address of
    // another: the re-derivation from the decoded identifier catches it.
    let record = created_record(b"poll1");
    let accounts = vote_accounts(b"other", record);
    let r = Processor::process_vote(&program_id(), 1, accounts, START);
    assert_eq!(r.map(|_| ()), Err(VoteProgramError::AddressMismatch));
}

fn expect_validation(
    uid: &[u8],
    name: &[u8],
    options: Vec<VotingOption>,
    start: i64,
    end: i64,
    now: i64,
    kind: ValidationErrorKind,
) {
    let r = Processor::process_create_voting(
        &program_id(),
        &uid.to_vec(),
        name.to_vec(),
        options,
        start,
        end,
        create_accounts(uid),
        now,
    );
    assert_eq!(r.map(|_| ()), Err(VoteProgramError::ValidationError(kind)));
}

#[test]
fn create_rejects_invalid_polls() {
    let opts = yes_no_options;
    expect_validation(b"poll1", b"My poll", opts(), START - 1, END, START, ValidationErrorKind::StartDateInPast);
    expect_validation(b"poll1", b"My poll", opts(), END, END, START, ValidationErrorKind::StartDateAfterEndDate);
    expect_validation(b"poll1", b"My poll", vec![], START, END, START, ValidationErrorKind::OptionsEmpty);
    let dup = vec![
        VotingOption { counter: 0, id: 1, description: b"Yes".to_vec() },
        VotingOption { counter: 0, id: 1, description: b"No".to_vec() },
    ];
    expect_validation(b"poll1", b"My poll", dup, START, END, START, ValidationErrorKind::DuplicateOptionId);
    expect_validation(b"  ", b"My poll", opts(), START, END, START, ValidationErrorKind::UidEmpty);
    expect_validation(b"poll1", b" \t", opts(), START, END, START, ValidationErrorKind::NameEmpty);
    expect_validation(b"poll1", &[98; 201], opts(), START, END, START, ValidationErrorKind::NameTooLong);
    let blank_descr = vec![VotingOption { counter: 0, id: 1, description: b" ".to_vec() }];
    expect_validation(b"poll1", b"My poll", blank_descr, START, END, START, ValidationErrorKind::DescriptionEmpty);
    let long_descr = vec![VotingOption { counter: 0, id: 1, description: vec![99; 501] }];
    expect_validation(b"poll1", b"My poll", long_descr, START, END, START, ValidationErrorKind::DescriptionTooLong);
}

#[test]
fn validate_bounds_uid_by_trimmed_length() {
    // 100 letters plus trailing whitespace trims to exactly the bound, so
    // the identifier is accepted even though its raw length exceeds it.
    let mut uid: Vec<u8> = vec![97; 100];
    uid.extend_from_slice(b"   \t");
    let poll = VotingAccount {
        uid,
        voting_name: b"My poll".to_vec(),
        start_date: START,
        end_date: END,
        voting_options: vec![voting_program::state::VotingOption {
            counter: 0,
            option_id: 1,
            option_description: b"Yes".to_vec(),
        }],
    };
    assert_eq!(poll.validate(START), Ok(()));
}

#[test]
fn validate_rejects_oversized_uid() {
    // An identifier longer than a derivation seed allows never reaches
    // validation through the processor (the address check fails first), so
    // the bound is checked on the record directly.
    let poll = VotingAccount {
        uid: vec![97; 101],
        voting_name: b"My poll".to_vec(),
        start_date: START,
        end_date: END,
        voting_options: vec![voting_program::state::VotingOption {
            counter: 0,
            option_id: 1,
            option_description: b"Yes".to_vec(),
        }],
    };
    assert_eq!(
        poll.validate(START),
        Err(VoteProgramError::ValidationError(ValidationErrorKind::UidTooLong))
    );
}

#[test]
fn create_fails_when_no_address_derivable() {
    // A 33-byte identifier exceeds the seed length limit, so no storage
    // address exists for it and creation reports an address mismatch.
    let uid = [97u8; 33];
    let r = Processor::process_create_voting(
        &program_id(),
        &uid.to_vec(),
        b"My poll".to_vec(),
        yes_no_options(),
        START,
        END,
        CreateVotingAccounts {
            owner: owner_account(),
            pda: AccountHandle { key: vec![8; 32], is_signer: false, lamports: 0, data: vec![] },
            sys_program: AccountHandle {
                key: vec![0; 32],
                is_signer: false,
                lamports: 0,
                data: vec![],
            },
        },
        START,
    );
    assert_eq!(r.map(|_| ()), Err(VoteProgramError::AddressMismatch));
}

#[test]
fn create_resets_wire_counters_to_zero() {
    let uid = b"poll2";
    let plan = Processor::process_create_voting(
        &program_id(),
        &uid.to_vec(),
        b"My poll".to_vec(),
        vec![VotingOption { counter: 77, id: 1, description: b"Yes".to_vec() }],
        START,
        END,
        create_accounts(uid),
        START,
    )
    .unwrap();
    let record = Processor::finish_create_voting(&plan, 0).unwrap();
    assert_eq!(counters(&record), vec![(1, 0)]);
    assert_eq!(record.len(), plan.size);
}

#[test]
fn create_account_role_checks() {
    let uid = b"poll1";

    let mut unsigned = create_accounts(uid);
    unsigned.owner.is_signer = false;
    let r = Processor::process_create_voting(
        &program_id(), &uid.to_vec(), b"My poll".to_vec(), yes_no_options(), START, END, unsigned, START,
    );
    assert_eq!(r.map(|_| ()), Err(VoteProgramError::MissingSignature));

    let mut occupied = create_accounts(uid);
    occupied.pda.data = vec![1, 2, 3];
    let r = Processor::process_create_voting(
        &program_id(), &uid.to_vec(), b"My poll".to_vec(), yes_no_options(), START, END, occupied, START,
    );
    assert_eq!(
        r.map(|_| ()),
        Err(VoteProgramError::AccountStateError(AccountStateKind::AlreadyInitialized))
    );

    let mut wrong_sys = create_accounts(uid);
    wrong_sys.sys_program.key = vec![5; 32];
    let r = Processor::process_create_voting(
        &program_id(), &uid.to_vec(), b"My poll".to_vec(), yes_no_options(), START, END, wrong_sys, START,
    );
    assert_eq!(
        r.map(|_| ()),
        Err(VoteProgramError::AccountStateError(AccountStateKind::WrongProgram))
    );
}

#[test]
fn vote_account_role_checks() {
    let uid = b"poll1";
    let record = created_record(uid);

    let mut unsigned = vote_accounts(uid, record.clone());
    unsigned.voter.is_signer = false;
    let r = Processor::process_vote(&program_id(), 1, unsigned, START);
    assert_eq!(r.map(|_| ()), Err(VoteProgramError::MissingSignature));

    let empty = vote_accounts(uid, vec![]);
    let r = Processor::process_vote(&program_id(), 1, empty, START);
    assert_eq!(
        r.map(|_| ()),
        Err(VoteProgramError::AccountStateError(AccountStateKind::Uninitialized))
    );

    let garbage = vote_accounts(uid, vec![255, 255]);
    let r = Processor::process_vote(&program_id(), 1, garbage, START);
    assert_eq!(r.map(|_| ()), Err(VoteProgramError::MalformedInput));
}

#[test]
fn account_resolution_requires_three_handles() {
    let two = vec![owner_account(), owner_account()];
    assert_eq!(
        CreateVotingAccounts::new(two.clone()).map(|_| ()),
        Err(VoteProgramError::NotEnoughAccounts)
    );
    assert_eq!(VoteAccounts::new(two).map(|_| ()), Err(VoteProgramError::NotEnoughAccounts));

    let three = vec![
        owner_account(),
        AccountHandle { key: vec![2; 32], is_signer: false, lamports: 0, data: vec![] },
        AccountHandle { key: vec![0; 32], is_signer: false, lamports: 0, data: vec![] },
    ];
    let resolved = CreateVotingAccounts::new(three).expect("three handles resolve");
    assert_eq!(resolved.owner.key, owner_key());
    assert_eq!(resolved.pda.key, vec![2; 32]);
    assert_eq!(resolved.sys_program.key, vec![0; 32]);
}

#[test]
fn create_rejects_underfunded_owner() {
    let uid = b"poll1";
    let plan = Processor::process_create_voting(
        &program_id(),
        &uid.to_vec(),
        b"My poll".to_vec(),
        yes_no_options(),
        START,
        END,
        create_accounts(uid),
        START,
    )
    .unwrap();
    let r = Processor::finish_create_voting(&plan, plan.owner_lamports + 1);
    assert_eq!(r, Err(VoteProgramError::ResourceError));
    let ok = Processor::finish_create_voting(&plan, plan.owner_lamports);
    assert!(ok.is_ok());
}
