use student_intro::address::{counter_address, derive_address, intro_address, reply_address};
use student_intro::error::StudentIntroError;
use student_intro::instruction::IntroInstruction;
use student_intro::processor::{
    add_reply, add_student_intro, process_instruction, update_student_intro, AccountRecord,
};
use student_intro::state::{Reply, ReplyCounter, StudentInfo};

const PROGRAM: [u8; 32] = [7u8; 32];
const PAYER: [u8; 32] = [1u8; 32];
const SYSTEM: [u8; 32] = [0u8; 32];

fn account(key: [u8; 32], is_signer: bool) -> AccountRecord {
    AccountRecord { key, owner: SYSTEM, is_signer, data: Vec::new() }
}

fn intro_key() -> [u8; 32] {
    intro_address(&PAYER, &PROGRAM).0
}

fn counter_key() -> [u8; 32] {
    counter_address(&intro_key(), &PROGRAM).0
}

fn create_accounts() -> Vec<AccountRecord> {
    vec![
        account(PAYER, true),
        account(intro_key(), false),
        account(counter_key(), false),
        account(SYSTEM, false),
    ]
}

fn framed(out: &mut Vec<u8>, s: &str) {
    out.extend_from_slice(&(s.len() as u32).to_le_bytes());
    out.extend_from_slice(s.as_bytes());
}

/// A ledger holding a created intro record: payer, intro, counter.
fn created(name: &str, message: &str) -> Vec<AccountRecord> {
    let mut accounts = create_accounts();
    add_student_intro(&PROGRAM, &mut accounts, name.to_string(), message.to_string()).unwrap();
    accounts
}

fn reply_accounts(ledger: &[AccountRecord], count: u8) -> Vec<AccountRecord> {
    let reply_key = reply_address(&intro_key(), count, &PROGRAM).0;
    vec![
        account(PAYER, true),
        AccountRecord {
            key: ledger[1].key,
            owner: ledger[1].owner,
            is_signer: false,
            data: ledger[1].data.clone(),
        },
        AccountRecord {
            key: ledger[2].key,
            owner: ledger[2].owner,
            is_signer: false,
            data: ledger[2].data.clone(),
        },
        account(reply_key, false),
        account(SYSTEM, false),
    ]
}

#[test]
fn create_then_reply_scenario() {
    let mut accounts = create_accounts();
    let allocations =
        add_student_intro(&PROGRAM, &mut accounts, "Alice".to_string(), "hello".to_string())
            .unwrap();
    assert_eq!(allocations.len(), 2);
    assert_eq!(allocations[0].address, intro_key());
    assert_eq!(allocations[0].space, 1000);
    assert_eq!(allocations[1].address, counter_key());
    assert_eq!(allocations[1].space, 13);
    let info = StudentInfo::unpack_from(&accounts[1].data).unwrap();
    assert_eq!(info.discriminator, "studentinfo");
    assert!(info.is_initialized());
    assert_eq!(info.name, "Alice");
    assert_eq!(info.msg, "hello");
    assert_eq!(accounts[1].data.len(), 1000);
    assert_eq!(accounts[1].owner, PROGRAM);
    let counter = ReplyCounter::unpack_from(&accounts[2].data).unwrap();
    assert_eq!(counter.discriminator, "counter");
    assert_eq!(counter.counter, 0);

    let mut replying = reply_accounts(&accounts, 0);
    add_reply(&PROGRAM, &mut replying, "hi".to_string()).unwrap();
    let reply = Reply::unpack_from(&replying[3].data).unwrap();
    assert_eq!(reply.discriminator, "reply");
    assert!(reply.is_initialized());
    assert_eq!(reply.studentinfo, intro_key());
    assert_eq!(reply.reply, "hi");
    let counter = ReplyCounter::unpack_from(&replying[2].data).unwrap();
    assert_eq!(counter.counter, 1);
}

#[test]
fn second_create_is_refused() {
    let mut accounts = created("Alice", "hello");
    let before: Vec<Vec<u8>> = accounts.iter().map(|a| a.data.clone()).collect();
    let r = add_student_intro(&PROGRAM, &mut accounts, "Bob".to_string(), "again".to_string());
    assert_eq!(r.err(), Some(StudentIntroError::AlreadyInitialized));
    let after: Vec<Vec<u8>> = accounts.iter().map(|a| a.data.clone()).collect();
    assert_eq!(before, after);
}

#[test]
fn derive_is_repeatable() {
    let seeds = vec![PAYER.to_vec()];
    let a = derive_address(&seeds, &PROGRAM);
    let b = derive_address(&seeds, &PROGRAM);
    assert_eq!(a, b);
    assert_eq!(a, intro_address(&PAYER, &PROGRAM));
    assert_ne!(a.0, PAYER);
    assert_ne!(a.0, PROGRAM);
    let other = derive_address(&vec![[2u8; 32].to_vec()], &PROGRAM);
    assert_ne!(a.0, other.0);
}

#[test]
fn counter_is_zero_after_create() {
    let accounts = created("Carol", "hi there");
    let counter = ReplyCounter::unpack_from(&accounts[2].data).unwrap();
    assert!(counter.is_initialized());
    assert_eq!(counter.counter, 0);
}

#[test]
fn replies_follow_the_counter() {
    let mut ledger = created("Alice", "hello");
    let texts = ["first", "second", "third"];
    let mut replies = Vec::new();
    for (i, text) in texts.iter().enumerate() {
        let mut accounts = reply_accounts(&ledger, i as u8);
        add_reply(&PROGRAM, &mut accounts, text.to_string()).unwrap();
        ledger[2] = AccountRecord {
            key: accounts[2].key,
            owner: accounts[2].owner,
            is_signer: false,
            data: accounts[2].data.clone(),
        };
        replies.push((accounts[3].key, accounts[3].data.clone()));
    }
    let counter = ReplyCounter::unpack_from(&ledger[2].data).unwrap();
    assert_eq!(counter.counter, 3);
    for (i, (key, data)) in replies.iter().enumerate() {
        assert_eq!(*key, reply_address(&intro_key(), i as u8, &PROGRAM).0);
        let reply = Reply::unpack_from(data).unwrap();
        assert_eq!(reply.reply, texts[i]);
        assert_eq!(reply.studentinfo, intro_key());
    }
}

#[test]
fn reply_with_stale_count_is_refused() {
    let ledger = created("Alice", "hello");
    let mut first = reply_accounts(&ledger, 0);
    add_reply(&PROGRAM, &mut first, "one".to_string()).unwrap();
    // the counter now reads one, so the address of ordinal zero no longer matches
    let mut again = reply_accounts(&first, 0);
    let r = add_reply(&PROGRAM, &mut again, "two".to_string());
    assert_eq!(r.err(), Some(StudentIntroError::AddressMismatch));
}

#[test]
fn update_before_create_is_refused() {
    let mut accounts = vec![account(PAYER, true), account(intro_key(), false)];
    let r = update_student_intro(&PROGRAM, &mut accounts, "A".to_string(), "B".to_string());
    assert_eq!(r.err(), Some(StudentIntroError::UninitializedAccount));
}

#[test]
fn oversized_update_keeps_message() {
    let ledger = created("Alice", "hello");
    let mut accounts = vec![account(PAYER, true), AccountRecord {
        key: ledger[1].key,
        owner: ledger[1].owner,
        is_signer: false,
        data: ledger[1].data.clone(),
    }];
    let long = "x".repeat(1000);
    let r = update_student_intro(&PROGRAM, &mut accounts, "Alice".to_string(), long);
    assert_eq!(r.err(), Some(StudentIntroError::SizeLimitExceeded));
    let info = StudentInfo::unpack_from(&accounts[1].data).unwrap();
    assert_eq!(info.msg, "hello");
}

#[test]
fn update_replaces_message_and_ignores_name() {
    let ledger = created("Alice", "hello");
    let mut accounts = vec![account(PAYER, false), AccountRecord {
        key: ledger[1].key,
        owner: ledger[1].owner,
        is_signer: false,
        data: ledger[1].data.clone(),
    }];
    let r = update_student_intro(&PROGRAM, &mut accounts, "Mallory".to_string(), "bye".to_string());
    assert!(r.unwrap().is_empty());
    let info = StudentInfo::unpack_from(&accounts[1].data).unwrap();
    assert_eq!(info.name, "Alice");
    assert_eq!(info.msg, "bye");
    assert_eq!(info.discriminator, "studentinfo");
}

#[test]
fn update_size_bound_counts_stored_name() {
    // the bound counts the stored name (10 bytes), not the supplied one; the
    // whole record (15 + 1 + 14 + 4 + 966 = 1000 bytes) must also fit the storage
    let ledger = created("ABCDEFGHIJ", "m");
    let mut accounts = vec![account(PAYER, true), AccountRecord {
        key: ledger[1].key,
        owner: ledger[1].owner,
        is_signer: false,
        data: ledger[1].data.clone(),
    }];
    let msg = "y".repeat(966);
    let r = update_student_intro(&PROGRAM, &mut accounts, "z".repeat(900), msg.clone());
    assert!(r.is_ok());
    let info = StudentInfo::unpack_from(&accounts[1].data).unwrap();
    assert_eq!(info.msg, msg);
    let mut accounts2 = vec![account(PAYER, true), AccountRecord {
        key: ledger[1].key,
        owner: ledger[1].owner,
        is_signer: false,
        data: ledger[1].data.clone(),
    }];
    let r = update_student_intro(&PROGRAM, &mut accounts2, String::new(), "y".repeat(982));
    assert_eq!(r.err(), Some(StudentIntroError::SizeLimitExceeded));
    // the record would take 15 + 1 + 14 + 4 + 976 = 1010 bytes
    let r = update_student_intro(&PROGRAM, &mut accounts2, String::new(), "y".repeat(976));
    assert_eq!(r.err(), Some(StudentIntroError::SizeLimitExceeded));
}

#[test]
fn update_bound_counts_tag_even_with_larger_storage() {
    let ledger = created("ABCDEFGHIJ", "m");
    let mut data = ledger[1].data.clone();
    data.extend_from_slice(&[0u8; 1000]);
    let mut accounts = vec![account(PAYER, true), AccountRecord {
        key: ledger[1].key,
        owner: ledger[1].owner,
        is_signer: false,
        data,
    }];
    let r = update_student_intro(&PROGRAM, &mut accounts, String::new(), "y".repeat(976));
    assert_eq!(r.err(), Some(StudentIntroError::SizeLimitExceeded));
    assert_eq!(StudentInfo::unpack_from(&accounts[1].data).unwrap().msg, "m");
}

#[test]
fn update_with_wrong_owner_is_refused() {
    let ledger = created("Alice", "hello");
    let mut accounts = vec![account(PAYER, true), AccountRecord {
        key: ledger[1].key,
        owner: [9u8; 32],
        is_signer: false,
        data: ledger[1].data.clone(),
    }];
    let r = update_student_intro(&PROGRAM, &mut accounts, "A".to_string(), "B".to_string());
    assert_eq!(r.err(), Some(StudentIntroError::IllegalOwner));
}

#[test]
fn update_by_other_identity_is_refused() {
    let ledger = created("Alice", "hello");
    let mut accounts = vec![account([3u8; 32], true), AccountRecord {
        key: ledger[1].key,
        owner: ledger[1].owner,
        is_signer: false,
        data: ledger[1].data.clone(),
    }];
    let r = update_student_intro(&PROGRAM, &mut accounts, "A".to_string(), "B".to_string());
    assert_eq!(r.err(), Some(StudentIntroError::AddressMismatch));
}

#[test]
fn create_errors() {
    let mut short = vec![account(PAYER, true)];
    assert_eq!(
        add_student_intro(&PROGRAM, &mut short, "a".to_string(), "b".to_string()).err(),
        Some(StudentIntroError::NotEnoughAccountKeys)
    );
    let mut wrong = create_accounts();
    wrong[1].key = [5u8; 32];
    assert_eq!(
        add_student_intro(&PROGRAM, &mut wrong, "a".to_string(), "b".to_string()).err(),
        Some(StudentIntroError::AddressMismatch)
    );
    let mut wrong_counter = create_accounts();
    wrong_counter[2].key = [5u8; 32];
    assert_eq!(
        add_student_intro(&PROGRAM, &mut wrong_counter, "a".to_string(), "b".to_string()).err(),
        Some(StudentIntroError::AddressMismatch)
    );
    let mut unsigned = create_accounts();
    unsigned[0].is_signer = false;
    assert_eq!(
        add_student_intro(&PROGRAM, &mut unsigned, "a".to_string(), "b".to_string()).err(),
        Some(StudentIntroError::MissingSignature)
    );
    assert!(unsigned[1].data.is_empty());
}

#[test]
fn create_size_limit_edge() {
    // 4 + 11 + 1 + 4 + name + 4 + message must not exceed 1000
    let mut fits = create_accounts();
    assert!(add_student_intro(&PROGRAM, &mut fits, "n".repeat(476), "m".repeat(500)).is_ok());
    let mut over = create_accounts();
    assert_eq!(
        add_student_intro(&PROGRAM, &mut over, "n".repeat(477), "m".repeat(500)).err(),
        Some(StudentIntroError::SizeLimitExceeded)
    );
    assert!(over[1].data.is_empty());
    // the size is checked right after the intro address
    let mut bad_counter = create_accounts();
    bad_counter[2].key = [5u8; 32];
    assert_eq!(
        add_student_intro(&PROGRAM, &mut bad_counter, "n".repeat(477), "m".repeat(500)).err(),
        Some(StudentIntroError::SizeLimitExceeded)
    );
    let mut existing = created("Alice", "hello");
    assert_eq!(
        add_student_intro(&PROGRAM, &mut existing, "n".repeat(477), "m".repeat(500)).err(),
        Some(StudentIntroError::SizeLimitExceeded)
    );
}

#[test]
fn reply_errors() {
    let ledger = created("Alice", "hello");
    let mut short = reply_accounts(&ledger, 0);
    short.truncate(4);
    assert_eq!(
        add_reply(&PROGRAM, &mut short, "x".to_string()).err(),
        Some(StudentIntroError::NotEnoughAccountKeys)
    );
    let mut uninit = reply_accounts(&ledger, 0);
    uninit[2].data = Vec::new();
    assert_eq!(
        add_reply(&PROGRAM, &mut uninit, "x".to_string()).err(),
        Some(StudentIntroError::UninitializedAccount)
    );
    let mut foreign = reply_accounts(&ledger, 0);
    foreign[2].owner = [9u8; 32];
    assert_eq!(
        add_reply(&PROGRAM, &mut foreign, "x".to_string()).err(),
        Some(StudentIntroError::IllegalOwner)
    );
    let mut taken = reply_accounts(&ledger, 0);
    taken[3].data = vec![0u8; 4];
    assert_eq!(
        add_reply(&PROGRAM, &mut taken, "x".to_string()).err(),
        Some(StudentIntroError::AlreadyInitialized)
    );
    let mut unsigned = reply_accounts(&ledger, 0);
    unsigned[0].is_signer = false;
    assert_eq!(
        add_reply(&PROGRAM, &mut unsigned, "x".to_string()).err(),
        Some(StudentIntroError::MissingSignature)
    );
}

#[test]
fn reply_limit_is_255() {
    let ledger = created("Alice", "hello");
    let mut full = reply_accounts(&ledger, 0);
    let last = full[2].data.len() - 1;
    full[2].data[last] = 255;
    assert_eq!(
        add_reply(&PROGRAM, &mut full, "x".to_string()).err(),
        Some(StudentIntroError::ReplyLimitReached)
    );
    let mut near = reply_accounts(&ledger, 254);
    let last = near[2].data.len() - 1;
    near[2].data[last] = 254;
    assert!(add_reply(&PROGRAM, &mut near, "x".to_string()).is_ok());
    assert_eq!(ReplyCounter::unpack_from(&near[2].data).unwrap().counter, 255);
}

#[test]
fn unpack_rejects_empty_and_unknown() {
    assert_eq!(IntroInstruction::unpack(&[]).err(), Some(StudentIntroError::DecodingError));
    let mut bytes = vec![99u8];
    framed(&mut bytes, "a");
    framed(&mut bytes, "b");
    assert_eq!(IntroInstruction::unpack(&bytes).err(), Some(StudentIntroError::DecodingError));
}

#[test]
fn unpack_reads_each_command() {
    let mut create = vec![0u8];
    framed(&mut create, "Alice");
    framed(&mut create, "hello");
    match IntroInstruction::unpack(&create).unwrap() {
        IntroInstruction::InitUserInput { name, message } => {
            assert_eq!(name, "Alice");
            assert_eq!(message, "hello");
        }
        _ => panic!("wrong command"),
    }
    let mut update = vec![1u8];
    framed(&mut update, "N");
    framed(&mut update, "é");
    match IntroInstruction::unpack(&update).unwrap() {
        IntroInstruction::UpdateStudentIntro { name, message } => {
            assert_eq!(name, "N");
            assert_eq!(message, "é");
        }
        _ => panic!("wrong command"),
    }
    let mut reply = vec![2u8];
    framed(&mut reply, "hi");
    match IntroInstruction::unpack(&reply).unwrap() {
        IntroInstruction::AddReply { reply } => assert_eq!(reply, "hi"),
        _ => panic!("wrong command"),
    }
}

#[test]
fn unpack_rejects_malformed_payloads() {
    let mut trailing = vec![2u8];
    framed(&mut trailing, "hi");
    trailing.push(0);
    assert_eq!(IntroInstruction::unpack(&trailing).err(), Some(StudentIntroError::DecodingError));
    let mut missing = vec![0u8];
    framed(&mut missing, "only one");
    assert_eq!(IntroInstruction::unpack(&missing).err(), Some(StudentIntroError::DecodingError));
    let short = vec![2u8, 5, 0, 0, 0, b'a'];
    assert_eq!(IntroInstruction::unpack(&short).err(), Some(StudentIntroError::DecodingError));
    let invalid = vec![2u8, 2, 0, 0, 0, 0xff, 0xfe];
    assert_eq!(IntroInstruction::unpack(&invalid).err(), Some(StudentIntroError::DecodingError));
    let huge = vec![2u8, 0xff, 0xff, 0xff, 0xff];
    assert_eq!(IntroInstruction::unpack(&huge).err(), Some(StudentIntroError::DecodingError));
}

#[test]
fn process_instruction_dispatches() {
    let mut accounts = create_accounts();
    let mut create = vec![0u8];
    framed(&mut create, "Dana");
    framed(&mut create, "hey");
    assert!(process_instruction(&PROGRAM, &mut accounts, &create).is_ok());
    assert_eq!(StudentInfo::unpack_from(&accounts[1].data).unwrap().name, "Dana");
    let r = process_instruction(&PROGRAM, &mut accounts, &[7u8]);
    assert_eq!(r.err(), Some(StudentIntroError::DecodingError));
    let mut update = vec![1u8];
    framed(&mut update, "ignored");
    framed(&mut update, "new");
    let mut two = vec![account(PAYER, true), AccountRecord {
        key: accounts[1].key,
        owner: accounts[1].owner,
        is_signer: false,
        data: accounts[1].data.clone(),
    }];
    assert!(process_instruction(&PROGRAM, &mut two, &update).is_ok());
    assert_eq!(StudentInfo::unpack_from(&two[1].data).unwrap().msg, "new");
}

#[test]
fn records_match_borsh_layout() {
    let info = StudentInfo {
        discriminator: "studentinfo".to_string(),
        is_initialized: true,
        name: "Alice".to_string(),
        msg: "hello".to_string(),
    };
    let expected =
        borsh::to_vec(&("studentinfo".to_string(), true, "Alice".to_string(), "hello".to_string()))
            .unwrap();
    assert_eq!(info.pack(), expected);
    let counter = ReplyCounter { discriminator: "counter".to_string(), is_initialized: true, counter: 4 };
    assert_eq!(counter.pack(), borsh::to_vec(&("counter".to_string(), true, 4u8)).unwrap());
    let reply = Reply {
        discriminator: "reply".to_string(),
        is_initialized: true,
        studentinfo: [8u8; 32],
        reply: "hi".to_string(),
    };
    assert_eq!(
        reply.pack(),
        borsh::to_vec(&("reply".to_string(), true, [8u8; 32], "hi".to_string())).unwrap()
    );
    assert!(StudentInfo::unpack_from(&[]).is_none());
    let zeroed = StudentInfo::unpack_from(&[0u8; 20]).unwrap();
    assert!(!zeroed.is_initialized());
}
