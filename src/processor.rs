//! The three instruction handlers, over a plain model of the accounts an
//! instruction lists.
use crate::address::{
    counter_address, counter_pda, counter_seed_list, counter_seeds, intro_address, intro_pda,
    intro_seed_list, intro_seeds, program_address, reply_address, reply_pda, reply_seed_list,
    reply_seeds, reply_tag, seed_views,
};
use crate::codec::{overlay, zeroed};
use crate::error::StudentIntroError;
use crate::instruction::{decode_instruction, Command, IntroInstruction};
use crate::state::{
    counter_from, intro_from, CounterModel, IntroModel, Reply, ReplyCounter, ReplyModel,
    StudentInfo,
};
use vstd::prelude::*;
use vstd::utf8::{
    encode_utf8, encode_utf8_valid_utf8, is_ascii_chars, is_ascii_chars_encode_utf8, valid_utf8,
};

verus! {

/// Largest encoded intro record; also the storage allotted to one.
pub const MAX_INTRO_LEN: usize = 1000;

/// Largest account storage the host allocates.
pub const MAX_ACCOUNT_DATA: usize = 10485760;

/// One account that an instruction lists: its address, owning program,
/// whether it signed, and its storage.
pub struct AccountRecord {
    pub key: [u8; 32],
    pub owner: [u8; 32],
    pub is_signer: bool,
    pub data: Vec<u8>,
}

pub struct AccountView {
    pub key: Seq<u8>,
    pub owner: Seq<u8>,
    pub is_signer: bool,
    pub data: Seq<u8>,
}

impl View for AccountRecord {
    type V = AccountView;

    open spec fn view(&self) -> AccountView {
        AccountView { key: self.key@, owner: self.owner@, is_signer: self.is_signer, data: self.data@ }
    }
}

/// A request to the host to allocate a derived account: `payer` funds `space`
/// bytes at `address`, owned by `owner`. In place of a signature, the request
/// carries the seeds of the address with its bump as the last seed.
pub struct Allocation {
    pub payer: [u8; 32],
    pub address: [u8; 32],
    pub space: u64,
    pub owner: [u8; 32],
    pub signer_seeds: Vec<Vec<u8>>,
}

pub struct AllocationView {
    pub payer: Seq<u8>,
    pub address: Seq<u8>,
    pub space: nat,
    pub owner: Seq<u8>,
    pub signer_seeds: Seq<Seq<u8>>,
}

impl View for Allocation {
    type V = AllocationView;

    open spec fn view(&self) -> AllocationView {
        AllocationView {
            payer: self.payer@,
            address: self.address@,
            space: self.space as nat,
            owner: self.owner@,
            signer_seeds: seed_views(self.signer_seeds@),
        }
    }
}

pub open spec fn views(a: Seq<AccountRecord>) -> Seq<AccountView> {
    a.map_values(|r: AccountRecord| r@)
}

pub open spec fn allocation_views(a: Seq<Allocation>) -> Seq<AllocationView> {
    a.map_values(|x: Allocation| x@)
}

/// What a handler returns, with the allocation requests as views.
pub open spec fn outcome(r: Result<Vec<Allocation>, StudentIntroError>) -> Result<
    Seq<AllocationView>,
    StudentIntroError,
> {
    match r {
        Ok(v) => Ok(allocation_views(v@)),
        Err(e) => Err(e),
    }
}

/// "studentinfo"
pub open spec fn intro_tag() -> Seq<u8> {
    seq![115u8, 116u8, 117u8, 100u8, 101u8, 110u8, 116u8, 105u8, 110u8, 102u8, 111u8]
}

/// "counter"
pub open spec fn counter_tag() -> Seq<u8> {
    seq![99u8, 111u8, 117u8, 110u8, 116u8, 101u8, 114u8]
}

pub open spec fn zeros(n: nat) -> Seq<u8> {
    Seq::new(n, |i: int| 0u8)
}

/// The signer seeds for an address derived from `seeds`: the seeds, then the bump.
pub open spec fn signed_seeds(seeds: Seq<Seq<u8>>, program: Seq<u8>) -> Seq<Seq<u8>> {
    seeds.push(seq![program_address(seeds, program).1])
}

/// Encoded size of an intro record with the given name and message lengths.
pub open spec fn intro_size(name_len: nat, msg_len: nat) -> nat {
    4 + 11 + 1 + 4 + name_len + 4 + msg_len
}

/// Encoded size of a reply record with a reply of the given length.
pub open spec fn reply_size(reply_len: nat) -> nat {
    4 + 5 + 1 + 32 + 4 + reply_len
}

pub open spec fn intro_record(name: Seq<u8>, msg: Seq<u8>) -> IntroModel {
    IntroModel { discriminator: intro_tag(), is_initialized: true, name, msg }
}

pub open spec fn fresh_counter() -> CounterModel {
    CounterModel { discriminator: counter_tag(), is_initialized: true, counter: 0 }
}

pub open spec fn reply_record(parent: Seq<u8>, text: Seq<u8>) -> ReplyModel {
    ReplyModel { discriminator: reply_tag(), is_initialized: true, studentinfo: parent, reply: text }
}

/// The account `a` after the host allocated it to `program` and `data` was written.
pub open spec fn allocated(a: AccountView, program: Seq<u8>, data: Seq<u8>) -> AccountView {
    AccountView { key: a.key, owner: program, is_signer: a.is_signer, data }
}

/// The account `a` with `bytes` written over the start of its storage.
pub open spec fn written(a: AccountView, bytes: Seq<u8>) -> AccountView {
    AccountView { data: bytes + a.data.subrange(bytes.len() as int, a.data.len() as int), ..a }
}

// ---------------------------------------------------------------- create

/// Why creating an intro record fails, checked in this order; `None` when it
/// succeeds. Accounts: payer, intro record, reply counter, allocation service.
pub open spec fn create_error(
    a: Seq<AccountView>,
    program: Seq<u8>,
    name: Seq<u8>,
    msg: Seq<u8>,
) -> Option<StudentIntroError> {
    if a.len() < 4 {
        Some(StudentIntroError::NotEnoughAccountKeys)
    } else if a[1].key != intro_pda(a[0].key, program) {
        Some(StudentIntroError::AddressMismatch)
    } else if intro_size(name.len(), msg.len()) > MAX_INTRO_LEN {
        Some(StudentIntroError::SizeLimitExceeded)
    } else if a[2].key != counter_pda(a[1].key, program) {
        Some(StudentIntroError::AddressMismatch)
    } else if a[1].data.len() != 0 || a[2].data.len() != 0 {
        Some(StudentIntroError::AlreadyInitialized)
    } else if !a[0].is_signer {
        Some(StudentIntroError::MissingSignature)
    } else {
        None
    }
}

/// The accounts after a successful create: the intro record in 1000 bytes of
/// storage, and the reply counter at zero.
pub open spec fn create_post(
    a: Seq<AccountView>,
    program: Seq<u8>,
    name: Seq<u8>,
    msg: Seq<u8>,
) -> Seq<AccountView> {
    let rec = intro_record(name, msg).bytes();
    a.update(1, allocated(a[1], program, rec + zeros((MAX_INTRO_LEN - rec.len()) as nat))).update(
        2,
        allocated(a[2], program, fresh_counter().bytes()),
    )
}

/// The allocations a successful create requests.
pub open spec fn create_allocations(a: Seq<AccountView>, program: Seq<u8>) -> Seq<AllocationView> {
    seq![
        AllocationView {
            payer: a[0].key,
            address: a[1].key,
            space: MAX_INTRO_LEN as nat,
            owner: program,
            signer_seeds: signed_seeds(intro_seeds(a[0].key), program),
        },
        AllocationView {
            payer: a[0].key,
            address: a[2].key,
            space: fresh_counter().bytes().len(),
            owner: program,
            signer_seeds: signed_seeds(counter_seeds(a[1].key), program),
        },
    ]
}

/// What creating an intro record does: on failure nothing changes.
pub open spec fn create_outcome(
    pre: Seq<AccountView>,
    post: Seq<AccountView>,
    program: Seq<u8>,
    name: Seq<u8>,
    msg: Seq<u8>,
    r: Result<Seq<AllocationView>, StudentIntroError>,
) -> bool {
    match create_error(pre, program, name, msg) {
        Some(e) => r == Err::<Seq<AllocationView>, StudentIntroError>(e) && post == pre,
        None => r == Ok::<Seq<AllocationView>, StudentIntroError>(create_allocations(pre, program))
            && post == create_post(pre, program, name, msg),
    }
}

// ---------------------------------------------------------------- update

/// The stored record with its message replaced.
pub open spec fn updated(m: IntroModel, msg: Seq<u8>) -> IntroModel {
    IntroModel { msg, ..m }
}

/// Why updating an intro record fails, checked in this order; `None` when it
/// succeeds. Accounts: payer, intro record. The size bound is the encoded size
/// of the record with the stored name, not the supplied one.
pub open spec fn update_error(
    a: Seq<AccountView>,
    program: Seq<u8>,
    name: Seq<u8>,
    msg: Seq<u8>,
) -> Option<StudentIntroError> {
    if a.len() < 2 {
        Some(StudentIntroError::NotEnoughAccountKeys)
    } else {
        match intro_from(a[1].data) {
            Some(m) => if !m.is_initialized {
                Some(StudentIntroError::UninitializedAccount)
            } else if a[1].owner != program {
                Some(StudentIntroError::IllegalOwner)
            } else if a[1].key != intro_pda(a[0].key, program) {
                Some(StudentIntroError::AddressMismatch)
            } else if updated(m, msg).bytes().len() > MAX_INTRO_LEN {
                Some(StudentIntroError::SizeLimitExceeded)
            } else if updated(m, msg).bytes().len() > a[1].data.len() {
                Some(StudentIntroError::SizeLimitExceeded)
            } else {
                None
            },
            None => Some(StudentIntroError::UninitializedAccount),
        }
    }
}

/// The accounts after a successful update: only the message changed; the
/// supplied name is not used.
pub open spec fn update_post(a: Seq<AccountView>, msg: Seq<u8>) -> Seq<AccountView> {
    a.update(1, written(a[1], updated(intro_from(a[1].data).unwrap(), msg).bytes()))
}

/// What updating an intro record does: on failure nothing changes.
pub open spec fn update_outcome(
    pre: Seq<AccountView>,
    post: Seq<AccountView>,
    program: Seq<u8>,
    name: Seq<u8>,
    msg: Seq<u8>,
    r: Result<Seq<AllocationView>, StudentIntroError>,
) -> bool {
    match update_error(pre, program, name, msg) {
        Some(e) => r == Err::<Seq<AllocationView>, StudentIntroError>(e) && post == pre,
        None => r == Ok::<Seq<AllocationView>, StudentIntroError>(Seq::empty()) && post
            == update_post(pre, msg),
    }
}

// ---------------------------------------------------------------- reply

/// Why appending a reply fails, checked in this order; `None` when it
/// succeeds. Accounts: replier, intro record, reply counter, reply record,
/// allocation service.
pub open spec fn append_error(
    a: Seq<AccountView>,
    program: Seq<u8>,
    text: Seq<u8>,
) -> Option<StudentIntroError> {
    if a.len() < 5 {
        Some(StudentIntroError::NotEnoughAccountKeys)
    } else {
        match counter_from(a[2].data) {
            Some(c) => if !c.is_initialized {
                Some(StudentIntroError::UninitializedAccount)
            } else if a[2].owner != program {
                Some(StudentIntroError::IllegalOwner)
            } else if a[2].key != counter_pda(a[1].key, program) {
                Some(StudentIntroError::AddressMismatch)
            } else if c.counter == 255 {
                Some(StudentIntroError::ReplyLimitReached)
            } else if a[3].key != reply_pda(a[1].key, c.counter, program) {
                Some(StudentIntroError::AddressMismatch)
            } else if reply_size(text.len()) > MAX_ACCOUNT_DATA {
                Some(StudentIntroError::SizeLimitExceeded)
            } else if a[3].data.len() != 0 {
                Some(StudentIntroError::AlreadyInitialized)
            } else if !a[0].is_signer {
                Some(StudentIntroError::MissingSignature)
            } else {
                None
            },
            None => Some(StudentIntroError::UninitializedAccount),
        }
    }
}

/// The counter after one more reply.
pub open spec fn bumped(c: CounterModel) -> CounterModel {
    CounterModel { counter: (c.counter + 1) as u8, ..c }
}

/// The accounts after a successful append: the reply stored at its derived
/// address, and the counter one higher.
pub open spec fn append_post(a: Seq<AccountView>, program: Seq<u8>, text: Seq<u8>) -> Seq<
    AccountView,
> {
    a.update(2, written(a[2], bumped(counter_from(a[2].data).unwrap()).bytes())).update(
        3,
        allocated(a[3], program, reply_record(a[1].key, text).bytes()),
    )
}

/// The allocation a successful append requests.
pub open spec fn append_allocations(a: Seq<AccountView>, program: Seq<u8>, text: Seq<u8>) -> Seq<
    AllocationView,
> {
    seq![
        AllocationView {
            payer: a[0].key,
            address: a[3].key,
            space: reply_size(text.len()),
            owner: program,
            signer_seeds: signed_seeds(
                reply_seeds(a[1].key, counter_from(a[2].data).unwrap().counter),
                program,
            ),
        },
    ]
}

/// What appending a reply does: on failure nothing changes.
pub open spec fn append_outcome(
    pre: Seq<AccountView>,
    post: Seq<AccountView>,
    program: Seq<u8>,
    text: Seq<u8>,
    r: Result<Seq<AllocationView>, StudentIntroError>,
) -> bool {
    match append_error(pre, program, text) {
        Some(e) => r == Err::<Seq<AllocationView>, StudentIntroError>(e) && post == pre,
        None => r == Ok::<Seq<AllocationView>, StudentIntroError>(
            append_allocations(pre, program, text),
        ) && post == append_post(pre, program, text),
    }
}

// ---------------------------------------------------------------- helpers

/// The two texts are UTF-8 and spell the record tags.
pub proof fn lemma_tags_valid()
    ensures
        valid_utf8(intro_tag()),
        valid_utf8(counter_tag()),
        valid_utf8(reply_tag()),
        intro_tag() == encode_utf8(seq!['s', 't', 'u', 'd', 'e', 'n', 't', 'i', 'n', 'f', 'o']),
        counter_tag() == encode_utf8(seq!['c', 'o', 'u', 'n', 't', 'e', 'r']),
        reply_tag() == encode_utf8(seq!['r', 'e', 'p', 'l', 'y']),
{
    let a = seq!['s', 't', 'u', 'd', 'e', 'n', 't', 'i', 'n', 'f', 'o'];
    let b = seq!['c', 'o', 'u', 'n', 't', 'e', 'r'];
    let c = seq!['r', 'e', 'p', 'l', 'y'];
    assert(is_ascii_chars(a));
    assert(is_ascii_chars(b));
    assert(is_ascii_chars(c));
    is_ascii_chars_encode_utf8(a);
    is_ascii_chars_encode_utf8(b);
    is_ascii_chars_encode_utf8(c);
    assert(encode_utf8(a) =~= intro_tag());
    assert(encode_utf8(b) =~= counter_tag());
    assert(encode_utf8(c) =~= reply_tag());
    encode_utf8_valid_utf8(a);
    encode_utf8_valid_utf8(b);
    encode_utf8_valid_utf8(c);
}

fn intro_tag_text() -> (r: String)
    ensures
        encode_utf8(r@) == intro_tag(),
{
    let s = "studentinfo";
    proof {
        reveal_strlit("studentinfo");
        lemma_tags_valid();
    }
    assert(s@ =~= seq!['s', 't', 'u', 'd', 'e', 'n', 't', 'i', 'n', 'f', 'o']);
    s.to_owned()
}

fn counter_tag_text() -> (r: String)
    ensures
        encode_utf8(r@) == counter_tag(),
{
    let s = "counter";
    proof {
        reveal_strlit("counter");
        lemma_tags_valid();
    }
    assert(s@ =~= seq!['c', 'o', 'u', 'n', 't', 'e', 'r']);
    s.to_owned()
}

fn reply_tag_text() -> (r: String)
    ensures
        encode_utf8(r@) == reply_tag(),
{
    let s = "reply";
    proof {
        reveal_strlit("reply");
        lemma_tags_valid();
    }
    assert(s@ =~= seq!['r', 'e', 'p', 'l', 'y']);
    s.to_owned()
}

/// Whether two addresses are equal.
pub fn same_address(a: &[u8; 32], b: &[u8; 32]) -> (r: bool)
    ensures
        r == (a@ == b@),
{
    let mut i: usize = 0;
    while i < 32
        invariant
            i <= 32,
            a@.len() == 32,
            b@.len() == 32,
            a@.subrange(0, i as int) == b@.subrange(0, i as int),
        decreases 32 - i,
    {
        if a[i] != b[i] {
            assert(a@[i as int] != b@[i as int]);
            return false;
        }
        assert(a@.subrange(0, i + 1) =~= a@.subrange(0, i as int).push(a@[i as int]));
        assert(b@.subrange(0, i + 1) =~= b@.subrange(0, i as int).push(b@[i as int]));
        i = i + 1;
    }
    assert(a@ =~= a@.subrange(0, 32));
    assert(b@ =~= b@.subrange(0, 32));
    true
}

/// The UTF-8 length of `s`.
fn text_len(s: &String) -> (r: usize)
    ensures
        r == encode_utf8(s@).len(),
{
    s.as_str().as_bytes().len()
}

// ---------------------------------------------------------------- handlers

/// The signer seeds `seeds` followed by `bump`.
fn with_bump(seeds: Vec<Vec<u8>>, bump: u8) -> (r: Vec<Vec<u8>>)
    ensures
        seed_views(r@) == seed_views(seeds@).push(seq![bump]),
{
    let mut r = seeds;
    let b: Vec<u8> = vec![bump];
    assert(b@ =~= seq![bump]);
    r.push(b);
    assert(seed_views(r@) =~= seed_views(seeds@).push(seq![bump]));
    r
}

/// Creates the intro record of the payer and its reply counter at zero.
/// Accounts: payer, intro record, reply counter, allocation service.
pub fn add_student_intro(
    program_id: &[u8; 32],
    accounts: &mut Vec<AccountRecord>,
    name: String,
    message: String,
) -> (r: Result<Vec<Allocation>, StudentIntroError>)
    ensures
        create_outcome(
            views(old(accounts)@),
            views(final(accounts)@),
            program_id@,
            encode_utf8(name@),
            encode_utf8(message@),
            outcome(r),
        ),
{
    let ghost pre = views(accounts@);
    if accounts.len() < 4 {
        return Err(StudentIntroError::NotEnoughAccountKeys);
    }
    let payer = accounts[0].key;
    let intro_key = accounts[1].key;
    let counter_key = accounts[2].key;
    let (pda, bump) = intro_address(&payer, program_id);
    if !same_address(&pda, &intro_key) {
        return Err(StudentIntroError::AddressMismatch);
    }
    let name_len = text_len(&name);
    let message_len = text_len(&message);
    if name_len > MAX_INTRO_LEN || message_len > MAX_INTRO_LEN || 4 + 11 + 1 + 4 + name_len + 4
        + message_len > MAX_INTRO_LEN {
        return Err(StudentIntroError::SizeLimitExceeded);
    }
    let (counter, counter_bump) = counter_address(&pda, program_id);
    if !same_address(&counter, &counter_key) {
        return Err(StudentIntroError::AddressMismatch);
    }
    if accounts[1].data.len() != 0 || accounts[2].data.len() != 0 {
        return Err(StudentIntroError::AlreadyInitialized);
    }
    if !accounts[0].is_signer {
        return Err(StudentIntroError::MissingSignature);
    }
    proof {
        lemma_tags_valid();
        encode_utf8_valid_utf8(name@);
        encode_utf8_valid_utf8(message@);
    }
    let info = StudentInfo {
        discriminator: intro_tag_text(),
        is_initialized: true,
        name,
        msg: message,
    };
    assert(info@ == intro_record(encode_utf8(name@), encode_utf8(message@)));
    let bytes = info.pack();
    let storage = zeroed(MAX_INTRO_LEN);
    let intro_data = overlay(&bytes, &storage);
    assert(intro_data@ =~= bytes@ + zeros((MAX_INTRO_LEN - bytes@.len()) as nat));
    let intro_signer = accounts[1].is_signer;
    accounts.set(
        1,
        AccountRecord { key: intro_key, owner: *program_id, is_signer: intro_signer, data: intro_data },
    );
    let tally = ReplyCounter { discriminator: counter_tag_text(), is_initialized: true, counter: 0 };
    let counter_data = tally.pack();
    let counter_len = counter_data.len();
    let counter_signer = accounts[2].is_signer;
    accounts.set(
        2,
        AccountRecord {
            key: counter_key,
            owner: *program_id,
            is_signer: counter_signer,
            data: counter_data,
        },
    );
    let mut allocations: Vec<Allocation> = Vec::new();
    allocations.push(
        Allocation {
            payer,
            address: intro_key,
            space: MAX_INTRO_LEN as u64,
            owner: *program_id,
            signer_seeds: with_bump(intro_seed_list(&payer), bump),
        },
    );
    allocations.push(
        Allocation {
            payer,
            address: counter_key,
            space: counter_len as u64,
            owner: *program_id,
            signer_seeds: with_bump(counter_seed_list(&pda), counter_bump),
        },
    );
    assert(allocation_views(allocations@) =~= create_allocations(pre, program_id@));
    assert(views(accounts@) =~= create_post(
        pre,
        program_id@,
        encode_utf8(name@),
        encode_utf8(message@),
    ));
    Ok(allocations)
}

/// Replaces the message of an existing intro record. The supplied name is not
/// used: the stored name is kept, and the size bound counts the stored name.
/// Accounts: payer, intro record.
pub fn update_student_intro(
    program_id: &[u8; 32],
    accounts: &mut Vec<AccountRecord>,
    name: String,
    message: String,
) -> (r: Result<Vec<Allocation>, StudentIntroError>)
    ensures
        update_outcome(
            views(old(accounts)@),
            views(final(accounts)@),
            program_id@,
            encode_utf8(name@),
            encode_utf8(message@),
            outcome(r),
        ),
{
    let ghost pre = views(accounts@);
    if accounts.len() < 2 {
        return Err(StudentIntroError::NotEnoughAccountKeys);
    }
    let stored = match StudentInfo::unpack_from(accounts[1].data.as_slice()) {
        Some(info) => info,
        None => return Err(StudentIntroError::UninitializedAccount),
    };
    if !stored.is_initialized() {
        return Err(StudentIntroError::UninitializedAccount);
    }
    if !same_address(&accounts[1].owner, program_id) {
        return Err(StudentIntroError::IllegalOwner);
    }
    let (pda, _bump) = intro_address(&accounts[0].key, program_id);
    if !same_address(&pda, &accounts[1].key) {
        return Err(StudentIntroError::AddressMismatch);
    }
    let tag_len = text_len(&stored.discriminator);
    let stored_name_len = text_len(&stored.name);
    let message_len = text_len(&message);
    if tag_len > MAX_INTRO_LEN || message_len > MAX_INTRO_LEN || stored_name_len > MAX_INTRO_LEN
        || 4 + tag_len + 1 + 4 + stored_name_len + 4 + message_len > MAX_INTRO_LEN {
        return Err(StudentIntroError::SizeLimitExceeded);
    }
    proof {
        encode_utf8_valid_utf8(message@);
    }
    let ghost m = stored@;
    let next = StudentInfo {
        discriminator: stored.discriminator,
        is_initialized: stored.is_initialized,
        name: stored.name,
        msg: message,
    };
    assert(next@ == updated(m, encode_utf8(message@)));
    let bytes = next.pack();
    if bytes.len() > accounts[1].data.len() {
        return Err(StudentIntroError::SizeLimitExceeded);
    }
    let data = overlay(&bytes, &accounts[1].data);
    let key = accounts[1].key;
    let owner = accounts[1].owner;
    let is_signer = accounts[1].is_signer;
    accounts.set(1, AccountRecord { key, owner, is_signer, data });
    assert(views(accounts@) =~= update_post(pre, encode_utf8(message@)));
    let allocations: Vec<Allocation> = Vec::new();
    assert(allocation_views(allocations@) =~= Seq::<AllocationView>::empty());
    Ok(allocations)
}

/// Stores a reply at the address derived from the intro record and the
/// current count, then raises the count by one.
/// Accounts: replier, intro record, reply counter, reply record, allocation service.
pub fn add_reply(program_id: &[u8; 32], accounts: &mut Vec<AccountRecord>, reply: String) -> (r:
    Result<Vec<Allocation>, StudentIntroError>)
    ensures
        append_outcome(
            views(old(accounts)@),
            views(final(accounts)@),
            program_id@,
            encode_utf8(reply@),
            outcome(r),
        ),
{
    let ghost pre = views(accounts@);
    if accounts.len() < 5 {
        return Err(StudentIntroError::NotEnoughAccountKeys);
    }
    let tally = match ReplyCounter::unpack_from(accounts[2].data.as_slice()) {
        Some(c) => c,
        None => return Err(StudentIntroError::UninitializedAccount),
    };
    if !tally.is_initialized() {
        return Err(StudentIntroError::UninitializedAccount);
    }
    if !same_address(&accounts[2].owner, program_id) {
        return Err(StudentIntroError::IllegalOwner);
    }
    let intro_key = accounts[1].key;
    let (counter, _counter_bump) = counter_address(&intro_key, program_id);
    if !same_address(&counter, &accounts[2].key) {
        return Err(StudentIntroError::AddressMismatch);
    }
    if tally.counter == 255 {
        return Err(StudentIntroError::ReplyLimitReached);
    }
    let (pda, bump) = reply_address(&intro_key, tally.counter, program_id);
    if !same_address(&pda, &accounts[3].key) {
        return Err(StudentIntroError::AddressMismatch);
    }
    let reply_len = text_len(&reply);
    if reply_len > MAX_ACCOUNT_DATA || 4 + 5 + 1 + 32 + 4 + reply_len > MAX_ACCOUNT_DATA {
        return Err(StudentIntroError::SizeLimitExceeded);
    }
    if accounts[3].data.len() != 0 {
        return Err(StudentIntroError::AlreadyInitialized);
    }
    if !accounts[0].is_signer {
        return Err(StudentIntroError::MissingSignature);
    }
    proof {
        lemma_tags_valid();
        encode_utf8_valid_utf8(reply@);
    }
    let ghost text = encode_utf8(reply@);
    let ghost c = tally@;
    let record = Reply {
        discriminator: reply_tag_text(),
        is_initialized: true,
        studentinfo: intro_key,
        reply,
    };
    assert(record@ == reply_record(intro_key@, text));
    let reply_data = record.pack();
    let space = reply_data.len() as u64;
    let reply_key = accounts[3].key;
    let reply_signer = accounts[3].is_signer;
    accounts.set(
        3,
        AccountRecord { key: reply_key, owner: *program_id, is_signer: reply_signer, data: reply_data },
    );
    let count = tally.counter;
    let next = ReplyCounter {
        discriminator: tally.discriminator,
        is_initialized: tally.is_initialized,
        counter: count + 1,
    };
    assert(next@ == bumped(c));
    let counter_bytes = next.pack();
    let counter_data = overlay(&counter_bytes, &accounts[2].data);
    let counter_key = accounts[2].key;
    let counter_owner = accounts[2].owner;
    let counter_signer = accounts[2].is_signer;
    accounts.set(
        2,
        AccountRecord {
            key: counter_key,
            owner: counter_owner,
            is_signer: counter_signer,
            data: counter_data,
        },
    );
    let mut allocations: Vec<Allocation> = Vec::new();
    allocations.push(
        Allocation {
            payer: accounts[0].key,
            address: reply_key,
            space,
            owner: *program_id,
            signer_seeds: with_bump(reply_seed_list(&intro_key, count), bump),
        },
    );
    assert(allocation_views(allocations@) =~= append_allocations(pre, program_id@, text));
    assert(views(accounts@) =~= append_post(pre, program_id@, text));
    Ok(allocations)
}

/// What an instruction does: malformed bytes change nothing; otherwise the
/// decoded command's handler runs.
pub open spec fn process_outcome(
    pre: Seq<AccountView>,
    post: Seq<AccountView>,
    program: Seq<u8>,
    input: Seq<u8>,
    r: Result<Seq<AllocationView>, StudentIntroError>,
) -> bool {
    match decode_instruction(input) {
        None => r == Err::<Seq<AllocationView>, StudentIntroError>(
            StudentIntroError::DecodingError,
        ) && post == pre,
        Some(Command::Init { name, message }) => create_outcome(pre, post, program, name, message, r),
        Some(Command::Update { name, message }) => update_outcome(
            pre,
            post,
            program,
            name,
            message,
            r,
        ),
        Some(Command::Reply { reply }) => append_outcome(pre, post, program, reply, r),
    }
}

/// Decodes one instruction and runs it against the accounts it lists. The
/// returned allocations are the accounts the host is asked to create.
pub fn process_instruction(
    program_id: &[u8; 32],
    accounts: &mut Vec<AccountRecord>,
    instruction_data: &[u8],
) -> (r: Result<Vec<Allocation>, StudentIntroError>)
    ensures
        process_outcome(
            views(old(accounts)@),
            views(final(accounts)@),
            program_id@,
            instruction_data@,
            outcome(r),
        ),
{
    let instruction = match IntroInstruction::unpack(instruction_data) {
        Ok(i) => i,
        Err(e) => return Err(e),
    };
    match instruction {
        IntroInstruction::InitUserInput { name, message } => add_student_intro(
            program_id,
            accounts,
            name,
            message,
        ),
        IntroInstruction::UpdateStudentIntro { name, message } => update_student_intro(
            program_id,
            accounts,
            name,
            message,
        ),
        IntroInstruction::AddReply { reply } => add_reply(program_id, accounts, reply),
    }
}

} // verus!
