//! Laws of the record lifecycle across instructions.
use crate::address::{counter_pda, intro_pda, reply_pda};
use crate::codec::text_at;
use crate::error::StudentIntroError;
use crate::processor::{
    append_error, append_outcome, append_post, bumped, create_error, create_outcome, create_post,
    fresh_counter, intro_record, intro_size, lemma_tags_valid, reply_record, updated,
    update_outcome, AccountView, AllocationView, MAX_INTRO_LEN,
};
use crate::state::{
    counter_from, intro_from, lemma_counter_round_trip, lemma_intro_round_trip,
    lemma_reply_round_trip, reply_from,
};
use vstd::prelude::*;
use vstd::utf8::valid_utf8;

verus! {

/// For any payer whose accounts are in place and any name and message whose
/// record fits, creating the intro record succeeds; a second create for the
/// same payer, with any name and message that fit, then fails with
/// `AlreadyInitialized` and changes nothing.
pub proof fn create_succeeds_once(
    pre: Seq<AccountView>,
    mid: Seq<AccountView>,
    post: Seq<AccountView>,
    program: Seq<u8>,
    name: Seq<u8>,
    msg: Seq<u8>,
    name2: Seq<u8>,
    msg2: Seq<u8>,
    r1: Result<Seq<AllocationView>, StudentIntroError>,
    r2: Result<Seq<AllocationView>, StudentIntroError>,
)
    requires
        pre.len() >= 4,
        pre[0].is_signer,
        pre[1].key == intro_pda(pre[0].key, program),
        pre[2].key == counter_pda(pre[1].key, program),
        pre[1].data.len() == 0,
        pre[2].data.len() == 0,
        intro_size(name.len(), msg.len()) <= MAX_INTRO_LEN,
        intro_size(name2.len(), msg2.len()) <= MAX_INTRO_LEN,
        create_outcome(pre, mid, program, name, msg, r1),
        create_outcome(mid, post, program, name2, msg2, r2),
    ensures
        r1 is Ok,
        r2 == Err::<Seq<AllocationView>, StudentIntroError>(StudentIntroError::AlreadyInitialized),
        post == mid,
{
    assert(create_error(pre, program, name, msg) is None);
    assert(mid == create_post(pre, program, name, msg));
    assert(mid[1].data.len() == MAX_INTRO_LEN);
}

/// A fresh counter reads back from its bytes.
proof fn fresh_counter_reads_back()
    ensures
        counter_from(fresh_counter().bytes()) == Some(fresh_counter()),
{
    lemma_tags_valid();
    lemma_counter_round_trip(fresh_counter(), Seq::empty());
    assert(fresh_counter().bytes() + Seq::<u8>::empty() =~= fresh_counter().bytes());
}

/// A created intro record reads back from its zero-padded storage.
proof fn created_intro_reads_back(name: Seq<u8>, msg: Seq<u8>, pad: nat)
    requires
        valid_utf8(name),
        valid_utf8(msg),
        intro_size(name.len(), msg.len()) <= MAX_INTRO_LEN,
    ensures
        intro_from(intro_record(name, msg).bytes() + Seq::new(pad, |i: int| 0u8)) == Some(
            intro_record(name, msg),
        ),
{
    lemma_tags_valid();
    lemma_intro_round_trip(intro_record(name, msg), Seq::new(pad, |i: int| 0u8));
}

/// Right after a create, the reply counter reads zero and the intro record
/// holds the name and message given.
pub proof fn create_starts_counter_at_zero(
    pre: Seq<AccountView>,
    post: Seq<AccountView>,
    program: Seq<u8>,
    name: Seq<u8>,
    msg: Seq<u8>,
    r: Result<Seq<AllocationView>, StudentIntroError>,
)
    requires
        valid_utf8(name),
        valid_utf8(msg),
        create_outcome(pre, post, program, name, msg, r),
        r is Ok,
    ensures
        counter_from(post[2].data) == Some(fresh_counter()),
        intro_from(post[1].data) == Some(intro_record(name, msg)),
{
    assert(create_error(pre, program, name, msg) is None);
    let rec = intro_record(name, msg).bytes();
    let pad = (MAX_INTRO_LEN - rec.len()) as nat;
    assert(post[2].data == fresh_counter().bytes());
    assert(post[1].data == rec + Seq::new(pad, |i: int| 0u8));
    fresh_counter_reads_back();
    created_intro_reads_back(name, msg, pad);
}

/// A counter read from storage has a UTF-8 tag of framable length.
proof fn counter_read_is_well_formed(b: Seq<u8>)
    requires
        counter_from(b) is Some,
    ensures
        counter_from(b).unwrap().well_formed(),
{
    let (d, p1) = text_at(b, 0).unwrap();
    assert(d.len() <= u32::MAX);
}

/// The counter written by a successful append reads back one higher.
proof fn append_counter_step(pre: Seq<AccountView>, program: Seq<u8>, text: Seq<u8>)
    requires
        pre.len() >= 5,
        counter_from(pre[2].data) is Some,
    ensures
        counter_from(append_post(pre, program, text)[2].data) == Some(
            bumped(counter_from(pre[2].data).unwrap()),
        ),
{
    let c = counter_from(pre[2].data).unwrap();
    counter_read_is_well_formed(pre[2].data);
    let b = bumped(c).bytes();
    assert(bumped(c).well_formed());
    let rest = pre[2].data.subrange(b.len() as int, pre[2].data.len() as int);
    lemma_counter_round_trip(bumped(c), rest);
}

/// The reply written by a successful append reads back.
proof fn append_reply_step(pre: Seq<AccountView>, program: Seq<u8>, text: Seq<u8>)
    requires
        pre.len() >= 5,
        valid_utf8(text),
        text.len() <= u32::MAX,
        pre[1].key.len() == 32,
    ensures
        reply_from(append_post(pre, program, text)[3].data) == Some(reply_record(pre[1].key, text)),
{
    lemma_tags_valid();
    let rec = reply_record(pre[1].key, text);
    assert(rec.well_formed());
    lemma_reply_round_trip(rec, Seq::empty());
    assert(rec.bytes() + Seq::<u8>::empty() =~= rec.bytes());
}

/// One successful append stores the reply at the address of the current count
/// and raises the count by one.
pub proof fn append_step(pre: Seq<AccountView>, program: Seq<u8>, text: Seq<u8>)
    requires
        append_error(pre, program, text) is None,
        valid_utf8(text),
        pre[1].key.len() == 32,
    ensures
        ({
            let c = counter_from(pre[2].data).unwrap();
            let post = append_post(pre, program, text);
            &&& counter_from(post[2].data) == Some(bumped(c))
            &&& c.counter < 255
            &&& post[3].key == reply_pda(pre[1].key, c.counter, program)
            &&& reply_from(post[3].data) == Some(reply_record(pre[1].key, text))
        }),
{
    append_counter_step(pre, program, text);
    append_reply_step(pre, program, text);
}

/// The count before the `i`-th of a run of appends is `i`.
proof fn count_before(
    ins: Seq<Seq<AccountView>>,
    outs: Seq<Seq<AccountView>>,
    rs: Seq<Result<Seq<AllocationView>, StudentIntroError>>,
    program: Seq<u8>,
    texts: Seq<Seq<u8>>,
    i: int,
)
    requires
        ins.len() == texts.len(),
        outs.len() == texts.len(),
        rs.len() == texts.len(),
        0 <= i < texts.len(),
        counter_from(ins[0][2].data) matches Some(c) && c.counter == 0,
        ins[0][1].key.len() == 32,
        forall|k: int|
            0 <= k < texts.len() ==> append_outcome(
                #[trigger] ins[k],
                outs[k],
                program,
                texts[k],
                rs[k],
            ) && rs[k] is Ok && valid_utf8(texts[k]),
        forall|k: int|
            0 < k < texts.len() ==> (#[trigger] ins[k]).len() >= 5 && ins[k][1].key == ins[0][1].key
                && ins[k][2] == outs[k - 1][2],
    ensures
        counter_from(ins[i][2].data) matches Some(c) && c.counter == i,
    decreases i,
{
    if i > 0 {
        count_before(ins, outs, rs, program, texts, i - 1);
        let pre = ins[i - 1];
        assert(append_outcome(ins[i - 1], outs[i - 1], program, texts[i - 1], rs[i - 1]));
        assert(append_error(pre, program, texts[i - 1]) is None);
        if i - 1 > 0 {
            assert(ins[i - 1][1].key == ins[0][1].key);
        }
        append_step(pre, program, texts[i - 1]);
        assert(ins[i][2] == outs[i - 1][2]);
    }
}

/// After a run of appends on one intro record, starting from a count of zero:
/// the count after the `i`-th is `i + 1`, and the `i`-th reply sits at the
/// address derived from the intro record's address and `i`, holding the
/// `i`-th text.
pub proof fn replies_are_indexed(
    ins: Seq<Seq<AccountView>>,
    outs: Seq<Seq<AccountView>>,
    rs: Seq<Result<Seq<AllocationView>, StudentIntroError>>,
    program: Seq<u8>,
    texts: Seq<Seq<u8>>,
)
    requires
        ins.len() == texts.len(),
        outs.len() == texts.len(),
        rs.len() == texts.len(),
        texts.len() > 0,
        counter_from(ins[0][2].data) matches Some(c) && c.counter == 0,
        ins[0][1].key.len() == 32,
        forall|k: int|
            0 <= k < texts.len() ==> append_outcome(
                #[trigger] ins[k],
                outs[k],
                program,
                texts[k],
                rs[k],
            ) && rs[k] is Ok && valid_utf8(texts[k]),
        forall|k: int|
            0 < k < texts.len() ==> (#[trigger] ins[k]).len() >= 5 && ins[k][1].key == ins[0][1].key
                && ins[k][2] == outs[k - 1][2],
    ensures
        forall|i: int|
            0 <= i < texts.len() ==> (counter_from((#[trigger] outs[i])[2].data) matches Some(c)
                && c.counter == i + 1),
        forall|i: int|
            0 <= i < texts.len() ==> (#[trigger] outs[i])[3].key == reply_pda(
                ins[0][1].key,
                i as u8,
                program,
            ) && reply_from(outs[i][3].data) == Some(reply_record(ins[0][1].key, texts[i])),
{
    assert forall|i: int| 0 <= i < texts.len() implies (counter_from(
        (#[trigger] outs[i])[2].data,
    ) matches Some(c) && c.counter == i + 1) && outs[i][3].key == reply_pda(
        ins[0][1].key,
        i as u8,
        program,
    ) && reply_from(outs[i][3].data) == Some(reply_record(ins[0][1].key, texts[i])) by {
        count_before(ins, outs, rs, program, texts, i);
        assert(append_outcome(ins[i], outs[i], program, texts[i], rs[i]));
        if i > 0 {
            assert(ins[i][1].key == ins[0][1].key);
        }
        append_step(ins[i], program, texts[i]);
    }
}

/// Updating an intro record that was never created fails with
/// `UninitializedAccount` and changes nothing.
pub proof fn update_needs_created_record(
    pre: Seq<AccountView>,
    post: Seq<AccountView>,
    program: Seq<u8>,
    name: Seq<u8>,
    msg: Seq<u8>,
    r: Result<Seq<AllocationView>, StudentIntroError>,
)
    requires
        pre.len() >= 2,
        !(intro_from(pre[1].data) matches Some(m) && m.is_initialized),
        update_outcome(pre, post, program, name, msg, r),
    ensures
        r == Err::<Seq<AllocationView>, StudentIntroError>(StudentIntroError::UninitializedAccount),
        post == pre,
{
}

/// Updating a created record with a message too long for it fails with
/// `SizeLimitExceeded` and leaves the stored message as it was.
pub proof fn update_rejects_oversized(
    pre: Seq<AccountView>,
    post: Seq<AccountView>,
    program: Seq<u8>,
    name: Seq<u8>,
    msg: Seq<u8>,
    r: Result<Seq<AllocationView>, StudentIntroError>,
)
    requires
        pre.len() >= 2,
        intro_from(pre[1].data) matches Some(m) && m.is_initialized && updated(m, msg).bytes().len()
            > MAX_INTRO_LEN,
        pre[1].owner == program,
        pre[1].key == intro_pda(pre[0].key, program),
        update_outcome(pre, post, program, name, msg, r),
    ensures
        r == Err::<Seq<AllocationView>, StudentIntroError>(StudentIntroError::SizeLimitExceeded),
        intro_from(post[1].data) == intro_from(pre[1].data),
{
}

} // verus!
