//! Deterministic addresses of the three record kinds.
use vstd::prelude::*;

verus! {

/// The address and bump seed that the program-address search finds for
/// `seeds` under `program`.
pub uninterp spec fn program_address(seeds: Seq<Seq<u8>>, program: Seq<u8>) -> (Seq<u8>, u8);

/// The byte contents of each seed.
pub open spec fn seed_views(seeds: Seq<Vec<u8>>) -> Seq<Seq<u8>> {
    seeds.map_values(|s: Vec<u8>| s@)
}

/// The fixed seed that tells a reply counter's address from its intro record's.
pub open spec fn reply_tag() -> Seq<u8> {
    seq![114u8, 101u8, 112u8, 108u8, 121u8]
}

/// Seeds of the intro record of `payer`.
pub open spec fn intro_seeds(payer: Seq<u8>) -> Seq<Seq<u8>> {
    seq![payer]
}

/// Seeds of the reply counter paired with the intro record at `intro`.
pub open spec fn counter_seeds(intro: Seq<u8>) -> Seq<Seq<u8>> {
    seq![intro, reply_tag()]
}

/// Seeds of the reply with ordinal `count` under the intro record at `intro`:
/// the ordinal as one big-endian byte.
pub open spec fn reply_seeds(intro: Seq<u8>, count: u8) -> Seq<Seq<u8>> {
    seq![intro, seq![count]]
}

/// Address of the intro record of `payer`.
pub open spec fn intro_pda(payer: Seq<u8>, program: Seq<u8>) -> Seq<u8> {
    program_address(intro_seeds(payer), program).0
}

/// Address of the reply counter of the intro record at `intro`.
pub open spec fn counter_pda(intro: Seq<u8>, program: Seq<u8>) -> Seq<u8> {
    program_address(counter_seeds(intro), program).0
}

/// Address of the reply with ordinal `count` under the intro record at `intro`.
pub open spec fn reply_pda(intro: Seq<u8>, count: u8, program: Seq<u8>) -> Seq<u8> {
    program_address(reply_seeds(intro, count), program).0
}

/// Relies on `solana_program::pubkey::Pubkey::find_program_address`: it scans
/// bump seeds down from 255 and returns the first off-curve address, so its
/// result is a function of the seeds and the program id. It panics with 16 or
/// more seeds or a seed over 32 bytes; it also panics if no bump works, which
/// happens with probability about 2^-255.
#[verifier::external_body]
fn find_program_address(seeds: &Vec<Vec<u8>>, program_id: &[u8; 32]) -> (r: ([u8; 32], u8))
    requires
        seeds@.len() < 16,
        forall|i: int| 0 <= i < seeds@.len() ==> #[trigger] seeds@[i]@.len() <= 32,
    ensures
        (r.0@, r.1) == program_address(seed_views(seeds@), program_id@),
{
    let refs: Vec<&[u8]> = seeds.iter().map(|s| s.as_slice()).collect();
    let program = solana_program::pubkey::Pubkey::new_from_array(*program_id);
    let (key, bump) = solana_program::pubkey::Pubkey::find_program_address(&refs, &program);
    (key.to_bytes(), bump)
}

/// The 32 bytes of an address, as a seed.
pub fn address_seed(a: &[u8; 32]) -> (r: Vec<u8>)
    ensures
        r@ == a@,
{
    let mut r: Vec<u8> = Vec::with_capacity(32);
    let mut i: usize = 0;
    while i < 32
        invariant
            i <= 32,
            a@.len() == 32,
            r@ == a@.subrange(0, i as int),
        decreases 32 - i,
    {
        r.push(a[i]);
        i = i + 1;
    }
    assert(r@ =~= a@);
    r
}

/// Derives an address and bump from `seeds`; the same inputs always give the
/// same result.
pub fn derive_address(seeds: &Vec<Vec<u8>>, program_id: &[u8; 32]) -> (r: ([u8; 32], u8))
    requires
        seeds@.len() < 16,
        forall|i: int| 0 <= i < seeds@.len() ==> #[trigger] seeds@[i]@.len() <= 32,
    ensures
        (r.0@, r.1) == program_address(seed_views(seeds@), program_id@),
{
    find_program_address(seeds, program_id)
}

/// The seeds of the intro record of `payer`.
pub fn intro_seed_list(payer: &[u8; 32]) -> (r: Vec<Vec<u8>>)
    ensures
        seed_views(r@) == intro_seeds(payer@),
        r@.len() == 1,
        r@[0]@.len() == 32,
{
    let mut r: Vec<Vec<u8>> = Vec::new();
    r.push(address_seed(payer));
    assert(seed_views(r@) =~= intro_seeds(payer@));
    r
}

/// The seeds of the reply counter of the intro record at `intro`.
pub fn counter_seed_list(intro: &[u8; 32]) -> (r: Vec<Vec<u8>>)
    ensures
        seed_views(r@) == counter_seeds(intro@),
        r@.len() == 2,
        r@[0]@.len() == 32,
        r@[1]@.len() == 5,
{
    let mut r: Vec<Vec<u8>> = Vec::new();
    r.push(address_seed(intro));
    r.push(vec![114u8, 101u8, 112u8, 108u8, 121u8]);
    assert(r@[1]@ =~= reply_tag());
    assert(seed_views(r@) =~= counter_seeds(intro@));
    r
}

/// The seeds of the reply with ordinal `count` under the intro record at `intro`.
pub fn reply_seed_list(intro: &[u8; 32], count: u8) -> (r: Vec<Vec<u8>>)
    ensures
        seed_views(r@) == reply_seeds(intro@, count),
        r@.len() == 2,
        r@[0]@.len() == 32,
        r@[1]@.len() == 1,
{
    let mut r: Vec<Vec<u8>> = Vec::new();
    r.push(address_seed(intro));
    r.push(vec![count]);
    assert(r@[1]@ =~= seq![count]);
    assert(seed_views(r@) =~= reply_seeds(intro@, count));
    r
}

/// Address and bump of the intro record of `payer`.
pub fn intro_address(payer: &[u8; 32], program_id: &[u8; 32]) -> (r: ([u8; 32], u8))
    ensures
        (r.0@, r.1) == program_address(intro_seeds(payer@), program_id@),
{
    let seeds = intro_seed_list(payer);
    find_program_address(&seeds, program_id)
}

/// Address and bump of the reply counter of the intro record at `intro`.
pub fn counter_address(intro: &[u8; 32], program_id: &[u8; 32]) -> (r: ([u8; 32], u8))
    ensures
        (r.0@, r.1) == program_address(counter_seeds(intro@), program_id@),
{
    let seeds = counter_seed_list(intro);
    find_program_address(&seeds, program_id)
}

/// Address and bump of the reply with ordinal `count` under the intro record at
/// `intro`: the ordinal alone locates the reply.
pub fn reply_address(intro: &[u8; 32], count: u8, program_id: &[u8; 32]) -> (r: ([u8; 32], u8))
    ensures
        (r.0@, r.1) == program_address(reply_seeds(intro@, count), program_id@),
{
    let seeds = reply_seed_list(intro, count);
    find_program_address(&seeds, program_id)
}

/// Derivation is a function of its inputs: two derivations from equal seeds
/// under equal program ids give the same address and bump.
pub proof fn derive_is_deterministic(
    seeds_a: Seq<Seq<u8>>,
    seeds_b: Seq<Seq<u8>>,
    program_a: Seq<u8>,
    program_b: Seq<u8>,
)
    requires
        seeds_a == seeds_b,
        program_a == program_b,
    ensures
        program_address(seeds_a, program_a) == program_address(seeds_b, program_b),
{
}

} // verus!
