use vstd::prelude::*;

use anchor_lang::prelude::Pubkey;

use crate::key::Key;

verus! {

/// What `Pubkey::create_program_address` returns for a list of seeds (the bump
/// included) and a program id; `None` where it returns an error.
pub uninterp spec fn created_address_of(seeds: Seq<Seq<u8>>, program: Seq<u8>) -> Option<Seq<u8>>;

/// The first bump from `bump` down to 1 that, appended to `seeds`, gives an
/// address, with that address.
pub open spec fn first_bump_address(seeds: Seq<Seq<u8>>, program: Seq<u8>, bump: nat) -> Option<(Seq<u8>, u8)>
    decreases bump,
{
    if bump == 0 {
        None
    } else {
        match created_address_of(seeds.push(seq![bump as u8]), program) {
            Some(a) => Some((a, bump as u8)),
            None => first_bump_address(seeds, program, (bump - 1) as nat),
        }
    }
}

/// The program address of `seeds` under `program`, and its bump: the first bump
/// from 255 down to 1 that gives an address.
pub open spec fn program_address_of(seeds: Seq<Seq<u8>>, program: Seq<u8>) -> Option<(Seq<u8>, u8)> {
    first_bump_address(seeds, program, 255)
}

/// A bump that the search finds re-derives the address found with it.
pub proof fn lemma_found_bump_rederives(seeds: Seq<Seq<u8>>, program: Seq<u8>, bump: nat)
    requires
        first_bump_address(seeds, program, bump) is Some,
    ensures
        created_address_of(seeds.push(seq![first_bump_address(seeds, program, bump)->Some_0.1]), program)
            == Some(first_bump_address(seeds, program, bump)->Some_0.0),
    decreases bump,
{
    if bump > 0 {
        if created_address_of(seeds.push(seq![bump as u8]), program) is None {
            lemma_found_bump_rederives(seeds, program, (bump - 1) as nat);
        }
    }
}

/// The tag that starts the seeds of every escrow record: the bytes of "escrow".
pub open spec fn escrow_tag() -> Seq<u8> {
    seq![101u8, 115u8, 99u8, 114u8, 111u8, 119u8]
}

/// The `n` low bytes of `x`, least significant first.
pub open spec fn le_bytes(x: nat, n: nat) -> Seq<u8>
    decreases n,
{
    if n == 0 {
        Seq::empty()
    } else {
        seq![(x % 256) as u8] + le_bytes(x / 256, (n - 1) as nat)
    }
}

/// The seeds of the record that `maker` opens under `seed`.
pub open spec fn escrow_seeds(maker: Key, seed: u64) -> Seq<Seq<u8>> {
    seq![escrow_tag(), maker@, le_bytes(seed as nat, 8)]
}

/// The address and bump of the record that `maker` opens under `seed`.
pub open spec fn escrow_address(maker: Key, seed: u64, program: Key) -> Option<(Seq<u8>, u8)> {
    program_address_of(escrow_seeds(maker, seed), program@)
}

/// The address that the record of `maker` under `seed` has with `bump`, if any.
pub open spec fn rederived_address(maker: Key, seed: u64, bump: u8, program: Key) -> Option<Seq<u8>> {
    created_address_of(escrow_seeds(maker, seed).push(seq![bump]), program@)
}

/// The seeds of the holding account of `wallet` for `mint`.
pub open spec fn holding_seeds(wallet: Key, mint: Key, token_program: Key) -> Seq<Seq<u8>> {
    seq![wallet@, token_program@, mint@]
}

/// The address of the holding account of `wallet` for `mint`: the address that
/// the associated-token program derives from the wallet, the token program and
/// the mint, if it finds one.
pub open spec fn holding_address(wallet: Key, mint: Key, token_program: Key, associated_token_program: Key)
    -> Option<Seq<u8>>
{
    match program_address_of(holding_seeds(wallet, mint, token_program), associated_token_program@) {
        Some(p) => Some(p.0),
        None => None,
    }
}

pub open spec fn seeds_view(seeds: &Vec<Vec<u8>>) -> Seq<Seq<u8>> {
    seeds@.map_values(|s: Vec<u8>| s@)
}

/// The eight bytes of `x`, least significant first.
pub fn le_bytes_of(x: u64) -> (r: Vec<u8>)
    ensures
        r@ == le_bytes(x as nat, 8),
{
    let mut out: Vec<u8> = Vec::new();
    let mut y: u64 = x;
    let mut i: usize = 0;
    while i < 8
        invariant
            0 <= i <= 8,
            out@ + le_bytes(y as nat, (8 - i) as nat) == le_bytes(x as nat, 8),
        decreases 8 - i,
    {
        let b: u8 = (y % 256) as u8;
        proof {
            let rest = le_bytes(y as nat / 256, (8 - i - 1) as nat);
            assert(le_bytes(y as nat, (8 - i) as nat) == seq![b] + rest);
            assert(out@.push(b) + rest =~= out@ + (seq![b] + rest));
        }
        out.push(b);
        y = y / 256;
        i = i + 1;
    }
    assert(out@ + le_bytes(y as nat, 0) =~= out@);
    out
}

fn key_bytes(k: &Key) -> (r: Vec<u8>)
    ensures
        r@ == k@,
{
    let mut out: Vec<u8> = Vec::new();
    let mut i: usize = 0;
    while i < 32
        invariant
            0 <= i <= 32,
            out@ == k@.subrange(0, i as int),
        decreases 32 - i,
    {
        out.push(k.bytes[i]);
        i = i + 1;
        assert(out@ =~= k@.subrange(0, i as int));
    }
    assert(k@.subrange(0, 32) =~= k@);
    out
}

fn escrow_seed_list(maker: &Key, seed: u64) -> (r: Vec<Vec<u8>>)
    ensures
        seeds_view(&r) == escrow_seeds(*maker, seed),
{
    let mut r: Vec<Vec<u8>> = Vec::new();
    r.push(vec![101u8, 115u8, 99u8, 114u8, 111u8, 119u8]);
    r.push(key_bytes(maker));
    r.push(le_bytes_of(seed));
    assert(seeds_view(&r) =~= escrow_seeds(*maker, seed));
    r
}

/// Derives the address and bump of the record that `maker` opens under `seed`.
pub fn find_escrow_address(maker: &Key, seed: u64, program: &Key) -> (r: Option<(Key, u8)>)
    ensures
        r is None ==> escrow_address(*maker, seed, *program) is None,
        r matches Some(p) ==> escrow_address(*maker, seed, *program) == Some((p.0@, p.1))
            && rederived_address(*maker, seed, p.1, *program) == Some(p.0@),
{
    let seeds = escrow_seed_list(maker, seed);
    let r = try_find_program_address(&seeds, program);
    proof {
        if r is Some {
            lemma_found_bump_rederives(escrow_seeds(*maker, seed), program@, 255);
        }
    }
    r
}

/// The address that the record of `maker` under `seed` has with `bump`, if the
/// three re-derive to one.
pub fn rederive_escrow_address(maker: &Key, seed: u64, bump: u8, program: &Key) -> (r: Option<Key>)
    ensures
        r is None ==> created_address_of(escrow_seeds(*maker, seed).push(seq![bump]), program@) is None,
        r matches Some(a) ==> created_address_of(escrow_seeds(*maker, seed).push(seq![bump]), program@)
            == Some(a@),
{
    let mut seeds = escrow_seed_list(maker, seed);
    let ghost base = seeds_view(&seeds);
    let bump_seed: Vec<u8> = vec![bump];
    assert(bump_seed@ =~= seq![bump]);
    seeds.push(bump_seed);
    assert(seeds_view(&seeds) =~= base.push(seq![bump]));
    create_program_address(&seeds, program)
}

/// The address of the holding account of `wallet` for `mint`, if one derives.
pub fn holding_address_of(wallet: &Key, mint: &Key, token_program: &Key, associated_token_program: &Key)
    -> (r: Option<Key>)
    ensures
        r is None <==> holding_address(*wallet, *mint, *token_program, *associated_token_program) is None,
        r matches Some(k) ==> holding_address(*wallet, *mint, *token_program, *associated_token_program)
            == Some(k@),
{
    let mut seeds: Vec<Vec<u8>> = Vec::new();
    seeds.push(key_bytes(wallet));
    seeds.push(key_bytes(token_program));
    seeds.push(key_bytes(mint));
    assert(seeds_view(&seeds) =~= holding_seeds(*wallet, *mint, *token_program));
    match try_find_program_address(&seeds, associated_token_program) {
        Some(p) => Some(p.0),
        None => None,
    }
}

/// Relies on `Pubkey::try_find_program_address` (solana-program): it tries the
/// bumps from 255 down to 1 and returns the first `(address, bump)` for which
/// `create_program_address` of the seeds followed by `[bump]` succeeds, and `None`
/// where none does (an error other than an on-curve address, too many or too
/// long seeds, comes for every bump alike).
#[verifier::external_body]
fn try_find_program_address(seeds: &Vec<Vec<u8>>, program: &Key) -> (r: Option<(Key, u8)>)
    ensures
        r matches Some(p) ==> program_address_of(seeds_view(seeds), program@) == Some((p.0@, p.1)),
        r is None ==> program_address_of(seeds_view(seeds), program@) is None,
{
    let s: Vec<&[u8]> = seeds.iter().map(|v| v.as_slice()).collect();
    Pubkey::try_find_program_address(&s, &Pubkey::new_from_array(program.bytes))
        .map(|(a, b)| (Key::new(a.to_bytes()), b))
}

/// Relies on `Pubkey::create_program_address` (solana-program): the address that a
/// list of seeds, the bump included, gives under a program, or an error.
#[verifier::external_body]
fn create_program_address(seeds: &Vec<Vec<u8>>, program: &Key) -> (r: Option<Key>)
    ensures
        r matches Some(a) ==> created_address_of(seeds_view(seeds), program@) == Some(a@),
        r is None ==> created_address_of(seeds_view(seeds), program@) is None,
{
    let s: Vec<&[u8]> = seeds.iter().map(|v| v.as_slice()).collect();
    Pubkey::create_program_address(&s, &Pubkey::new_from_array(program.bytes))
        .ok()
        .map(|a| Key::new(a.to_bytes()))
}

} // verus!
