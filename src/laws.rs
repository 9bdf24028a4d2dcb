use vstd::prelude::*;

use crate::derive::{escrow_address, holding_address, rederived_address};
use crate::instructions::{
    check_holding, make_result, refund_result, take_accounts_distinct, take_result, Make, Refund, Take,
};
use crate::key::Key;
use crate::state::{record_at, token_at, AccountData, Escrow, EscrowError, TokenAccount};

verus! {

/// Opening with well-formed accounts and a positive `deposit_amt` no larger than
/// the maker's balance succeeds: the vault then holds exactly `deposit_amt`, the record holds exactly
/// the inputs, and the maker's balance is lower by `deposit_amt`.
pub proof fn lemma_open_succeeds(
    v: Map<Key, AccountData>,
    program: Key,
    a: Make,
    seed: u64,
    bump: u8,
    deposit_amt: u64,
    receive_amt: u64,
    src: TokenAccount,
)
    requires
        escrow_address(a.maker, seed, program) == Some((a.escrow@, bump)),
        !v.contains_key(a.escrow),
        !v.contains_key(a.vault),
        a.vault != a.escrow,
        holding_address(a.escrow, a.mint_a, a.token_program, a.associated_token_program) == Some(a.vault@),
        check_holding(v, a.maker_ata_a, a.maker, a.mint_a, a.token_program, a.associated_token_program) == Ok::<TokenAccount, EscrowError>(src),
        0 < deposit_amt <= src.amount,
    ensures
        make_result(v, program, a.maker, a, seed, deposit_amt, receive_amt) matches Ok(w) && {
            &&& token_at(w, a.vault) == Some(TokenAccount { mint: a.mint_a, owner: a.escrow, amount: deposit_amt })
            &&& record_at(w, a.escrow) == Some(Escrow {
                seed,
                bump,
                maker: a.maker,
                mint_a: a.mint_a,
                mint_b: a.mint_b,
                receive_amt,
            })
            &&& token_at(w, a.maker_ata_a) == Some(TokenAccount {
                mint: src.mint,
                owner: src.owner,
                amount: (src.amount - deposit_amt) as u64,
            })
        },
{
}

/// Opening under a `(maker, seed)` whose record exists fails with `AlreadyExists`
/// (and `make` then leaves every account as it was).
pub proof fn lemma_open_reused_seed(
    v: Map<Key, AccountData>,
    program: Key,
    signer: Key,
    a: Make,
    seed: u64,
    bump: u8,
    deposit_amt: u64,
    receive_amt: u64,
)
    requires
        escrow_address(a.maker, seed, program) == Some((a.escrow@, bump)),
        v.contains_key(a.escrow),
    ensures
        make_result(v, program, signer, a, seed, deposit_amt, receive_amt)
            == Err::<Map<Key, AccountData>, EscrowError>(EscrowError::AlreadyExists),
{
}

/// Cancelling by anyone but the record's maker fails with `AuthorizationError`
/// (and `refund` then leaves every account as it was).
pub proof fn lemma_cancel_needs_maker(v: Map<Key, AccountData>, program: Key, signer: Key, a: Refund)
    requires
        record_at(v, a.escrow) matches Some(rec) && signer != rec.maker,
    ensures
        refund_result(v, program, signer, a)
            == Err::<Map<Key, AccountData>, EscrowError>(EscrowError::AuthorizationError),
{
}

/// Cancelling, by the record's maker, an escrow whose record re-derives and whose
/// vault and maker's holding account are the right ones succeeds: it moves exactly
/// the vault's balance to the maker's holding account, removes the vault and the
/// record, and changes no other account (so no account of `mint_b` changes).
pub proof fn lemma_cancel_refunds_vault(
    v: Map<Key, AccountData>,
    program: Key,
    a: Refund,
    rec: Escrow,
    vault: TokenAccount,
    dest: TokenAccount,
)
    requires
        record_at(v, a.escrow) == Some(rec),
        a.maker == rec.maker,
        a.mint_a == rec.mint_a,
        rederived_address(rec.maker, rec.seed, rec.bump, program) == Some(a.escrow@),
        check_holding(v, a.vault, a.escrow, a.mint_a, a.token_program, a.associated_token_program) == Ok::<TokenAccount, EscrowError>(vault),
        check_holding(v, a.maker_ata_a, a.maker, a.mint_a, a.token_program, a.associated_token_program) == Ok::<TokenAccount, EscrowError>(dest),
        a.vault != a.maker_ata_a,
        dest.amount + vault.amount <= u64::MAX,
    ensures
        refund_result(v, program, rec.maker, a) matches Ok(w) && {
            &&& token_at(w, a.maker_ata_a) == Some(TokenAccount {
                mint: dest.mint,
                owner: dest.owner,
                amount: (dest.amount + vault.amount) as u64,
            })
            &&& !w.contains_key(a.vault)
            &&& !w.contains_key(a.escrow)
            &&& forall|k: Key| k != a.maker_ata_a && k != a.vault && k != a.escrow ==>
                (#[trigger] w.contains_key(k) == v.contains_key(k)) && (w.contains_key(k) ==> w[k] == v[k])
        },
{
}

/// Settling, signed by the taker, an escrow whose record re-derives, with the
/// right four holding accounts (pairwise distinct), enough of `mint_b` and no
/// balance overflow, succeeds: exactly the record's `receive_amt` moves from the
/// taker to the maker and exactly the vault's balance to the taker, the vault and
/// the record are removed, and no other account changes.
pub proof fn lemma_fulfill_swaps(
    v: Map<Key, AccountData>,
    program: Key,
    a: Take,
    rec: Escrow,
    vault: TokenAccount,
    ta: TokenAccount,
    tb: TokenAccount,
    mb: TokenAccount,
)
    requires
        record_at(v, a.escrow) == Some(rec),
        a.maker == rec.maker,
        a.mint_a == rec.mint_a,
        a.mint_b == rec.mint_b,
        rederived_address(rec.maker, rec.seed, rec.bump, program) == Some(a.escrow@),
        check_holding(v, a.vault, a.escrow, a.mint_a, a.token_program, a.associated_token_program) == Ok::<TokenAccount, EscrowError>(vault),
        check_holding(v, a.taker_ata_a, a.taker, a.mint_a, a.token_program, a.associated_token_program) == Ok::<TokenAccount, EscrowError>(ta),
        check_holding(v, a.taker_ata_b, a.taker, a.mint_b, a.token_program, a.associated_token_program) == Ok::<TokenAccount, EscrowError>(tb),
        check_holding(v, a.maker_ata_b, a.maker, a.mint_b, a.token_program, a.associated_token_program) == Ok::<TokenAccount, EscrowError>(mb),
        take_accounts_distinct(a),
        tb.amount >= rec.receive_amt,
        mb.amount + rec.receive_amt <= u64::MAX,
        ta.amount + vault.amount <= u64::MAX,
    ensures
        take_result(v, program, a.taker, a) matches Ok(w) && {
            &&& token_at(w, a.taker_ata_b).unwrap().amount == tb.amount - rec.receive_amt
            &&& token_at(w, a.maker_ata_b).unwrap().amount == mb.amount + rec.receive_amt
            &&& token_at(w, a.taker_ata_a).unwrap().amount == ta.amount + vault.amount
            &&& !w.contains_key(a.vault)
            &&& !w.contains_key(a.escrow)
            &&& forall|k: Key|
                k != a.taker_ata_a && k != a.taker_ata_b && k != a.maker_ata_b && k != a.vault && k != a.escrow
                    ==> (#[trigger] w.contains_key(k) == v.contains_key(k)) && (w.contains_key(k) ==> w[k] == v[k])
        },
{
}

/// The accounts that cancelling names for the escrow that `a` opened.
pub open spec fn refund_accounts_of(a: Make) -> Refund {
    Refund {
        maker: a.maker,
        mint_a: a.mint_a,
        maker_ata_a: a.maker_ata_a,
        escrow: a.escrow,
        vault: a.vault,
        token_program: a.token_program,
        associated_token_program: a.associated_token_program,
    }
}

/// Opening an escrow and then cancelling it, both by the maker, succeeds twice
/// and leaves every account exactly as it was before the opening.
pub proof fn lemma_open_then_cancel(
    v: Map<Key, AccountData>,
    program: Key,
    a: Make,
    seed: u64,
    bump: u8,
    deposit_amt: u64,
    receive_amt: u64,
    src: TokenAccount,
)
    requires
        escrow_address(a.maker, seed, program) == Some((a.escrow@, bump)),
        rederived_address(a.maker, seed, bump, program) == Some(a.escrow@),
        !v.contains_key(a.escrow),
        !v.contains_key(a.vault),
        a.vault != a.escrow,
        holding_address(a.escrow, a.mint_a, a.token_program, a.associated_token_program) == Some(a.vault@),
        check_holding(v, a.maker_ata_a, a.maker, a.mint_a, a.token_program, a.associated_token_program) == Ok::<TokenAccount, EscrowError>(src),
        0 < deposit_amt <= src.amount,
    ensures
        make_result(v, program, a.maker, a, seed, deposit_amt, receive_amt) matches Ok(w)
            && refund_result(w, program, a.maker, refund_accounts_of(a)) == Ok::<Map<Key, AccountData>, EscrowError>(v),
{
    lemma_open_succeeds(v, program, a, seed, bump, deposit_amt, receive_amt, src);
    let w = make_result(v, program, a.maker, a, seed, deposit_amt, receive_amt)->Ok_0;
    let c = refund_accounts_of(a);
    let rec = record_at(w, a.escrow)->Some_0;
    let vault = token_at(w, a.vault)->Some_0;
    let dest = token_at(w, a.maker_ata_a)->Some_0;
    lemma_cancel_refunds_vault(w, program, c, rec, vault, dest);
    let w2 = refund_result(w, program, a.maker, c)->Ok_0;
    assert(w2 =~= v);
}

/// The accounts that settling names for the escrow that `a` opened, with the
/// taker's and the maker's other holding accounts.
pub open spec fn take_accounts_of(a: Make, taker: Key, taker_ata_a: Key, taker_ata_b: Key, maker_ata_b: Key) -> Take {
    Take {
        taker,
        maker: a.maker,
        mint_a: a.mint_a,
        mint_b: a.mint_b,
        taker_ata_a,
        taker_ata_b,
        maker_ata_b,
        escrow: a.escrow,
        vault: a.vault,
        token_program: a.token_program,
        associated_token_program: a.associated_token_program,
    }
}

/// Opening an escrow and then settling it succeeds twice: the maker ends with
/// `deposit_amt` less of `mint_a` and `receive_amt` more of `mint_b`, the taker
/// with `receive_amt` less of `mint_b` and `deposit_amt` more of `mint_a`, and
/// the record and the vault are gone.
pub proof fn lemma_open_then_fulfill(
    v: Map<Key, AccountData>,
    program: Key,
    a: Make,
    t: Take,
    seed: u64,
    bump: u8,
    deposit_amt: u64,
    receive_amt: u64,
    src: TokenAccount,
    ta: TokenAccount,
    tb: TokenAccount,
    mb: TokenAccount,
)
    requires
        escrow_address(a.maker, seed, program) == Some((a.escrow@, bump)),
        rederived_address(a.maker, seed, bump, program) == Some(a.escrow@),
        !v.contains_key(a.escrow),
        !v.contains_key(a.vault),
        a.vault != a.escrow,
        holding_address(a.escrow, a.mint_a, a.token_program, a.associated_token_program) == Some(a.vault@),
        check_holding(v, a.maker_ata_a, a.maker, a.mint_a, a.token_program, a.associated_token_program) == Ok::<TokenAccount, EscrowError>(src),
        0 < deposit_amt <= src.amount,
        t == take_accounts_of(a, t.taker, t.taker_ata_a, t.taker_ata_b, t.maker_ata_b),
        check_holding(v, t.taker_ata_a, t.taker, a.mint_a, a.token_program, a.associated_token_program) == Ok::<TokenAccount, EscrowError>(ta),
        check_holding(v, t.taker_ata_b, t.taker, a.mint_b, a.token_program, a.associated_token_program) == Ok::<TokenAccount, EscrowError>(tb),
        check_holding(v, t.maker_ata_b, a.maker, a.mint_b, a.token_program, a.associated_token_program) == Ok::<TokenAccount, EscrowError>(mb),
        t.taker_ata_a != t.taker_ata_b,
        t.taker_ata_a != t.maker_ata_b,
        t.taker_ata_b != t.maker_ata_b,
        t.taker_ata_a != a.maker_ata_a,
        t.taker_ata_b != a.maker_ata_a,
        t.maker_ata_b != a.maker_ata_a,
        tb.amount >= receive_amt,
        mb.amount + receive_amt <= u64::MAX,
        ta.amount + deposit_amt <= u64::MAX,
    ensures
        make_result(v, program, a.maker, a, seed, deposit_amt, receive_amt) matches Ok(w)
            && take_result(w, program, t.taker, t) matches Ok(w2) && {
            &&& token_at(w2, a.maker_ata_a).unwrap().amount == src.amount - deposit_amt
            &&& token_at(w2, t.maker_ata_b).unwrap().amount == mb.amount + receive_amt
            &&& token_at(w2, t.taker_ata_b).unwrap().amount == tb.amount - receive_amt
            &&& token_at(w2, t.taker_ata_a).unwrap().amount == ta.amount + deposit_amt
            &&& !w2.contains_key(a.vault)
            &&& !w2.contains_key(a.escrow)
        },
{
    lemma_open_succeeds(v, program, a, seed, bump, deposit_amt, receive_amt, src);
    let w = make_result(v, program, a.maker, a, seed, deposit_amt, receive_amt)->Ok_0;
    let rec = record_at(w, a.escrow)->Some_0;
    let vault = token_at(w, a.vault)->Some_0;
    assert(token_at(w, t.taker_ata_a) == Some(ta));
    assert(token_at(w, t.taker_ata_b) == Some(tb));
    assert(token_at(w, t.maker_ata_b) == Some(mb));
    lemma_fulfill_swaps(w, program, t, rec, vault, ta, tb, mb);
}

/// Once a cancel has succeeded, a second cancel or a settlement of the same
/// record fails with `NotFound`.
pub proof fn lemma_closed_after_cancel(
    v: Map<Key, AccountData>,
    program: Key,
    signer: Key,
    a: Refund,
    signer2: Key,
    again: Refund,
    t: Take,
)
    requires
        refund_result(v, program, signer, a) is Ok,
        again.escrow == a.escrow,
        t.escrow == a.escrow,
    ensures
        refund_result(v, program, signer, a) matches Ok(w) && {
            &&& refund_result(w, program, signer2, again) == Err::<Map<Key, AccountData>, EscrowError>(EscrowError::NotFound)
            &&& take_result(w, program, signer2, t) == Err::<Map<Key, AccountData>, EscrowError>(EscrowError::NotFound)
        },
{
}

/// Once a settlement has succeeded, a cancel or a second settlement of the same
/// record fails with `NotFound`.
pub proof fn lemma_closed_after_fulfill(
    v: Map<Key, AccountData>,
    program: Key,
    signer: Key,
    a: Take,
    signer2: Key,
    r: Refund,
    again: Take,
)
    requires
        take_result(v, program, signer, a) is Ok,
        r.escrow == a.escrow,
        again.escrow == a.escrow,
    ensures
        take_result(v, program, signer, a) matches Ok(w) && {
            &&& refund_result(w, program, signer2, r) == Err::<Map<Key, AccountData>, EscrowError>(EscrowError::NotFound)
            &&& take_result(w, program, signer2, again) == Err::<Map<Key, AccountData>, EscrowError>(EscrowError::NotFound)
        },
{
}

} // verus!
