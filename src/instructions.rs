use vstd::prelude::*;

use crate::derive::{
    escrow_address, find_escrow_address, holding_address, holding_address_of,
    rederive_escrow_address, rederived_address,
};
use crate::key::Key;
use crate::state::{
    applied, can_move, moved, record_at, token_at, transfer_result, AccountData, Escrow, EscrowError,
    Ledger, TokenAccount,
};

verus! {

/// The accounts that opening an escrow names.
#[derive(Clone, Copy)]
pub struct Make {
    pub maker: Key,
    pub mint_a: Key,
    pub mint_b: Key,
    /// The maker's holding account for `mint_a`, the source of the deposit.
    pub maker_ata_a: Key,
    /// The address of the new record.
    pub escrow: Key,
    /// The address of the new vault.
    pub vault: Key,
    pub token_program: Key,
    /// The program that owns the holding-account addresses.
    pub associated_token_program: Key,
}

/// The accounts that settling an escrow names.
#[derive(Clone, Copy)]
pub struct Take {
    pub taker: Key,
    pub maker: Key,
    pub mint_a: Key,
    pub mint_b: Key,
    /// The taker's holding account for `mint_a`, which receives the vault.
    pub taker_ata_a: Key,
    /// The taker's holding account for `mint_b`, which pays the maker.
    pub taker_ata_b: Key,
    /// The maker's holding account for `mint_b`, which is paid.
    pub maker_ata_b: Key,
    pub escrow: Key,
    pub vault: Key,
    pub token_program: Key,
    /// The program that owns the holding-account addresses.
    pub associated_token_program: Key,
}

/// The accounts that cancelling an escrow names.
#[derive(Clone, Copy)]
pub struct Refund {
    pub maker: Key,
    pub mint_a: Key,
    /// The maker's holding account for `mint_a`, which receives the vault.
    pub maker_ata_a: Key,
    pub escrow: Key,
    pub vault: Key,
    pub token_program: Key,
    /// The program that owns the holding-account addresses.
    pub associated_token_program: Key,
}

/// One token-program transfer that an instruction performs.
#[derive(Clone, Copy)]
pub struct Transfer {
    pub from: Key,
    pub to: Key,
    pub amount: u64,
}

/// The result of an instruction without what it hands back.
pub open spec fn unit_of<T>(r: Result<T, EscrowError>) -> Result<(), EscrowError> {
    match r {
        Ok(_) => Ok(()),
        Err(e) => Err(e),
    }
}

/// The transfers of opening: the deposit, from the maker into the vault.
pub open spec fn opening_transfers(a: Make, deposit_amt: u64) -> Seq<Transfer> {
    seq![Transfer { from: a.maker_ata_a, to: a.vault, amount: deposit_amt }]
}

/// The transfers of settling, in order: the record's `receive_amt` from the taker
/// to the maker, then the vault's whole balance to the taker.
pub open spec fn settlement_transfers(v: Map<Key, AccountData>, a: Take) -> Seq<Transfer> {
    seq![
        Transfer { from: a.taker_ata_b, to: a.maker_ata_b, amount: record_at(v, a.escrow).unwrap().receive_amt },
        Transfer { from: a.vault, to: a.taker_ata_a, amount: token_at(v, a.vault).unwrap().amount },
    ]
}

/// The transfers of cancelling: the vault's whole balance back to the maker.
pub open spec fn refund_transfers_of(v: Map<Key, AccountData>, a: Refund) -> Seq<Transfer> {
    seq![Transfer { from: a.vault, to: a.maker_ata_a, amount: token_at(v, a.vault).unwrap().amount }]
}

/// The holding account at `k`, checked to be the one of `wallet` for `mint`,
/// whose address is `expected`.
pub open spec fn check_holding_at(v: Map<Key, AccountData>, k: Key, wallet: Key, mint: Key, expected: Option<Seq<u8>>)
    -> Result<TokenAccount, EscrowError>
{
    if expected != Some(k@) {
        Err(EscrowError::AddressDerivationMismatch)
    } else {
        match token_at(v, k) {
            None => if v.contains_key(k) {
                Err(EscrowError::InvalidState)
            } else {
                Err(EscrowError::NotFound)
            },
            Some(t) => if t.mint == mint && t.owner == wallet {
                Ok(t)
            } else {
                Err(EscrowError::InvalidState)
            },
        }
    }
}

/// The holding account at `k`, checked to be the one of `wallet` for `mint`.
pub open spec fn check_holding(
    v: Map<Key, AccountData>,
    k: Key,
    wallet: Key,
    mint: Key,
    token_program: Key,
    associated_token_program: Key,
)
    -> Result<TokenAccount, EscrowError>
{
    check_holding_at(v, k, wallet, mint, holding_address(wallet, mint, token_program, associated_token_program))
}

/// The accounts once a record and its empty vault are allocated.
pub open spec fn opened(v: Map<Key, AccountData>, a: Make, seed: u64, bump: u8, receive_amt: u64)
    -> Map<Key, AccountData>
{
    v.insert(
        a.escrow,
        AccountData::Escrow(Escrow {
            seed,
            bump,
            maker: a.maker,
            mint_a: a.mint_a,
            mint_b: a.mint_b,
            receive_amt,
        }),
    ).insert(a.vault, AccountData::Token(TokenAccount { mint: a.mint_a, owner: a.escrow, amount: 0 }))
}

/// The accounts once the whole vault has moved to `dest` and the vault and the record are closed.
pub open spec fn settled(v: Map<Key, AccountData>, vault: Key, dest: Key, escrow: Key) -> Map<Key, AccountData> {
    moved(v, vault, dest, token_at(v, vault).unwrap().amount).remove(vault).remove(escrow)
}

/// What moving the whole vault to `dest` and then closing the vault and the
/// record does: the accounts afterwards, or the error.
pub open spec fn close_result(v: Map<Key, AccountData>, vault: Key, dest: Key, escrow: Key)
    -> Result<Map<Key, AccountData>, EscrowError>
{
    match token_at(v, vault) {
        None => if v.contains_key(vault) {
            Err(EscrowError::InvalidState)
        } else {
            Err(EscrowError::NotFound)
        },
        Some(t) => match transfer_result(v, vault, dest, t.amount) {
            Ok(w) => Ok(w.remove(vault).remove(escrow)),
            Err(e) => Err(e),
        },
    }
}

pub open spec fn found_view(found: Option<(Key, u8)>) -> Option<(Seq<u8>, u8)> {
    match found {
        Some(p) => Some((p.0@, p.1)),
        None => None,
    }
}

pub open spec fn address_view(a: Option<Key>) -> Option<Seq<u8>> {
    match a {
        Some(k) => Some(k@),
        None => None,
    }
}

/// What opening an escrow does, given the derived record address and bump
/// (`found`), the vault's address and the maker's holding address.
pub open spec fn make_result_at(
    v: Map<Key, AccountData>,
    signer: Key,
    a: Make,
    seed: u64,
    deposit_amt: u64,
    receive_amt: u64,
    found: Option<(Seq<u8>, u8)>,
    vault_address: Option<Seq<u8>>,
    source_address: Option<Seq<u8>>,
) -> Result<Map<Key, AccountData>, EscrowError> {
    match found {
        None => Err(EscrowError::AddressDerivationMismatch),
        Some((addr, bump)) => if addr != a.escrow@ {
            Err(EscrowError::AddressDerivationMismatch)
        } else if v.contains_key(a.escrow) {
            Err(EscrowError::AlreadyExists)
        } else if signer != a.maker {
            Err(EscrowError::AuthorizationError)
        } else if deposit_amt == 0 {
            Err(EscrowError::ZeroAmount)
        } else if vault_address != Some(a.vault@) {
            Err(EscrowError::AddressDerivationMismatch)
        } else if v.contains_key(a.vault) || a.vault == a.escrow {
            Err(EscrowError::AlreadyExists)
        } else {
            match check_holding_at(v, a.maker_ata_a, a.maker, a.mint_a, source_address) {
                Err(e) => Err(e),
                Ok(src) => if src.amount < deposit_amt {
                    Err(EscrowError::InsufficientBalance)
                } else {
                    Ok(moved(opened(v, a, seed, bump, receive_amt), a.maker_ata_a, a.vault, deposit_amt))
                },
            }
        },
    }
}

/// What opening an escrow does: the accounts afterwards, or the error.
pub open spec fn make_result(
    v: Map<Key, AccountData>,
    program: Key,
    signer: Key,
    a: Make,
    seed: u64,
    deposit_amt: u64,
    receive_amt: u64,
) -> Result<Map<Key, AccountData>, EscrowError> {
    make_result_at(
        v,
        signer,
        a,
        seed,
        deposit_amt,
        receive_amt,
        escrow_address(a.maker, seed, program),
        holding_address(a.escrow, a.mint_a, a.token_program, a.associated_token_program),
        holding_address(a.maker, a.mint_a, a.token_program, a.associated_token_program),
    )
}

/// The address that the record at `escrow` re-derives to from its stored maker,
/// seed and bump.
pub open spec fn record_rederived(v: Map<Key, AccountData>, escrow: Key, program: Key) -> Option<Seq<u8>> {
    match record_at(v, escrow) {
        Some(rec) => rederived_address(rec.maker, rec.seed, rec.bump, program),
        None => None,
    }
}

/// What cancelling an escrow does, given the address the record re-derives to,
/// the vault's address and the maker's holding address.
pub open spec fn refund_result_at(
    v: Map<Key, AccountData>,
    signer: Key,
    a: Refund,
    rederived: Option<Seq<u8>>,
    vault_address: Option<Seq<u8>>,
    dest_address: Option<Seq<u8>>,
) -> Result<Map<Key, AccountData>, EscrowError> {
    match record_at(v, a.escrow) {
        None => if v.contains_key(a.escrow) {
            Err(EscrowError::InvalidState)
        } else {
            Err(EscrowError::NotFound)
        },
        Some(rec) => if signer != rec.maker || a.maker != rec.maker {
            Err(EscrowError::AuthorizationError)
        } else if a.mint_a != rec.mint_a {
            Err(EscrowError::InvalidState)
        } else if rederived != Some(a.escrow@) {
            Err(EscrowError::AddressDerivationMismatch)
        } else {
            match check_holding_at(v, a.vault, a.escrow, a.mint_a, vault_address) {
                Err(e) => Err(e),
                Ok(vault) => match check_holding_at(v, a.maker_ata_a, a.maker, a.mint_a, dest_address) {
                    Err(e) => Err(e),
                    Ok(dest) => if a.vault == a.maker_ata_a {
                        Err(EscrowError::InvalidState)
                    } else if dest.amount + vault.amount > u64::MAX {
                        Err(EscrowError::ArithmeticOverflow)
                    } else {
                        Ok(settled(v, a.vault, a.maker_ata_a, a.escrow))
                    },
                },
            }
        },
    }
}

/// What cancelling an escrow does: the accounts afterwards, or the error.
pub open spec fn refund_result(v: Map<Key, AccountData>, program: Key, signer: Key, a: Refund)
    -> Result<Map<Key, AccountData>, EscrowError>
{
    refund_result_at(
        v,
        signer,
        a,
        record_rederived(v, a.escrow, program),
        holding_address(a.escrow, a.mint_a, a.token_program, a.associated_token_program),
        holding_address(a.maker, a.mint_a, a.token_program, a.associated_token_program),
    )
}

/// Whether the four holding accounts that settling touches are pairwise distinct.
pub open spec fn take_accounts_distinct(a: Take) -> bool {
    &&& a.vault != a.taker_ata_a
    &&& a.vault != a.taker_ata_b
    &&& a.vault != a.maker_ata_b
    &&& a.taker_ata_a != a.taker_ata_b
    &&& a.taker_ata_a != a.maker_ata_b
    &&& a.taker_ata_b != a.maker_ata_b
}

/// The addresses of the four holding accounts that settling touches, in the order
/// vault, taker's for `mint_a`, taker's for `mint_b`, maker's for `mint_b`.
#[derive(Clone, Copy)]
pub struct TakeAddresses {
    pub vault: Option<Key>,
    pub taker_ata_a: Option<Key>,
    pub taker_ata_b: Option<Key>,
    pub maker_ata_b: Option<Key>,
}

impl TakeAddresses {
    pub open spec fn view(&self) -> Seq<Option<Seq<u8>>> {
        seq![
            address_view(self.vault),
            address_view(self.taker_ata_a),
            address_view(self.taker_ata_b),
            address_view(self.maker_ata_b),
        ]
    }
}

/// What settling an escrow does, given the address the record re-derives to and
/// the addresses of the four holding accounts.
pub open spec fn take_result_at(
    v: Map<Key, AccountData>,
    signer: Key,
    a: Take,
    rederived: Option<Seq<u8>>,
    addresses: Seq<Option<Seq<u8>>>,
) -> Result<Map<Key, AccountData>, EscrowError> {
    match record_at(v, a.escrow) {
        None => if v.contains_key(a.escrow) {
            Err(EscrowError::InvalidState)
        } else {
            Err(EscrowError::NotFound)
        },
        Some(rec) => if signer != a.taker {
            Err(EscrowError::AuthorizationError)
        } else if a.maker != rec.maker || a.mint_a != rec.mint_a || a.mint_b != rec.mint_b {
            Err(EscrowError::InvalidState)
        } else if rederived != Some(a.escrow@) || addresses[0] != Some(a.vault@) {
            Err(EscrowError::InvalidState)
        } else {
            match check_holding_at(v, a.vault, a.escrow, a.mint_a, addresses[0]) {
                Err(e) => Err(e),
                Ok(vault) => match check_holding_at(v, a.taker_ata_a, a.taker, a.mint_a, addresses[1]) {
                    Err(e) => Err(e),
                    Ok(ta) => match check_holding_at(v, a.taker_ata_b, a.taker, a.mint_b, addresses[2]) {
                        Err(e) => Err(e),
                        Ok(tb) => match check_holding_at(v, a.maker_ata_b, a.maker, a.mint_b, addresses[3]) {
                            Err(e) => Err(e),
                            Ok(mb) => if !take_accounts_distinct(a) {
                                Err(EscrowError::InvalidState)
                            } else if tb.amount < rec.receive_amt {
                                Err(EscrowError::InsufficientBalance)
                            } else if mb.amount + rec.receive_amt > u64::MAX
                                || ta.amount + vault.amount > u64::MAX {
                                Err(EscrowError::ArithmeticOverflow)
                            } else {
                                Ok(settled(
                                    moved(v, a.taker_ata_b, a.maker_ata_b, rec.receive_amt),
                                    a.vault,
                                    a.taker_ata_a,
                                    a.escrow,
                                ))
                            },
                        },
                    },
                },
            }
        },
    }
}

/// The addresses that the four holding accounts of a settlement must have.
pub open spec fn take_addresses(a: Take) -> Seq<Option<Seq<u8>>> {
    seq![
        holding_address(a.escrow, a.mint_a, a.token_program, a.associated_token_program),
        holding_address(a.taker, a.mint_a, a.token_program, a.associated_token_program),
        holding_address(a.taker, a.mint_b, a.token_program, a.associated_token_program),
        holding_address(a.maker, a.mint_b, a.token_program, a.associated_token_program),
    ]
}

/// What settling an escrow does: the accounts afterwards, or the error.
pub open spec fn take_result(v: Map<Key, AccountData>, program: Key, signer: Key, a: Take)
    -> Result<Map<Key, AccountData>, EscrowError>
{
    take_result_at(v, signer, a, record_rederived(v, a.escrow, program), take_addresses(a))
}

fn keys_equal(expected: &Key, given: &Key) -> (r: bool)
    ensures
        r == (expected@ == given@),
        r == (*expected == *given),
{
    let same = expected.same(given);
    proof {
        if expected@ == given@ {
            Key::lemma_view_injective(*expected, *given);
        }
    }
    same
}

/// Whether `expected` is the address `k`.
fn address_is(expected: Option<Key>, k: &Key) -> (r: bool)
    ensures
        r == (address_view(expected) == Some(k@)),
{
    match expected {
        Some(e) => keys_equal(&e, k),
        None => false,
    }
}

/// The holding account at `k`, checked to be the one of `wallet` for `mint`,
/// whose address is `expected`.
pub fn holding_at(ledger: &Ledger, k: &Key, wallet: &Key, mint: &Key, expected: Option<Key>)
    -> (r: Result<TokenAccount, EscrowError>)
    requires
        ledger.wf(),
    ensures
        r == check_holding_at(ledger@, *k, *wallet, *mint, address_view(expected)),
{
    if !address_is(expected, k) {
        return Err(EscrowError::AddressDerivationMismatch);
    }
    match ledger.get(k) {
        None => Err(EscrowError::NotFound),
        Some(AccountData::Escrow(_)) => Err(EscrowError::InvalidState),
        Some(AccountData::Token(t)) => if t.mint.same(mint) && t.owner.same(wallet) {
            Ok(t)
        } else {
            Err(EscrowError::InvalidState)
        },
    }
}

/// Moves the whole vault to `dest`, then closes the vault and the record.
fn empty_and_close(ledger: &mut Ledger, vault: &Key, dest: &Key, escrow: &Key) -> (r: Result<(), EscrowError>)
    requires
        old(ledger).wf(),
    ensures
        final(ledger).wf(),
        applied(r, close_result(old(ledger)@, *vault, *dest, *escrow), old(ledger)@, final(ledger)@),
        (token_at(old(ledger)@, *vault) matches Some(t) && can_move(old(ledger)@, *vault, *dest, t.amount))
            ==> close_result(old(ledger)@, *vault, *dest, *escrow)
            == Ok::<Map<Key, AccountData>, EscrowError>(settled(old(ledger)@, *vault, *dest, *escrow)),
{
    let amount = match ledger.token(vault) {
        Some(t) => t.amount,
        None => {
            if ledger.get(vault).is_some() {
                return Err(EscrowError::InvalidState);
            }
            return Err(EscrowError::NotFound);
        },
    };
    match ledger.transfer(vault, dest, amount) {
        Ok(()) => {},
        Err(e) => return Err(e),
    }
    ledger.close(vault);
    ledger.close(escrow);
    Ok(())
}

impl Make {
    /// Allocates the record, with the given fields, and its empty vault.
    pub fn init_escrow(&self, ledger: &mut Ledger, seed: u64, bump: u8, receive_amt: u64)
        requires
            old(ledger).wf(),
        ensures
            final(ledger).wf(),
            final(ledger)@ == opened(old(ledger)@, *self, seed, bump, receive_amt),
    {
        ledger.put(
            self.escrow,
            AccountData::Escrow(Escrow {
                seed,
                bump,
                maker: self.maker,
                mint_a: self.mint_a,
                mint_b: self.mint_b,
                receive_amt,
            }),
        );
        ledger.put(self.vault, AccountData::Token(TokenAccount { mint: self.mint_a, owner: self.escrow, amount: 0 }));
    }

    /// Moves `amount` from the maker's holding account into the vault, or
    /// reports why it cannot, changing nothing.
    pub fn deposit(&self, ledger: &mut Ledger, amount: u64) -> (r: Result<(), EscrowError>)
        requires
            old(ledger).wf(),
        ensures
            final(ledger).wf(),
            applied(r, transfer_result(old(ledger)@, self.maker_ata_a, self.vault, amount), old(ledger)@, final(ledger)@),
            can_move(old(ledger)@, self.maker_ata_a, self.vault, amount) <==> r is Ok,
    {
        ledger.transfer(&self.maker_ata_a, &self.vault, amount)
    }
}

impl Take {
    /// Moves `amount` from the taker's holding account for `mint_b` to the
    /// maker's, or reports why it cannot, changing nothing.
    pub fn deposit(&self, ledger: &mut Ledger, amount: u64) -> (r: Result<(), EscrowError>)
        requires
            old(ledger).wf(),
        ensures
            final(ledger).wf(),
            applied(r, transfer_result(old(ledger)@, self.taker_ata_b, self.maker_ata_b, amount), old(ledger)@, final(ledger)@),
            can_move(old(ledger)@, self.taker_ata_b, self.maker_ata_b, amount) <==> r is Ok,
    {
        ledger.transfer(&self.taker_ata_b, &self.maker_ata_b, amount)
    }

    /// Moves the whole vault to the taker, then closes the vault and the record,
    /// or reports why it cannot, changing nothing.
    pub fn transfer_and_close_vault(&self, ledger: &mut Ledger) -> (r: Result<(), EscrowError>)
        requires
            old(ledger).wf(),
        ensures
            final(ledger).wf(),
            applied(r, close_result(old(ledger)@, self.vault, self.taker_ata_a, self.escrow), old(ledger)@, final(ledger)@),
            (token_at(old(ledger)@, self.vault) matches Some(t) && can_move(old(ledger)@, self.vault, self.taker_ata_a, t.amount))
                ==> r is Ok && final(ledger)@ == settled(old(ledger)@, self.vault, self.taker_ata_a, self.escrow),
    {
        empty_and_close(ledger, &self.vault, &self.taker_ata_a, &self.escrow)
    }
}

impl Refund {
    /// Cancels the escrow, given the address that the record re-derives to and
    /// the addresses that the vault and the maker's holding account must have:
    /// checks the accounts, moves the whole vault back to the maker, then closes
    /// the vault and the record.
    pub fn refund_and_close_vault(
        &self,
        ledger: &mut Ledger,
        signer: &Key,
        rederived: Option<Key>,
        vault_address: Option<Key>,
        dest_address: Option<Key>,
    ) -> (r: Result<(), EscrowError>)
        requires
            old(ledger).wf(),
        ensures
            final(ledger).wf(),
            applied(
                r,
                refund_result_at(old(ledger)@, *signer, *self, address_view(rederived), address_view(vault_address), address_view(dest_address)),
                old(ledger)@,
                final(ledger)@,
            ),
    {
        let rec = match ledger.record(&self.escrow) {
            Some(rec) => rec,
            None => {
                if ledger.get(&self.escrow).is_some() {
                    return Err(EscrowError::InvalidState);
                }
                return Err(EscrowError::NotFound);
            },
        };
        if !signer.same(&rec.maker) || !self.maker.same(&rec.maker) {
            return Err(EscrowError::AuthorizationError);
        }
        if !self.mint_a.same(&rec.mint_a) {
            return Err(EscrowError::InvalidState);
        }
        match rederived {
            Some(k) => {
                if !keys_equal(&k, &self.escrow) {
                    return Err(EscrowError::AddressDerivationMismatch);
                }
            },
            None => return Err(EscrowError::AddressDerivationMismatch),
        }
        let vault = match holding_at(ledger, &self.vault, &self.escrow, &self.mint_a, vault_address) {
            Ok(t) => t,
            Err(e) => return Err(e),
        };
        let dest = match holding_at(ledger, &self.maker_ata_a, &self.maker, &self.mint_a, dest_address) {
            Ok(t) => t,
            Err(e) => return Err(e),
        };
        if self.vault.same(&self.maker_ata_a) {
            return Err(EscrowError::InvalidState);
        }
        if dest.amount > u64::MAX - vault.amount {
            return Err(EscrowError::ArithmeticOverflow);
        }
        empty_and_close(ledger, &self.vault, &self.maker_ata_a, &self.escrow)
    }
}

/// Opens an escrow, given the derived address and bump of the record (`found`)
/// and the addresses that the vault and the maker's holding account must have.
pub fn open_escrow(
    ledger: &mut Ledger,
    signer: &Key,
    accounts: &Make,
    seed: u64,
    deposit_amt: u64,
    receive_amt: u64,
    found: Option<(Key, u8)>,
    vault_address: Option<Key>,
    source_address: Option<Key>,
) -> (r: Result<(), EscrowError>)
    requires
        old(ledger).wf(),
    ensures
        final(ledger).wf(),
        applied(
            r,
            make_result_at(
                old(ledger)@,
                *signer,
                *accounts,
                seed,
                deposit_amt,
                receive_amt,
                found_view(found),
                address_view(vault_address),
                address_view(source_address),
            ),
            old(ledger)@,
            final(ledger)@,
        ),
{
    let (addr, bump) = match found {
        Some(p) => p,
        None => return Err(EscrowError::AddressDerivationMismatch),
    };
    if !keys_equal(&addr, &accounts.escrow) {
        return Err(EscrowError::AddressDerivationMismatch);
    }
    if ledger.get(&accounts.escrow).is_some() {
        return Err(EscrowError::AlreadyExists);
    }
    if !signer.same(&accounts.maker) {
        return Err(EscrowError::AuthorizationError);
    }
    if deposit_amt == 0 {
        return Err(EscrowError::ZeroAmount);
    }
    if !address_is(vault_address, &accounts.vault) {
        return Err(EscrowError::AddressDerivationMismatch);
    }
    if ledger.get(&accounts.vault).is_some() || accounts.vault.same(&accounts.escrow) {
        return Err(EscrowError::AlreadyExists);
    }
    let src = match holding_at(ledger, &accounts.maker_ata_a, &accounts.maker, &accounts.mint_a, source_address) {
        Ok(t) => t,
        Err(e) => return Err(e),
    };
    if src.amount < deposit_amt {
        return Err(EscrowError::InsufficientBalance);
    }
    accounts.init_escrow(ledger, seed, bump, receive_amt);
    accounts.deposit(ledger, deposit_amt)
}

/// Opens an escrow: allocates the record of `(maker, seed)` and its vault, and
/// locks `deposit_amt` of `mint_a` in the vault.
pub fn make(
    ledger: &mut Ledger,
    program: &Key,
    signer: &Key,
    accounts: &Make,
    seed: u64,
    deposit_amt: u64,
    receive_amt: u64,
) -> (r: Result<(), EscrowError>)
    requires
        old(ledger).wf(),
    ensures
        final(ledger).wf(),
        applied(
            r,
            make_result(old(ledger)@, *program, *signer, *accounts, seed, deposit_amt, receive_amt),
            old(ledger)@,
            final(ledger)@,
        ),
        r is Ok ==> (escrow_address(accounts.maker, seed, *program) matches Some(p)
            && rederived_address(accounts.maker, seed, p.1, *program) == Some(accounts.escrow@)),
{
    let found = find_escrow_address(&accounts.maker, seed, program);
    let vault_address = holding_address_of(&accounts.escrow, &accounts.mint_a, &accounts.token_program, &accounts.associated_token_program);
    let source_address = holding_address_of(&accounts.maker, &accounts.mint_a, &accounts.token_program, &accounts.associated_token_program);
    open_escrow(ledger, signer, accounts, seed, deposit_amt, receive_amt, found, vault_address, source_address)
}

/// Settles an escrow, given the address that the record re-derives to and the
/// addresses that the four holding accounts must have: the taker pays the maker
/// the amount the record asks for, receives the whole vault, and the vault and
/// the record are closed.
pub fn settle_escrow(
    ledger: &mut Ledger,
    signer: &Key,
    accounts: &Take,
    rederived: Option<Key>,
    addresses: &TakeAddresses,
) -> (r: Result<(), EscrowError>)
    requires
        old(ledger).wf(),
    ensures
        final(ledger).wf(),
        applied(
            r,
            take_result_at(old(ledger)@, *signer, *accounts, address_view(rederived), addresses@),
            old(ledger)@,
            final(ledger)@,
        ),
{
    let a = accounts;
    let rec = match ledger.record(&a.escrow) {
        Some(rec) => rec,
        None => {
            if ledger.get(&a.escrow).is_some() {
                return Err(EscrowError::InvalidState);
            }
            return Err(EscrowError::NotFound);
        },
    };
    if !signer.same(&a.taker) {
        return Err(EscrowError::AuthorizationError);
    }
    if !a.maker.same(&rec.maker) || !a.mint_a.same(&rec.mint_a) || !a.mint_b.same(&rec.mint_b) {
        return Err(EscrowError::InvalidState);
    }
    let rederives = match rederived {
        Some(k) => keys_equal(&k, &a.escrow),
        None => false,
    };
    if !rederives || !address_is(addresses.vault, &a.vault) {
        return Err(EscrowError::InvalidState);
    }
    let vault = match holding_at(ledger, &a.vault, &a.escrow, &a.mint_a, addresses.vault) {
        Ok(t) => t,
        Err(e) => return Err(e),
    };
    let ta = match holding_at(ledger, &a.taker_ata_a, &a.taker, &a.mint_a, addresses.taker_ata_a) {
        Ok(t) => t,
        Err(e) => return Err(e),
    };
    let tb = match holding_at(ledger, &a.taker_ata_b, &a.taker, &a.mint_b, addresses.taker_ata_b) {
        Ok(t) => t,
        Err(e) => return Err(e),
    };
    let mb = match holding_at(ledger, &a.maker_ata_b, &a.maker, &a.mint_b, addresses.maker_ata_b) {
        Ok(t) => t,
        Err(e) => return Err(e),
    };
    if a.vault.same(&a.taker_ata_a) || a.vault.same(&a.taker_ata_b) || a.vault.same(&a.maker_ata_b)
        || a.taker_ata_a.same(&a.taker_ata_b) || a.taker_ata_a.same(&a.maker_ata_b)
        || a.taker_ata_b.same(&a.maker_ata_b) {
        return Err(EscrowError::InvalidState);
    }
    if tb.amount < rec.receive_amt {
        return Err(EscrowError::InsufficientBalance);
    }
    if mb.amount > u64::MAX - rec.receive_amt || ta.amount > u64::MAX - vault.amount {
        return Err(EscrowError::ArithmeticOverflow);
    }
    match a.deposit(ledger, rec.receive_amt) {
        Ok(()) => {},
        Err(e) => return Err(e),
    }
    a.transfer_and_close_vault(ledger)
}

/// The address that the record at `escrow` re-derives to, if it holds a record.
fn rederive_record(ledger: &Ledger, escrow: &Key, program: &Key) -> (r: Option<Key>)
    requires
        ledger.wf(),
    ensures
        address_view(r) == record_rederived(ledger@, *escrow, *program),
{
    match ledger.record(escrow) {
        Some(rec) => rederive_escrow_address(&rec.maker, rec.seed, rec.bump, program),
        None => None,
    }
}

/// Settles an escrow: the taker pays the maker the amount the record asks for,
/// receives the whole vault, and the vault and the record are closed.
pub fn take(ledger: &mut Ledger, program: &Key, signer: &Key, accounts: &Take) -> (r: Result<(), EscrowError>)
    requires
        old(ledger).wf(),
    ensures
        final(ledger).wf(),
        applied(r, take_result(old(ledger)@, *program, *signer, *accounts), old(ledger)@, final(ledger)@),
{
    let a = accounts;
    let rederived = rederive_record(ledger, &a.escrow, program);
    let addresses = TakeAddresses {
        vault: holding_address_of(&a.escrow, &a.mint_a, &a.token_program, &a.associated_token_program),
        taker_ata_a: holding_address_of(&a.taker, &a.mint_a, &a.token_program, &a.associated_token_program),
        taker_ata_b: holding_address_of(&a.taker, &a.mint_b, &a.token_program, &a.associated_token_program),
        maker_ata_b: holding_address_of(&a.maker, &a.mint_b, &a.token_program, &a.associated_token_program),
    };
    assert(addresses@ =~= take_addresses(*a));
    settle_escrow(ledger, signer, a, rederived, &addresses)
}

/// Cancels an escrow: the maker gets the whole vault back, and the vault and the
/// record are closed.
pub fn refund(ledger: &mut Ledger, program: &Key, signer: &Key, accounts: &Refund) -> (r: Result<(), EscrowError>)
    requires
        old(ledger).wf(),
    ensures
        final(ledger).wf(),
        applied(r, refund_result(old(ledger)@, *program, *signer, *accounts), old(ledger)@, final(ledger)@),
{
    let a = accounts;
    let rederived = rederive_record(ledger, &a.escrow, program);
    let vault_address = holding_address_of(&a.escrow, &a.mint_a, &a.token_program, &a.associated_token_program);
    let dest_address = holding_address_of(&a.maker, &a.mint_a, &a.token_program, &a.associated_token_program);
    a.refund_and_close_vault(ledger, signer, rederived, vault_address, dest_address)
}

/// Runs `make` and hands back the token-program transfers that it decided.
pub fn make_transfers(
    ledger: &mut Ledger,
    program: &Key,
    signer: &Key,
    accounts: &Make,
    seed: u64,
    deposit_amt: u64,
    receive_amt: u64,
) -> (r: Result<Vec<Transfer>, EscrowError>)
    requires
        old(ledger).wf(),
    ensures
        final(ledger).wf(),
        applied(
            unit_of(r),
            make_result(old(ledger)@, *program, *signer, *accounts, seed, deposit_amt, receive_amt),
            old(ledger)@,
            final(ledger)@,
        ),
        r matches Ok(ts) ==> ts@ == opening_transfers(*accounts, deposit_amt),
{
    match make(ledger, program, signer, accounts, seed, deposit_amt, receive_amt) {
        Ok(()) => {
            let mut ts: Vec<Transfer> = Vec::new();
            ts.push(Transfer { from: accounts.maker_ata_a, to: accounts.vault, amount: deposit_amt });
            assert(ts@ =~= opening_transfers(*accounts, deposit_amt));
            Ok(ts)
        },
        Err(e) => Err(e),
    }
}

/// Runs `take` and hands back the token-program transfers that it decided.
pub fn take_transfers(ledger: &mut Ledger, program: &Key, signer: &Key, accounts: &Take)
    -> (r: Result<Vec<Transfer>, EscrowError>)
    requires
        old(ledger).wf(),
    ensures
        final(ledger).wf(),
        applied(unit_of(r), take_result(old(ledger)@, *program, *signer, *accounts), old(ledger)@, final(ledger)@),
        r matches Ok(ts) ==> ts@ == settlement_transfers(old(ledger)@, *accounts),
{
    let paid = match ledger.record(&accounts.escrow) {
        Some(rec) => rec.receive_amt,
        None => 0,
    };
    let released = match ledger.token(&accounts.vault) {
        Some(t) => t.amount,
        None => 0,
    };
    let ghost before = ledger@;
    match take(ledger, program, signer, accounts) {
        Ok(()) => {
            let mut ts: Vec<Transfer> = Vec::new();
            ts.push(Transfer { from: accounts.taker_ata_b, to: accounts.maker_ata_b, amount: paid });
            ts.push(Transfer { from: accounts.vault, to: accounts.taker_ata_a, amount: released });
            assert(ts@ =~= settlement_transfers(before, *accounts));
            Ok(ts)
        },
        Err(e) => Err(e),
    }
}

/// Runs `refund` and hands back the token-program transfers that it decided.
pub fn refund_transfers(ledger: &mut Ledger, program: &Key, signer: &Key, accounts: &Refund)
    -> (r: Result<Vec<Transfer>, EscrowError>)
    requires
        old(ledger).wf(),
    ensures
        final(ledger).wf(),
        applied(unit_of(r), refund_result(old(ledger)@, *program, *signer, *accounts), old(ledger)@, final(ledger)@),
        r matches Ok(ts) ==> ts@ == refund_transfers_of(old(ledger)@, *accounts),
{
    let released = match ledger.token(&accounts.vault) {
        Some(t) => t.amount,
        None => 0,
    };
    let ghost before = ledger@;
    match refund(ledger, program, signer, accounts) {
        Ok(()) => {
            let mut ts: Vec<Transfer> = Vec::new();
            ts.push(Transfer { from: accounts.vault, to: accounts.maker_ata_a, amount: released });
            assert(ts@ =~= refund_transfers_of(before, *accounts));
            Ok(ts)
        },
        Err(e) => Err(e),
    }
}

} // verus!
