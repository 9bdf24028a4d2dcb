use anchor_lang::prelude::Pubkey;
use escrow::derive::{find_escrow_address, holding_address_of, le_bytes_of, rederive_escrow_address};
use escrow::instructions::{
    make, make_transfers, open_escrow, refund, refund_transfers, settle_escrow, take, take_transfers, Make, Refund,
    Take, TakeAddresses,
};
use escrow::key::Key;
use escrow::state::{AccountData, EscrowError, Ledger, TokenAccount};

struct World {
    ledger: Ledger,
    program: Key,
    token_program: Key,
    maker: Key,
    taker: Key,
    mint_a: Key,
    mint_b: Key,
}

fn key(b: u8) -> Key {
    Key::new([b; 32])
}

fn ata_program() -> Key {
    Key::new(anchor_spl::associated_token::ID.to_bytes())
}

fn ata(wallet: &Key, mint: &Key, token_program: &Key) -> Key {
    holding_address_of(wallet, mint, token_program, &ata_program()).unwrap()
}

fn fund(ledger: &mut Ledger, wallet: &Key, mint: &Key, token_program: &Key, amount: u64) {
    let k = ata(wallet, mint, token_program);
    ledger.put(k, AccountData::Token(TokenAccount { mint: *mint, owner: *wallet, amount }));
}

fn world(maker_a: u64, maker_b: u64, taker_a: u64, taker_b: u64) -> World {
    let mut w = World {
        ledger: Ledger::new(),
        program: key(7),
        token_program: key(6),
        maker: key(1),
        taker: key(2),
        mint_a: key(10),
        mint_b: key(11),
    };
    let (m, t, a, b, tp) = (w.maker, w.taker, w.mint_a, w.mint_b, w.token_program);
    fund(&mut w.ledger, &m, &a, &tp, maker_a);
    fund(&mut w.ledger, &m, &b, &tp, maker_b);
    fund(&mut w.ledger, &t, &a, &tp, taker_a);
    fund(&mut w.ledger, &t, &b, &tp, taker_b);
    w
}

fn make_accounts(w: &World, seed: u64) -> Make {
    let (escrow, _) = find_escrow_address(&w.maker, seed, &w.program).unwrap();
    Make {
        maker: w.maker,
        mint_a: w.mint_a,
        mint_b: w.mint_b,
        maker_ata_a: ata(&w.maker, &w.mint_a, &w.token_program),
        escrow,
        vault: ata(&escrow, &w.mint_a, &w.token_program),
        token_program: w.token_program,
        associated_token_program: ata_program(),
    }
}

fn take_accounts(w: &World, m: &Make) -> Take {
    Take {
        taker: w.taker,
        maker: w.maker,
        mint_a: w.mint_a,
        mint_b: w.mint_b,
        taker_ata_a: ata(&w.taker, &w.mint_a, &w.token_program),
        taker_ata_b: ata(&w.taker, &w.mint_b, &w.token_program),
        maker_ata_b: ata(&w.maker, &w.mint_b, &w.token_program),
        escrow: m.escrow,
        vault: m.vault,
        token_program: w.token_program,
        associated_token_program: ata_program(),
    }
}

fn refund_accounts(w: &World, m: &Make) -> Refund {
    Refund {
        maker: w.maker,
        mint_a: w.mint_a,
        maker_ata_a: m.maker_ata_a,
        escrow: m.escrow,
        vault: m.vault,
        token_program: w.token_program,
        associated_token_program: ata_program(),
    }
}

fn balance(w: &World, wallet: &Key, mint: &Key) -> u64 {
    w.ledger.token(&ata(wallet, mint, &w.token_program)).unwrap().amount
}

fn open(w: &mut World, seed: u64, deposit: u64, receive: u64) -> Make {
    let m = make_accounts(w, seed);
    let (program, maker) = (w.program, w.maker);
    assert_eq!(make(&mut w.ledger, &program, &maker, &m, seed, deposit, receive), Ok(()));
    m
}

#[test]
fn scenario_open_then_fulfill() {
    let mut w = world(1000, 0, 0, 500);
    let m = open(&mut w, 1, 100, 50);
    assert_eq!(w.ledger.token(&m.vault).unwrap().amount, 100);
    let t = take_accounts(&w, &m);
    let (program, taker) = (w.program, w.taker);
    assert_eq!(take(&mut w.ledger, &program, &taker, &t), Ok(()));
    assert_eq!(balance(&w, &w.taker, &w.mint_b), 450);
    assert_eq!(balance(&w, &w.maker, &w.mint_b), 50);
    assert_eq!(balance(&w, &w.taker, &w.mint_a), 100);
    assert_eq!(balance(&w, &w.maker, &w.mint_a), 900);
    assert!(w.ledger.get(&m.vault).is_none());
    assert!(w.ledger.get(&m.escrow).is_none());
}

#[test]
fn scenario_open_then_cancel() {
    let mut w = world(1000, 0, 0, 500);
    let m = open(&mut w, 2, 10, 5);
    assert_eq!(balance(&w, &w.maker, &w.mint_a), 990);
    let r = refund_accounts(&w, &m);
    let (program, maker) = (w.program, w.maker);
    assert_eq!(refund(&mut w.ledger, &program, &maker, &r), Ok(()));
    assert_eq!(balance(&w, &w.maker, &w.mint_a), 1000);
    assert_eq!(balance(&w, &w.maker, &w.mint_b), 0);
    assert_eq!(balance(&w, &w.taker, &w.mint_b), 500);
    assert!(w.ledger.get(&m.vault).is_none());
    assert!(w.ledger.get(&m.escrow).is_none());
}

#[test]
fn open_stores_the_inputs() {
    let mut w = world(300, 0, 0, 0);
    let m = open(&mut w, 9, 120, 77);
    match w.ledger.get(&m.escrow) {
        Some(AccountData::Escrow(e)) => {
            assert_eq!(e.seed, 9);
            assert_eq!(e.receive_amt, 77);
            assert_eq!(e.maker.bytes, w.maker.bytes);
            assert_eq!(e.mint_a.bytes, w.mint_a.bytes);
            assert_eq!(e.mint_b.bytes, w.mint_b.bytes);
            let (_, bump) = find_escrow_address(&w.maker, 9, &w.program).unwrap();
            assert_eq!(e.bump, bump);
        }
        _ => panic!("no record at the derived address"),
    }
    let vault = w.ledger.token(&m.vault).unwrap();
    assert_eq!(vault.amount, 120);
    assert_eq!(vault.owner.bytes, m.escrow.bytes);
    assert_eq!(balance(&w, &w.maker, &w.mint_a), 180);
}

#[test]
fn open_whole_balance() {
    let mut w = world(64, 0, 0, 0);
    let m = open(&mut w, 3, 64, 0);
    assert_eq!(w.ledger.token(&m.vault).unwrap().amount, 64);
    assert_eq!(balance(&w, &w.maker, &w.mint_a), 0);
}

#[test]
fn open_reused_seed_fails() {
    let mut w = world(1000, 0, 0, 0);
    let m = open(&mut w, 4, 100, 1);
    let (program, maker) = (w.program, w.maker);
    assert_eq!(make(&mut w.ledger, &program, &maker, &m, 4, 50, 1), Err(EscrowError::AlreadyExists));
    assert_eq!(balance(&w, &w.maker, &w.mint_a), 900);
    assert_eq!(w.ledger.token(&m.vault).unwrap().amount, 100);
}

#[test]
fn open_two_seeds_side_by_side() {
    let mut w = world(1000, 0, 0, 0);
    let m1 = open(&mut w, 5, 100, 1);
    let m2 = open(&mut w, 6, 200, 1);
    assert_ne!(m1.escrow.bytes, m2.escrow.bytes);
    assert_eq!(balance(&w, &w.maker, &w.mint_a), 700);
}

#[test]
fn open_insufficient_balance() {
    let mut w = world(10, 0, 0, 0);
    let m = make_accounts(&w, 1);
    let (program, maker) = (w.program, w.maker);
    assert_eq!(make(&mut w.ledger, &program, &maker, &m, 1, 11, 1), Err(EscrowError::InsufficientBalance));
    assert!(w.ledger.get(&m.escrow).is_none());
    assert_eq!(balance(&w, &w.maker, &w.mint_a), 10);
}

#[test]
fn open_by_other_signer() {
    let mut w = world(10, 0, 0, 0);
    let m = make_accounts(&w, 1);
    let (program, taker) = (w.program, w.taker);
    assert_eq!(make(&mut w.ledger, &program, &taker, &m, 1, 5, 1), Err(EscrowError::AuthorizationError));
}

#[test]
fn open_with_wrong_record_address() {
    let mut w = world(10, 0, 0, 0);
    let m = make_accounts(&w, 1);
    let (program, maker) = (w.program, w.maker);
    assert_eq!(make(&mut w.ledger, &program, &maker, &m, 2, 5, 1), Err(EscrowError::AddressDerivationMismatch));
}

#[test]
fn open_without_holding_account() {
    let mut w = world(10, 0, 0, 0);
    let mut m = make_accounts(&w, 1);
    m.mint_a = key(12);
    m.maker_ata_a = ata(&w.maker, &m.mint_a, &w.token_program);
    m.vault = ata(&m.escrow, &m.mint_a, &w.token_program);
    let (program, maker) = (w.program, w.maker);
    assert_eq!(make(&mut w.ledger, &program, &maker, &m, 1, 5, 1), Err(EscrowError::NotFound));
}

#[test]
fn cancel_by_other_identity() {
    let mut w = world(1000, 0, 0, 0);
    let m = open(&mut w, 1, 100, 50);
    let r = refund_accounts(&w, &m);
    let (program, taker) = (w.program, w.taker);
    assert_eq!(refund(&mut w.ledger, &program, &taker, &r), Err(EscrowError::AuthorizationError));
    assert_eq!(w.ledger.token(&m.vault).unwrap().amount, 100);
    assert!(w.ledger.get(&m.escrow).is_some());
}

#[test]
fn cancel_with_wrong_vault() {
    let mut w = world(1000, 0, 0, 0);
    let m = open(&mut w, 1, 100, 50);
    let mut r = refund_accounts(&w, &m);
    r.vault = r.maker_ata_a;
    let (program, maker) = (w.program, w.maker);
    assert_eq!(refund(&mut w.ledger, &program, &maker, &r), Err(EscrowError::AddressDerivationMismatch));
    assert_eq!(w.ledger.token(&m.vault).unwrap().amount, 100);
}

#[test]
fn cancel_twice_not_found() {
    let mut w = world(1000, 0, 0, 0);
    let m = open(&mut w, 1, 100, 50);
    let r = refund_accounts(&w, &m);
    let (program, maker) = (w.program, w.maker);
    assert_eq!(refund(&mut w.ledger, &program, &maker, &r), Ok(()));
    assert_eq!(refund(&mut w.ledger, &program, &maker, &r), Err(EscrowError::NotFound));
    assert_eq!(balance(&w, &w.maker, &w.mint_a), 1000);
}

#[test]
fn fulfill_twice_not_found() {
    let mut w = world(1000, 0, 0, 500);
    let m = open(&mut w, 1, 100, 50);
    let t = take_accounts(&w, &m);
    let (program, taker, maker) = (w.program, w.taker, w.maker);
    assert_eq!(take(&mut w.ledger, &program, &taker, &t), Ok(()));
    assert_eq!(take(&mut w.ledger, &program, &taker, &t), Err(EscrowError::NotFound));
    let r = refund_accounts(&w, &m);
    assert_eq!(refund(&mut w.ledger, &program, &maker, &r), Err(EscrowError::NotFound));
    assert_eq!(balance(&w, &w.taker, &w.mint_b), 450);
}

#[test]
fn fulfill_insufficient_asset_b() {
    let mut w = world(1000, 0, 0, 49);
    let m = open(&mut w, 1, 100, 50);
    let t = take_accounts(&w, &m);
    let (program, taker) = (w.program, w.taker);
    assert_eq!(take(&mut w.ledger, &program, &taker, &t), Err(EscrowError::InsufficientBalance));
    assert_eq!(balance(&w, &w.taker, &w.mint_b), 49);
    assert_eq!(w.ledger.token(&m.vault).unwrap().amount, 100);
}

#[test]
fn fulfill_unsigned_by_taker() {
    let mut w = world(1000, 0, 0, 500);
    let m = open(&mut w, 1, 100, 50);
    let t = take_accounts(&w, &m);
    let (program, maker) = (w.program, w.maker);
    assert_eq!(take(&mut w.ledger, &program, &maker, &t), Err(EscrowError::AuthorizationError));
}

#[test]
fn fulfill_with_wrong_mint() {
    let mut w = world(1000, 0, 0, 500);
    let m = open(&mut w, 1, 100, 50);
    let mut t = take_accounts(&w, &m);
    t.mint_b = w.mint_a;
    let (program, taker) = (w.program, w.taker);
    assert_eq!(take(&mut w.ledger, &program, &taker, &t), Err(EscrowError::InvalidState));
}

#[test]
fn fulfill_overflowing_maker_balance() {
    let mut w = world(1000, u64::MAX - 10, 0, 500);
    let m = open(&mut w, 1, 100, 50);
    let t = take_accounts(&w, &m);
    let (program, taker) = (w.program, w.taker);
    assert_eq!(take(&mut w.ledger, &program, &taker, &t), Err(EscrowError::ArithmeticOverflow));
}

#[test]
fn fulfill_of_a_holding_account_is_invalid() {
    let mut w = world(1000, 0, 0, 500);
    let m = open(&mut w, 1, 100, 50);
    let mut t = take_accounts(&w, &m);
    t.escrow = m.vault;
    let (program, taker) = (w.program, w.taker);
    assert_eq!(take(&mut w.ledger, &program, &taker, &t), Err(EscrowError::InvalidState));
}

#[test]
fn seed_bytes_little_endian() {
    assert_eq!(le_bytes_of(0x0102030405060708), vec![8, 7, 6, 5, 4, 3, 2, 1]);
    assert_eq!(le_bytes_of(0), vec![0; 8]);
    assert_eq!(le_bytes_of(u64::MAX), vec![255; 8]);
}

#[test]
fn record_address_depends_on_maker_and_seed() {
    let program = key(7);
    let (a1, b1) = find_escrow_address(&key(1), 1, &program).unwrap();
    let (a2, _) = find_escrow_address(&key(1), 2, &program).unwrap();
    let (a3, _) = find_escrow_address(&key(3), 1, &program).unwrap();
    let (a4, b4) = find_escrow_address(&key(1), 1, &program).unwrap();
    assert_ne!(a1.bytes, a2.bytes);
    assert_ne!(a1.bytes, a3.bytes);
    assert_ne!(a1.bytes, key(1).bytes);
    assert_eq!(a1.bytes, a4.bytes);
    assert_eq!(b1, b4);
    assert_eq!(rederive_escrow_address(&key(1), 1, b1, &program).unwrap().bytes, a1.bytes);
    match rederive_escrow_address(&key(1), 2, b1, &program) {
        Some(other) => assert_ne!(other.bytes, a1.bytes),
        None => {}
    }
}

#[test]
fn holding_address_depends_on_wallet_and_mint() {
    let tp = key(6);
    let h1 = holding_address_of(&key(1), &key(10), &tp, &ata_program()).unwrap();
    let h2 = holding_address_of(&key(2), &key(10), &tp, &ata_program()).unwrap();
    let h3 = holding_address_of(&key(1), &key(11), &tp, &ata_program()).unwrap();
    assert_ne!(h1.bytes, key(1).bytes);
    assert_ne!(h1.bytes, key(10).bytes);
    assert_ne!(h1.bytes, h2.bytes);
    assert_ne!(h1.bytes, h3.bytes);
    assert_eq!(h1.bytes, holding_address_of(&key(1), &key(10), &tp, &ata_program()).unwrap().bytes);
}

#[test]
fn open_with_given_addresses() {
    let (maker, mint_a, ata, escrow, vault) = (key(1), key(10), key(20), key(30), key(40));
    let mut ledger = Ledger::new();
    ledger.put(ata, AccountData::Token(TokenAccount { mint: mint_a, owner: maker, amount: 500 }));
    let m = Make { maker, mint_a, mint_b: key(11), maker_ata_a: ata, escrow, vault, token_program: key(6), associated_token_program: ata_program() };
    let r = open_escrow(&mut ledger, &maker, &m, 1, 100, 50, Some((escrow, 254)), Some(vault), Some(ata));
    assert_eq!(r, Ok(()));
    assert_eq!(ledger.token(&vault).unwrap().amount, 100);
    assert_eq!(ledger.token(&ata).unwrap().amount, 400);
    assert_eq!(ledger.record(&escrow).unwrap().bump, 254);
    let r = open_escrow(&mut ledger, &maker, &m, 1, 100, 50, Some((escrow, 254)), Some(vault), Some(ata));
    assert_eq!(r, Err(EscrowError::AlreadyExists));
    let mut other = Ledger::new();
    let r = open_escrow(&mut other, &maker, &m, 1, 100, 50, None, Some(vault), Some(ata));
    assert_eq!(r, Err(EscrowError::AddressDerivationMismatch));
    let r = open_escrow(&mut other, &maker, &m, 1, 100, 50, Some((key(31), 254)), Some(vault), Some(ata));
    assert_eq!(r, Err(EscrowError::AddressDerivationMismatch));
    let r = open_escrow(&mut other, &maker, &m, 1, 100, 50, Some((escrow, 254)), Some(key(41)), Some(ata));
    assert_eq!(r, Err(EscrowError::AddressDerivationMismatch));
}

#[test]
fn settle_with_given_addresses() {
    let (maker, taker, mint_a, mint_b) = (key(1), key(2), key(10), key(11));
    let (escrow, vault, ta, tb, mb) = (key(30), key(40), key(50), key(51), key(52));
    let mut ledger = Ledger::new();
    ledger.put(
        escrow,
        AccountData::Escrow(escrow::state::Escrow { seed: 1, bump: 250, maker, mint_a, mint_b, receive_amt: 50 }),
    );
    ledger.put(vault, AccountData::Token(TokenAccount { mint: mint_a, owner: escrow, amount: 100 }));
    ledger.put(ta, AccountData::Token(TokenAccount { mint: mint_a, owner: taker, amount: 1 }));
    ledger.put(tb, AccountData::Token(TokenAccount { mint: mint_b, owner: taker, amount: 70 }));
    ledger.put(mb, AccountData::Token(TokenAccount { mint: mint_b, owner: maker, amount: 5 }));
    let t = Take {
        taker, maker, mint_a, mint_b, taker_ata_a: ta, taker_ata_b: tb, maker_ata_b: mb, escrow, vault,
        token_program: key(6),
        associated_token_program: ata_program(),
    };
    let addresses = TakeAddresses { vault: Some(vault), taker_ata_a: Some(ta), taker_ata_b: Some(tb), maker_ata_b: Some(mb) };
    assert_eq!(settle_escrow(&mut ledger, &taker, &t, Some(key(31)), &addresses), Err(EscrowError::InvalidState));
    let wrong_vault = TakeAddresses { vault: Some(key(41)), taker_ata_a: Some(ta), taker_ata_b: Some(tb), maker_ata_b: Some(mb) };
    assert_eq!(settle_escrow(&mut ledger, &taker, &t, Some(escrow), &wrong_vault), Err(EscrowError::InvalidState));
    assert_eq!(ledger.token(&vault).unwrap().amount, 100);
    assert_eq!(settle_escrow(&mut ledger, &taker, &t, Some(escrow), &addresses), Ok(()));
    assert_eq!(ledger.token(&ta).unwrap().amount, 101);
    assert_eq!(ledger.token(&tb).unwrap().amount, 20);
    assert_eq!(ledger.token(&mb).unwrap().amount, 55);
    assert!(ledger.get(&vault).is_none());
    assert!(ledger.get(&escrow).is_none());
    assert_eq!(settle_escrow(&mut ledger, &taker, &t, Some(escrow), &addresses), Err(EscrowError::NotFound));
}

#[test]
fn open_zero_deposit_fails() {
    let mut w = world(10, 0, 0, 0);
    let m = make_accounts(&w, 1);
    let (program, maker) = (w.program, w.maker);
    assert_eq!(make(&mut w.ledger, &program, &maker, &m, 1, 0, 1), Err(EscrowError::ZeroAmount));
    assert!(w.ledger.get(&m.escrow).is_none());
    assert!(w.ledger.get(&m.vault).is_none());
    assert_eq!(balance(&w, &w.maker, &w.mint_a), 10);
}

#[test]
fn fulfill_with_unrelated_vault() {
    let mut w = world(1000, 0, 0, 500);
    let m = open(&mut w, 1, 100, 50);
    let mut t = take_accounts(&w, &m);
    t.vault = ata(&w.maker, &w.mint_a, &w.token_program);
    let (program, taker) = (w.program, w.taker);
    assert_eq!(take(&mut w.ledger, &program, &taker, &t), Err(EscrowError::InvalidState));
    assert_eq!(w.ledger.token(&m.vault).unwrap().amount, 100);
}

#[test]
fn deposit_step_reports_short_balance() {
    let (maker, mint_a, ata, escrow, vault) = (key(1), key(10), key(20), key(30), key(40));
    let mut ledger = Ledger::new();
    ledger.put(ata, AccountData::Token(TokenAccount { mint: mint_a, owner: maker, amount: 5 }));
    let m = Make { maker, mint_a, mint_b: key(11), maker_ata_a: ata, escrow, vault, token_program: key(6), associated_token_program: ata_program() };
    m.init_escrow(&mut ledger, 1, 254, 3);
    assert_eq!(m.deposit(&mut ledger, 6), Err(EscrowError::InsufficientBalance));
    assert_eq!(ledger.token(&ata).unwrap().amount, 5);
    assert_eq!(ledger.token(&vault).unwrap().amount, 0);
    assert_eq!(m.deposit(&mut ledger, 5), Ok(()));
    assert_eq!(ledger.token(&vault).unwrap().amount, 5);
    assert_eq!(ledger.token(&ata).unwrap().amount, 0);
}

#[test]
fn take_steps_report_errors() {
    let (maker, taker, mint_a, mint_b) = (key(1), key(2), key(10), key(11));
    let (escrow, vault, ta, tb, mb) = (key(30), key(40), key(50), key(51), key(52));
    let mut ledger = Ledger::new();
    ledger.put(vault, AccountData::Token(TokenAccount { mint: mint_a, owner: escrow, amount: 9 }));
    ledger.put(tb, AccountData::Token(TokenAccount { mint: mint_b, owner: taker, amount: 2 }));
    ledger.put(mb, AccountData::Token(TokenAccount { mint: mint_b, owner: maker, amount: 0 }));
    let t = Take {
        taker, maker, mint_a, mint_b, taker_ata_a: ta, taker_ata_b: tb, maker_ata_b: mb, escrow, vault,
        token_program: key(6),
        associated_token_program: ata_program(),
    };
    assert_eq!(t.deposit(&mut ledger, 3), Err(EscrowError::InsufficientBalance));
    assert_eq!(t.transfer_and_close_vault(&mut ledger), Err(EscrowError::NotFound));
    assert_eq!(ledger.token(&vault).unwrap().amount, 9);
    ledger.put(ta, AccountData::Token(TokenAccount { mint: mint_a, owner: taker, amount: 0 }));
    assert_eq!(t.transfer_and_close_vault(&mut ledger), Ok(()));
    assert_eq!(ledger.token(&ta).unwrap().amount, 9);
    assert!(ledger.get(&vault).is_none());
}

#[test]
fn transfers_of_open_and_fulfill() {
    let mut w = world(1000, 0, 0, 500);
    let m = make_accounts(&w, 1);
    let (program, maker, taker) = (w.program, w.maker, w.taker);
    let ts = make_transfers(&mut w.ledger, &program, &maker, &m, 1, 100, 50).unwrap();
    assert_eq!(ts.len(), 1);
    assert_eq!((ts[0].from.bytes, ts[0].to.bytes, ts[0].amount), (m.maker_ata_a.bytes, m.vault.bytes, 100));
    let t = take_accounts(&w, &m);
    let ts = take_transfers(&mut w.ledger, &program, &taker, &t).unwrap();
    assert_eq!(ts.len(), 2);
    assert_eq!((ts[0].from.bytes, ts[0].to.bytes, ts[0].amount), (t.taker_ata_b.bytes, t.maker_ata_b.bytes, 50));
    assert_eq!((ts[1].from.bytes, ts[1].to.bytes, ts[1].amount), (m.vault.bytes, t.taker_ata_a.bytes, 100));
    assert!(take_transfers(&mut w.ledger, &program, &taker, &t).is_err());
}

#[test]
fn transfers_of_cancel() {
    let mut w = world(1000, 0, 0, 0);
    let m = open(&mut w, 2, 10, 5);
    let r = refund_accounts(&w, &m);
    let (program, maker, taker) = (w.program, w.maker, w.taker);
    assert_eq!(refund_transfers(&mut w.ledger, &program, &taker, &r).err(), Some(EscrowError::AuthorizationError));
    let ts = refund_transfers(&mut w.ledger, &program, &maker, &r).unwrap();
    assert_eq!(ts.len(), 1);
    assert_eq!((ts[0].from.bytes, ts[0].to.bytes, ts[0].amount), (m.vault.bytes, m.maker_ata_a.bytes, 10));
    assert_eq!(make_transfers(&mut w.ledger, &program, &maker, &m, 2, 0, 5).err(), Some(EscrowError::ZeroAmount));
}

#[test]
fn holding_address_matches_associated_token_account() {
    let tp = key(6);
    for (w, m) in [(1u8, 10u8), (2, 10), (1, 11), (30, 40)] {
        let expected = anchor_spl::associated_token::get_associated_token_address_with_program_id(
            &Pubkey::new_from_array([w; 32]),
            &Pubkey::new_from_array([m; 32]),
            &Pubkey::new_from_array([6; 32]),
        );
        let got = holding_address_of(&key(w), &key(m), &tp, &ata_program()).unwrap();
        assert_eq!(got.bytes, expected.to_bytes());
    }
}

#[test]
fn record_address_matches_find_program_address() {
    let program = Pubkey::new_from_array([7; 32]);
    let maker = Pubkey::new_from_array([1; 32]);
    let (expected, bump) =
        Pubkey::find_program_address(&[b"escrow", maker.as_ref(), &5u64.to_le_bytes()], &program);
    let (got, got_bump) = find_escrow_address(&key(1), 5, &key(7)).unwrap();
    assert_eq!(got.bytes, expected.to_bytes());
    assert_eq!(got_bump, bump);
}
