use vstd::prelude::*;

use crate::key::Key;

verus! {

/// The persisted metadata of one open escrow.
#[derive(Clone, Copy)]
pub struct Escrow {
    /// Nonce chosen by the maker, so that one maker can hold several escrows.
    pub seed: u64,
    /// Bump that, appended to the seeds, re-derives the record's address.
    pub bump: u8,
    pub maker: Key,
    /// Mint of the tokens that the maker locks.
    pub mint_a: Key,
    /// Mint of the tokens that the maker asks for.
    pub mint_b: Key,
    /// Amount of `mint_b` owed to the maker.
    pub receive_amt: u64,
}

/// A holding account for tokens of one mint.
#[derive(Clone, Copy)]
pub struct TokenAccount {
    pub mint: Key,
    pub owner: Key,
    pub amount: u64,
}

/// What an address holds.
#[derive(Clone, Copy)]
pub enum AccountData {
    Token(TokenAccount),
    Escrow(Escrow),
}

#[derive(Clone, Copy)]
pub struct Entry {
    pub key: Key,
    pub data: AccountData,
}

/// The errors that the three instructions report.
#[derive(Clone, Copy, Debug, PartialEq, Eq, Structural)]
pub enum EscrowError {
    /// The signer is not the identity that the instruction requires.
    AuthorizationError,
    /// An address does not re-derive from the seeds, bump and owners it must come from.
    AddressDerivationMismatch,
    /// A source account holds fewer tokens than the transfer moves.
    InsufficientBalance,
    /// The address of a new account is already in use.
    AlreadyExists,
    /// A referenced account does not exist (or was closed).
    NotFound,
    /// A referenced account exists but is not of the kind, mint or owner required.
    InvalidState,
    /// A destination balance would exceed `u64::MAX`.
    ArithmeticOverflow,
    /// An amount that must be positive is 0.
    ZeroAmount,
}

pub open spec fn keys_unique(s: Seq<Entry>) -> bool {
    forall|i: int, j: int|
        0 <= i < s.len() && 0 <= j < s.len() && s[i].key == s[j].key ==> i == j
}

pub open spec fn has_key(s: Seq<Entry>, k: Key) -> bool {
    exists|i: int| 0 <= i < s.len() && s[i].key == k
}

pub open spec fn index_of(s: Seq<Entry>, k: Key) -> int {
    choose|i: int| 0 <= i < s.len() && s[i].key == k
}

/// The accounts of a sequence of entries, as a map from address to contents.
pub open spec fn table_view(s: Seq<Entry>) -> Map<Key, AccountData> {
    Map::new(|k: Key| has_key(s, k), |k: Key| s[index_of(s, k)].data)
}

proof fn lemma_at(s: Seq<Entry>, i: int)
    requires
        keys_unique(s),
        0 <= i < s.len(),
    ensures
        table_view(s).contains_key(s[i].key),
        table_view(s)[s[i].key] == s[i].data,
{
    assert(has_key(s, s[i].key));
}

proof fn lemma_update(s: Seq<Entry>, i: int, d: AccountData)
    requires
        keys_unique(s),
        0 <= i < s.len(),
    ensures
        keys_unique(s.update(i, Entry { key: s[i].key, data: d })),
        table_view(s.update(i, Entry { key: s[i].key, data: d })) =~= table_view(s).insert(s[i].key, d),
{
    let t = s.update(i, Entry { key: s[i].key, data: d });
    assert forall|k: Key| has_key(t, k) == has_key(s, k) by {
        if has_key(s, k) {
            let j = choose|j: int| 0 <= j < s.len() && s[j].key == k;
            assert(t[j].key == k);
        }
        if has_key(t, k) {
            let j = choose|j: int| 0 <= j < t.len() && t[j].key == k;
            assert(s[j].key == k);
        }
    }
    assert forall|k: Key| #[trigger] has_key(t, k) && k != s[i].key implies
        t[index_of(t, k)].data == s[index_of(s, k)].data by {
    }
    lemma_at(t, i);
}

proof fn lemma_push(s: Seq<Entry>, e: Entry)
    requires
        keys_unique(s),
        !table_view(s).contains_key(e.key),
    ensures
        keys_unique(s.push(e)),
        table_view(s.push(e)) =~= table_view(s).insert(e.key, e.data),
{
    let t = s.push(e);
    assert(keys_unique(t)) by {
        assert forall|i: int, j: int|
            0 <= i < t.len() && 0 <= j < t.len() && t[i].key == t[j].key implies i == j by {
            if i < s.len() && j == s.len() {
                assert(has_key(s, e.key));
            }
            if j < s.len() && i == s.len() {
                assert(has_key(s, e.key));
            }
        }
    }
    assert forall|k: Key| has_key(t, k) == (has_key(s, k) || k == e.key) by {
        if has_key(s, k) {
            let j = choose|j: int| 0 <= j < s.len() && s[j].key == k;
            assert(t[j].key == k);
        }
        if k == e.key {
            assert(t[s.len() as int].key == k);
        }
        if has_key(t, k) && k != e.key {
            let j = choose|j: int| 0 <= j < t.len() && t[j].key == k;
            assert(s[j].key == k);
        }
    }
    assert forall|k: Key| #[trigger] has_key(t, k) && k != e.key implies
        t[index_of(t, k)].data == s[index_of(s, k)].data by {
    }
    lemma_at(t, s.len() as int);
}

proof fn lemma_remove(s: Seq<Entry>, i: int)
    requires
        keys_unique(s),
        0 <= i < s.len(),
    ensures
        keys_unique(s.remove(i)),
        table_view(s.remove(i)) =~= table_view(s).remove(s[i].key),
{
    let t = s.remove(i);
    assert(keys_unique(t)) by {
        assert forall|a: int, b: int|
            0 <= a < t.len() && 0 <= b < t.len() && t[a].key == t[b].key implies a == b by {
            let a2 = if a < i { a } else { a + 1 };
            let b2 = if b < i { b } else { b + 1 };
            assert(s[a2].key == s[b2].key);
        }
    }
    assert forall|k: Key| has_key(t, k) == (has_key(s, k) && k != s[i].key) by {
        if has_key(s, k) && k != s[i].key {
            let j = choose|j: int| 0 <= j < s.len() && s[j].key == k;
            assert(j != i);
            if j < i {
                assert(t[j].key == k);
            } else {
                assert(t[j - 1].key == k);
            }
        }
        if has_key(t, k) {
            let j = choose|j: int| 0 <= j < t.len() && t[j].key == k;
            let j2 = if j < i { j } else { j + 1 };
            assert(s[j2].key == k);
        }
    }
    assert forall|k: Key| #[trigger] has_key(t, k) implies
        t[index_of(t, k)].data == s[index_of(s, k)].data by {
        let j = index_of(t, k);
        let j2 = if j < i { j } else { j + 1 };
        assert(s[j2].key == k);
        lemma_at(s, j2);
    }
}

/// The holding account at `k`, if `k` holds one.
pub open spec fn token_at(v: Map<Key, AccountData>, k: Key) -> Option<TokenAccount> {
    if v.contains_key(k) {
        match v[k] {
            AccountData::Token(t) => Some(t),
            AccountData::Escrow(_) => None,
        }
    } else {
        None
    }
}

/// The escrow record at `k`, if `k` holds one.
pub open spec fn record_at(v: Map<Key, AccountData>, k: Key) -> Option<Escrow> {
    if v.contains_key(k) {
        match v[k] {
            AccountData::Escrow(e) => Some(e),
            AccountData::Token(_) => None,
        }
    } else {
        None
    }
}

/// The holding account `t` with its balance set to `amount`.
pub open spec fn with_amount(t: TokenAccount, amount: int) -> AccountData {
    AccountData::Token(TokenAccount { mint: t.mint, owner: t.owner, amount: amount as u64 })
}

/// Whether `amount` can move from the holding account `from` to another one, `to`.
pub open spec fn can_move(v: Map<Key, AccountData>, from: Key, to: Key, amount: u64) -> bool {
    &&& token_at(v, from) is Some
    &&& token_at(v, to) is Some
    &&& from != to
    &&& token_at(v, from).unwrap().amount >= amount
    &&& token_at(v, to).unwrap().amount + amount <= u64::MAX
}

/// The accounts after `amount` has moved from `from` to `to`.
pub open spec fn moved(v: Map<Key, AccountData>, from: Key, to: Key, amount: u64) -> Map<Key, AccountData> {
    let f = token_at(v, from).unwrap();
    let t = token_at(v, to).unwrap();
    v.insert(from, with_amount(f, f.amount - amount)).insert(to, with_amount(t, t.amount + amount))
}

/// What moving `amount` from the holding account `from` to the holding account
/// `to` does: the accounts afterwards, or the error.
pub open spec fn transfer_result(v: Map<Key, AccountData>, from: Key, to: Key, amount: u64)
    -> Result<Map<Key, AccountData>, EscrowError>
{
    if !v.contains_key(from) || !v.contains_key(to) {
        Err(EscrowError::NotFound)
    } else if token_at(v, from) is None || token_at(v, to) is None || from == to {
        Err(EscrowError::InvalidState)
    } else if token_at(v, from).unwrap().amount < amount {
        Err(EscrowError::InsufficientBalance)
    } else if token_at(v, to).unwrap().amount + amount > u64::MAX {
        Err(EscrowError::ArithmeticOverflow)
    } else {
        Ok(moved(v, from, to, amount))
    }
}

/// Whether an operation's result `r` and the accounts `after` are what `expected`
/// says, the accounts being `before` when it is an error.
pub open spec fn applied(
    r: Result<(), EscrowError>,
    expected: Result<Map<Key, AccountData>, EscrowError>,
    before: Map<Key, AccountData>,
    after: Map<Key, AccountData>,
) -> bool {
    match expected {
        Ok(v) => r is Ok && after == v,
        Err(e) => r == Err::<(), EscrowError>(e) && after == before,
    }
}

/// Every account of the chain that the escrow program reads or writes, by address.
pub struct Ledger {
    accounts: Vec<Entry>,
}

impl Ledger {
    pub closed spec fn view(&self) -> Map<Key, AccountData> {
        table_view(self.accounts@)
    }

    pub closed spec fn wf(&self) -> bool {
        keys_unique(self.accounts@)
    }

    pub fn new() -> (r: Ledger)
        ensures
            r.wf(),
            r@ == Map::<Key, AccountData>::empty(),
    {
        let r = Ledger { accounts: Vec::new() };
        assert(table_view(r.accounts@) =~= Map::empty());
        r
    }

    /// The position of the account at `k`, if there is one.
    fn find(&self, k: &Key) -> (r: Option<usize>)
        requires
            self.wf(),
        ensures
            r is None ==> !self@.contains_key(*k),
            r matches Some(i) ==> i < self.accounts@.len() && self.accounts@[i as int].key == *k
                && self@.contains_key(*k) && self@[*k] == self.accounts@[i as int].data,
    {
        let mut i: usize = 0;
        while i < self.accounts.len()
            invariant
                self.wf(),
                0 <= i <= self.accounts@.len(),
                forall|j: int| 0 <= j < i ==> self.accounts@[j].key != *k,
            decreases self.accounts@.len() - i,
        {
            if self.accounts[i].key.same(k) {
                proof { lemma_at(self.accounts@, i as int); }
                return Some(i);
            }
            i = i + 1;
        }
        None
    }

    /// The contents of the account at `k`, if there is one.
    pub fn get(&self, k: &Key) -> (r: Option<AccountData>)
        requires
            self.wf(),
        ensures
            r == (if self@.contains_key(*k) { Some(self@[*k]) } else { None::<AccountData> }),
    {
        match self.find(k) {
            Some(i) => Some(self.accounts[i].data),
            None => None,
        }
    }

    /// The holding account at `k`, if `k` holds one.
    pub fn token(&self, k: &Key) -> (r: Option<TokenAccount>)
        requires
            self.wf(),
        ensures
            r == token_at(self@, *k),
    {
        match self.get(k) {
            Some(AccountData::Token(t)) => Some(t),
            _ => None,
        }
    }

    /// The escrow record at `k`, if `k` holds one.
    pub fn record(&self, k: &Key) -> (r: Option<Escrow>)
        requires
            self.wf(),
        ensures
            r == record_at(self@, *k),
    {
        match self.get(k) {
            Some(AccountData::Escrow(e)) => Some(e),
            _ => None,
        }
    }

    /// Moves `amount` tokens from the holding account `from` to the holding
    /// account `to`, or reports why it cannot, changing nothing.
    pub fn transfer(&mut self, from: &Key, to: &Key, amount: u64) -> (r: Result<(), EscrowError>)
        requires
            old(self).wf(),
        ensures
            final(self).wf(),
            applied(r, transfer_result(old(self)@, *from, *to, amount), old(self)@, final(self)@),
            can_move(old(self)@, *from, *to, amount) <==> r is Ok,
    {
        if self.get(from).is_none() || self.get(to).is_none() {
            return Err(EscrowError::NotFound);
        }
        let f = match self.token(from) {
            Some(t) => t,
            None => return Err(EscrowError::InvalidState),
        };
        let t = match self.token(to) {
            Some(t) => t,
            None => return Err(EscrowError::InvalidState),
        };
        if from.same(to) {
            return Err(EscrowError::InvalidState);
        }
        if f.amount < amount {
            return Err(EscrowError::InsufficientBalance);
        }
        if t.amount > u64::MAX - amount {
            return Err(EscrowError::ArithmeticOverflow);
        }
        self.put(*from, AccountData::Token(TokenAccount { mint: f.mint, owner: f.owner, amount: f.amount - amount }));
        self.put(*to, AccountData::Token(TokenAccount { mint: t.mint, owner: t.owner, amount: t.amount + amount }));
        Ok(())
    }

    /// Writes `d` at `k`, creating the account if there is none.
    pub fn put(&mut self, k: Key, d: AccountData)
        requires
            old(self).wf(),
        ensures
            final(self).wf(),
            final(self)@ == old(self)@.insert(k, d),
    {
        match self.find(&k) {
            Some(i) => {
                proof { lemma_update(self.accounts@, i as int, d); }
                self.accounts.set(i, Entry { key: k, data: d });
            },
            None => {
                proof { lemma_push(self.accounts@, Entry { key: k, data: d }); }
                self.accounts.push(Entry { key: k, data: d });
            },
        }
    }

    /// Deletes the account at `k`, if there is one.
    pub fn close(&mut self, k: &Key)
        requires
            old(self).wf(),
        ensures
            final(self).wf(),
            final(self)@ == old(self)@.remove(*k),
    {
        match self.find(k) {
            Some(i) => {
                proof { lemma_remove(self.accounts@, i as int); }
                self.accounts.remove(i);
            },
            None => {
                assert(self@ =~= self@.remove(*k));
            },
        }
    }
}

} // verus!
