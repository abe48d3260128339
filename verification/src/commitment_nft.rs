//! Receipts for commitments: one transferable token per commitment, which
//! is active until the commitment is settled.

use crate::address::Address;
use crate::assoc::{assoc, keys_distinct, keys_of, Keyed, lemma_assoc_absent, lemma_assoc_at, lemma_assoc_push, lemma_assoc_update};
use crate::math::expiration;
use crate::math::spec_expiration;
use vstd::prelude::*;

verus! {

/// Why the receipt contract refuses a call. A refused call changes
/// nothing.
#[derive(Clone, Copy, Debug, PartialEq, Eq, Structural)]
pub enum ContractError {
    NotInitialized,
    AlreadyInitialized,
    TokenNotFound,
    NotOwner,
    AlreadySettled,
    NotExpired,
    ArithmeticOverflow,
}

/// What a receipt records of its commitment.
#[derive(Debug, PartialEq, Eq)]
pub struct CommitmentMetadata {
    pub commitment_id: String,
    pub duration_days: u32,
    pub max_loss_percent: u32,
    pub commitment_type: String,
    pub created_at: u64,
    pub expires_at: u64,
    pub initial_amount: i128,
    pub asset_address: Address,
}

/// A receipt.
#[derive(Debug, PartialEq, Eq)]
pub struct CommitmentNFT {
    pub owner: Address,
    pub token_id: u32,
    pub metadata: CommitmentMetadata,
    pub is_active: bool,
    pub early_exit_penalty: u32,
}

impl Clone for CommitmentMetadata {
    fn clone(&self) -> (copy: Self)
        ensures
            copy == *self,
    {
        CommitmentMetadata {
            commitment_id: self.commitment_id.clone(),
            duration_days: self.duration_days,
            max_loss_percent: self.max_loss_percent,
            commitment_type: self.commitment_type.clone(),
            created_at: self.created_at,
            expires_at: self.expires_at,
            initial_amount: self.initial_amount,
            asset_address: self.asset_address.clone(),
        }
    }
}

impl Clone for CommitmentNFT {
    fn clone(&self) -> (copy: Self)
        ensures
            copy == *self,
    {
        CommitmentNFT {
            owner: self.owner.clone(),
            token_id: self.token_id,
            metadata: self.metadata.clone(),
            is_active: self.is_active,
            early_exit_penalty: self.early_exit_penalty,
        }
    }
}

/// A notification that the receipt contract has queued for publication.
#[derive(Debug, PartialEq, Eq)]
pub enum NftEvent {
    Minted { owner: Address, token_id: u32 },
    Transferred { from: Address, to: Address, token_id: u32 },
    Settled { token_id: u32 },
}

/// What one owner holds: the number of its receipts, and their tokens in
/// the order in which it got them.
pub struct Holding {
    pub balance: u32,
    pub tokens: Seq<u32>,
}

/// What one owner holds, as it is stored.
#[derive(Debug, PartialEq, Eq)]
pub struct HoldingEntry {
    pub owner: Address,
    pub balance: u32,
    pub tokens: Vec<u32>,
}

impl Keyed for HoldingEntry {
    type Key = Seq<char>;

    open spec fn key(&self) -> Seq<char> {
        self.owner@
    }

    fn same_key(&self, other: &Self) -> (same: bool) {
        self.owner == other.owner
    }
}

/// What a receipt contract holds, as plain lists: the form in which it is
/// stored and restored.
#[derive(Debug, PartialEq, Eq)]
pub struct NftParts {
    pub admin: Option<Address>,
    pub tokens: Vec<CommitmentNFT>,
    pub holdings: Vec<HoldingEntry>,
    pub events: Vec<NftEvent>,
}

impl NftParts {
    /// The receipt contract that these lists describe.
    pub open spec fn view(&self) -> NftView {
        NftView {
            admin: self.admin,
            tokens: self.tokens@,
            holdings: assoc(
                keys_of(self.holdings@),
                Seq::new(
                    self.holdings@.len(),
                    |i: int| Holding { balance: self.holdings@[i].balance, tokens: self.holdings@[i].tokens@ },
                ),
            ),
            events: self.events@,
        }
    }

    /// No owner has two holdings, and the contract they describe is well
    /// formed.
    pub open spec fn wf(&self) -> bool {
        &&& keys_of(self.holdings@).no_duplicates()
        &&& self.view().wf()
    }
}

/// The receipts of one contract instance.
pub struct CommitmentNFTContract {
    admin: Option<Address>,
    tokens: Vec<CommitmentNFT>,
    holdings: Vec<HoldingEntry>,
    events: Vec<NftEvent>,
}

/// What the receipt contract holds. A receipt's token is its position in
/// `tokens`.
pub struct NftView {
    pub admin: Option<Address>,
    pub tokens: Seq<CommitmentNFT>,
    pub holdings: Map<Seq<char>, Holding>,
    pub events: Seq<NftEvent>,
}

/// `tokens` without the first occurrence of `token_id`.
pub open spec fn without_first(tokens: Seq<u32>, token_id: u32) -> Seq<u32> {
    if tokens.contains(token_id) {
        tokens.remove(tokens.index_of_first(token_id).unwrap())
    } else {
        tokens
    }
}

/// The receipts named by `ids` that exist, in the order of `ids`.
pub open spec fn receipts_of(tokens: Seq<CommitmentNFT>, ids: Seq<u32>) -> Seq<CommitmentNFT>
    decreases ids.len(),
{
    if ids.len() == 0 {
        Seq::empty()
    } else if ids.last() < tokens.len() {
        receipts_of(tokens, ids.drop_last()).push(tokens[ids.last() as int])
    } else {
        receipts_of(tokens, ids.drop_last())
    }
}

impl NftView {
    /// Whether `token_id` names a receipt.
    pub open spec fn has(&self, token_id: u32) -> bool {
        token_id < self.tokens.len()
    }

    /// What `owner` holds; nothing where it never held a receipt.
    pub open spec fn holding(&self, owner: Seq<char>) -> Holding {
        if self.holdings.contains_key(owner) {
            self.holdings[owner]
        } else {
            Holding { balance: 0, tokens: Seq::empty() }
        }
    }

    /// Tokens are positions, and there are no more of them than a `u32`
    /// can count.
    pub open spec fn wf(&self) -> bool {
        &&& self.tokens.len() <= u32::MAX
        &&& forall|i: int| 0 <= i < self.tokens.len() ==> (#[trigger] self.tokens[i]).token_id == i
    }

    /// The holdings after `owner` got `token_id`.
    pub open spec fn credit(self, owner: Seq<char>, token_id: u32) -> Map<Seq<char>, Holding> {
        self.holdings.insert(
            owner,
            Holding {
                balance: (self.holding(owner).balance + 1) as u32,
                tokens: self.holding(owner).tokens.push(token_id),
            },
        )
    }

    /// The holdings after `owner` gave `token_id` away: one receipt fewer,
    /// unless it had none, and the token taken off its list.
    pub open spec fn debit(self, owner: Seq<char>, token_id: u32) -> Map<Seq<char>, Holding> {
        self.holdings.insert(
            owner,
            Holding {
                balance: if self.holding(owner).balance > 0 {
                    (self.holding(owner).balance - 1) as u32
                } else {
                    0
                },
                tokens: without_first(self.holding(owner).tokens, token_id),
            },
        )
    }
}

/// The receipt contract after `initialize`.
pub open spec fn spec_initialize(s: NftView, admin: Address) -> Result<NftView, ContractError> {
    if s.admin is Some {
        Err(ContractError::AlreadyInitialized)
    } else {
        Ok(NftView { admin: Some(admin), ..s })
    }
}

/// The receipt that `mint` makes.
pub open spec fn minted_receipt(
    token_id: u32,
    owner: Address,
    commitment_id: String,
    duration_days: u32,
    max_loss_percent: u32,
    commitment_type: String,
    initial_amount: i128,
    asset_address: Address,
    early_exit_penalty: u32,
    now: u64,
) -> CommitmentNFT {
    CommitmentNFT {
        owner,
        token_id,
        metadata: CommitmentMetadata {
            commitment_id,
            duration_days,
            max_loss_percent,
            commitment_type,
            created_at: now,
            expires_at: spec_expiration(now as int, duration_days as int) as u64,
            initial_amount,
            asset_address,
        },
        is_active: true,
        early_exit_penalty,
    }
}

/// The receipt contract after `mint`. The new receipt gets the next token.
pub open spec fn spec_mint(
    s: NftView,
    owner: Address,
    commitment_id: String,
    duration_days: u32,
    max_loss_percent: u32,
    commitment_type: String,
    initial_amount: i128,
    asset_address: Address,
    early_exit_penalty: u32,
    now: u64,
) -> Result<NftView, ContractError> {
    if s.admin is None {
        Err(ContractError::NotInitialized)
    } else if s.tokens.len() >= u32::MAX || spec_expiration(now as int, duration_days as int) > u64::MAX
        || s.holding(owner@).balance >= u32::MAX {
        Err(ContractError::ArithmeticOverflow)
    } else {
        let token_id = s.tokens.len() as u32;
        Ok(
            NftView {
                tokens: s.tokens.push(
                    minted_receipt(
                        token_id,
                        owner,
                        commitment_id,
                        duration_days,
                        max_loss_percent,
                        commitment_type,
                        initial_amount,
                        asset_address,
                        early_exit_penalty,
                        now,
                    ),
                ),
                holdings: s.credit(owner@, token_id),
                events: s.events.push(NftEvent::Minted { owner, token_id }),
                ..s
            },
        )
    }
}

/// The receipt contract after `transfer`.
pub open spec fn spec_transfer(s: NftView, from: Address, to: Address, token_id: u32) -> Result<
    NftView,
    ContractError,
> {
    if !s.has(token_id) {
        Err(ContractError::TokenNotFound)
    } else if s.tokens[token_id as int].owner@ != from@ {
        Err(ContractError::NotOwner)
    } else {
        let debited = NftView { holdings: s.debit(from@, token_id), ..s };
        if debited.holding(to@).balance >= u32::MAX {
            Err(ContractError::ArithmeticOverflow)
        } else {
            Ok(
                NftView {
                    tokens: s.tokens.update(
                        token_id as int,
                        CommitmentNFT { owner: to, ..s.tokens[token_id as int] },
                    ),
                    holdings: debited.credit(to@, token_id),
                    events: s.events.push(NftEvent::Transferred { from, to, token_id }),
                    ..s
                },
            )
        }
    }
}

/// The receipt contract after `settle`.
pub open spec fn spec_settle(s: NftView, token_id: u32, now: u64) -> Result<NftView, ContractError> {
    if !s.has(token_id) {
        Err(ContractError::TokenNotFound)
    } else {
        let nft = s.tokens[token_id as int];
        if !nft.is_active {
            Err(ContractError::AlreadySettled)
        } else if now < nft.metadata.expires_at {
            Err(ContractError::NotExpired)
        } else {
            Ok(
                NftView {
                    tokens: s.tokens.update(token_id as int, CommitmentNFT { is_active: false, ..nft }),
                    events: s.events.push(NftEvent::Settled { token_id }),
                    ..s
                },
            )
        }
    }
}

impl View for CommitmentNFTContract {
    type V = NftView;

    closed spec fn view(&self) -> NftView {
        NftView {
            admin: self.admin,
            tokens: self.tokens@,
            holdings: assoc(self.holding_keys(), self.holding_vals()),
            events: self.events@,
        }
    }
}

fn remove_first(tokens: &mut Vec<u32>, token_id: u32)
    ensures
        final(tokens)@ == without_first(old(tokens)@, token_id),
{
    let mut i: usize = 0;
    while i < tokens.len()
        invariant
            i <= tokens.len(),
            *tokens == *old(tokens),
            forall|j: int| 0 <= j < i ==> tokens@[j] != token_id,
        decreases tokens.len() - i,
    {
        if tokens[i] == token_id {
            proof {
                tokens@.index_of_first_ensures(token_id);
                assert(tokens@.contains(token_id));
            }
            tokens.remove(i);
            return ;
        }
        i += 1;
    }
    proof {
        if tokens@.contains(token_id) {
            let j = choose|j: int| 0 <= j < tokens@.len() && tokens@[j] == token_id;
            assert(tokens@[j] != token_id);
        }
    }
}

impl CommitmentNFTContract {
    spec fn holding_keys(&self) -> Seq<Seq<char>> {
        Seq::new(self.holdings@.len(), |i: int| self.holdings@[i].owner@)
    }

    spec fn holding_vals(&self) -> Seq<Holding> {
        Seq::new(
            self.holdings@.len(),
            |i: int| Holding { balance: self.holdings@[i].balance, tokens: self.holdings@[i].tokens@ },
        )
    }

    /// No owner has two holdings, and what the contract holds is well
    /// formed.
    pub closed spec fn wf(&self) -> bool {
        &&& self.holding_keys().no_duplicates()
        &&& self@.wf()
    }

    /// A receipt contract without receipts, not yet initialized.
    pub fn new() -> (contract: Self)
        ensures
            contract.wf(),
            contract@.admin is None,
            contract@.tokens == Seq::<CommitmentNFT>::empty(),
            contract@.holdings == Map::<Seq<char>, Holding>::empty(),
            contract@.events == Seq::<NftEvent>::empty(),
    {
        let contract = CommitmentNFTContract {
            admin: None,
            tokens: Vec::new(),
            holdings: Vec::new(),
            events: Vec::new(),
        };
        assert(contract@.holdings =~= Map::<Seq<char>, Holding>::empty());
        contract
    }

    /// Names the administrator. Refused once done.
    pub fn initialize(&mut self, admin: Address) -> (done: Result<(), ContractError>)
        requires
            old(self).wf(),
        ensures
            final(self).wf(),
            match spec_initialize(old(self)@, admin) {
                Ok(s) => done is Ok && final(self)@ == s,
                Err(e) => done == Err::<(), ContractError>(e) && final(self)@ == old(self)@,
            },
    {
        if self.admin.is_some() {
            return Err(ContractError::AlreadyInitialized);
        }
        self.admin = Some(admin);
        Ok(())
    }

    fn find_holding(&self, owner: &Address) -> (found: Option<usize>)
        ensures
            found matches Some(i) ==> i < self.holdings.len() && self.holding_keys()[i as int] == owner@,
            found is None ==> forall|j: int|
                0 <= j < self.holding_keys().len() ==> self.holding_keys()[j] != owner@,
    {
        let mut i: usize = 0;
        while i < self.holdings.len()
            invariant
                i <= self.holdings.len(),
                forall|j: int| 0 <= j < i ==> self.holding_keys()[j] != owner@,
            decreases self.holdings.len() - i,
        {
            if self.holdings[i].owner == *owner {
                return Some(i);
            }
            i += 1;
        }
        None
    }

    fn position(&self, token_id: u32) -> (index: Option<usize>)
        requires
            self.wf(),
        ensures
            self@.has(token_id) ==> index == Some(token_id as usize),
            !self@.has(token_id) ==> index is None,
    {
        if (token_id as usize) < self.tokens.len() {
            Some(token_id as usize)
        } else {
            None
        }
    }

    fn credit(&mut self, owner: &Address, token_id: u32)
        requires
            old(self).wf(),
            old(self)@.holding(owner@).balance < u32::MAX,
        ensures
            final(self).wf(),
            final(self)@ == (NftView { holdings: old(self)@.credit(owner@, token_id), ..old(self)@ }),
    {
        let ghost keys = self.holding_keys();
        let ghost vals = self.holding_vals();
        match self.find_holding(owner) {
            Some(i) => {
                proof {
                    lemma_assoc_at(keys, vals, i as int);
                }
                self.holdings[i].balance = self.holdings[i].balance + 1;
                self.holdings[i].tokens.push(token_id);
                proof {
                    let updated = Holding { balance: (vals[i as int].balance + 1) as u32, tokens: vals[i as int].tokens.push(token_id) };
                    assert(self.holding_keys() =~= keys);
                    assert(self.holding_vals() =~= vals.update(i as int, updated));
                    lemma_assoc_update(keys, vals, i as int, updated);
                }
            },
            None => {
                proof {
                    lemma_assoc_absent(keys, vals, owner@);
                }
                let mut tokens: Vec<u32> = Vec::new();
                tokens.push(token_id);
                self.holdings.push(HoldingEntry { owner: owner.clone(), balance: 1, tokens });
                proof {
                    let added = Holding { balance: 1, tokens: Seq::<u32>::empty().push(token_id) };
                    assert(self.holding_keys() =~= keys.push(owner@));
                    assert(self.holding_vals() =~= vals.push(added));
                    lemma_assoc_push(keys, vals, owner@, added);
                }
            },
        }
    }

    fn debit(&mut self, owner: &Address, token_id: u32)
        requires
            old(self).wf(),
        ensures
            final(self).wf(),
            final(self)@ == (NftView { holdings: old(self)@.debit(owner@, token_id), ..old(self)@ }),
    {
        let ghost keys = self.holding_keys();
        let ghost vals = self.holding_vals();
        match self.find_holding(owner) {
            Some(i) => {
                proof {
                    lemma_assoc_at(keys, vals, i as int);
                }
                if self.holdings[i].balance > 0 {
                    self.holdings[i].balance = self.holdings[i].balance - 1;
                }
                remove_first(&mut self.holdings[i].tokens, token_id);
                proof {
                    let updated = Holding {
                        balance: if vals[i as int].balance > 0 {
                            (vals[i as int].balance - 1) as u32
                        } else {
                            0
                        },
                        tokens: without_first(vals[i as int].tokens, token_id),
                    };
                    assert(self.holding_keys() =~= keys);
                    assert(self.holding_vals() =~= vals.update(i as int, updated));
                    lemma_assoc_update(keys, vals, i as int, updated);
                }
            },
            None => {
                proof {
                    lemma_assoc_absent(keys, vals, owner@);
                }
                self.holdings.push(HoldingEntry { owner: owner.clone(), balance: 0, tokens: Vec::new() });
                proof {
                    let added = Holding { balance: 0, tokens: Seq::<u32>::empty() };
                    assert(!Seq::<u32>::empty().contains(token_id));
                    assert(self.holding_keys() =~= keys.push(owner@));
                    assert(self.holding_vals() =~= vals.push(added));
                    lemma_assoc_push(keys, vals, owner@, added);
                }
            },
        }
    }

    /// Mints the receipt of a commitment for `owner`. It is active and
    /// expires `duration_days` days after `now`. Answers its token.
    pub fn mint(
        &mut self,
        owner: Address,
        commitment_id: String,
        duration_days: u32,
        max_loss_percent: u32,
        commitment_type: String,
        initial_amount: i128,
        asset_address: Address,
        early_exit_penalty: u32,
        now: u64,
    ) -> (minted: Result<u32, ContractError>)
        requires
            old(self).wf(),
        ensures
            final(self).wf(),
            match spec_mint(
                old(self)@,
                owner,
                commitment_id,
                duration_days,
                max_loss_percent,
                commitment_type,
                initial_amount,
                asset_address,
                early_exit_penalty,
                now,
            ) {
                Ok(s) => minted == Ok::<u32, ContractError>(old(self)@.tokens.len() as u32) && final(self)@ == s,
                Err(e) => minted == Err::<u32, ContractError>(e) && final(self)@ == old(self)@,
            },
    {
        if self.admin.is_none() {
            return Err(ContractError::NotInitialized);
        }
        if self.tokens.len() >= u32::MAX as usize {
            return Err(ContractError::ArithmeticOverflow);
        }
        let token_id: u32 = self.tokens.len() as u32;
        let expires_at = match expiration(now, duration_days) {
            Some(t) => t,
            None => {
                return Err(ContractError::ArithmeticOverflow);
            },
        };
        if self.balance_of(&owner) == u32::MAX {
            return Err(ContractError::ArithmeticOverflow);
        }
        let event = NftEvent::Minted { owner: owner.clone(), token_id };
        self.credit(&owner, token_id);
        self.tokens.push(
            CommitmentNFT {
                owner,
                token_id,
                metadata: CommitmentMetadata {
                    commitment_id,
                    duration_days,
                    max_loss_percent,
                    commitment_type,
                    created_at: now,
                    expires_at,
                    initial_amount,
                    asset_address,
                },
                is_active: true,
                early_exit_penalty,
            },
        );
        self.events.push(event);
        Ok(token_id)
    }

    /// The receipt with the token `token_id`.
    pub fn get_metadata(&self, token_id: u32) -> (found: Result<CommitmentNFT, ContractError>)
        requires
            self.wf(),
        ensures
            self@.has(token_id) ==> found == Ok::<CommitmentNFT, ContractError>(self@.tokens[token_id as int]),
            !self@.has(token_id) ==> found == Err::<CommitmentNFT, ContractError>(ContractError::TokenNotFound),
    {
        match self.position(token_id) {
            Some(i) => Ok(self.tokens[i].clone()),
            None => Err(ContractError::TokenNotFound),
        }
    }

    /// The owner of the receipt `token_id`.
    pub fn owner_of(&self, token_id: u32) -> (owner: Result<Address, ContractError>)
        requires
            self.wf(),
        ensures
            self@.has(token_id) ==> owner == Ok::<Address, ContractError>(self@.tokens[token_id as int].owner),
            !self@.has(token_id) ==> owner == Err::<Address, ContractError>(ContractError::TokenNotFound),
    {
        match self.position(token_id) {
            Some(i) => Ok(self.tokens[i].owner.clone()),
            None => Err(ContractError::TokenNotFound),
        }
    }

    /// Hands the receipt `token_id` from `from` to `to`. Only its owner
    /// can give it away.
    #[verifier::rlimit(50)]
    pub fn transfer(&mut self, from: Address, to: Address, token_id: u32) -> (done: Result<(), ContractError>)
        requires
            old(self).wf(),
        ensures
            final(self).wf(),
            match spec_transfer(old(self)@, from, to, token_id) {
                Ok(s) => done is Ok && final(self)@ == s,
                Err(e) => done == Err::<(), ContractError>(e) && final(self)@ == old(self)@,
            },
    {
        let i = match self.position(token_id) {
            Some(i) => i,
            None => {
                return Err(ContractError::TokenNotFound);
            },
        };
        if self.tokens[i].owner != from {
            return Err(ContractError::NotOwner);
        }
        let to_balance = self.balance_of(&to);
        let unchanged_by_debit = to != from || to_balance == 0;
        if unchanged_by_debit && to_balance == u32::MAX {
            return Err(ContractError::ArithmeticOverflow);
        }
        let ghost before = self.tokens@;
        self.debit(&from, token_id);
        self.credit(&to, token_id);
        self.tokens[i].owner = to.clone();
        self.events.push(NftEvent::Transferred { from, to, token_id });
        proof {
            assert(self.tokens@ =~= before.update(i as int, CommitmentNFT { owner: to, ..before[i as int] }));
        }
        Ok(())
    }

    /// Whether the receipt `token_id` is active.
    pub fn is_active(&self, token_id: u32) -> (active: Result<bool, ContractError>)
        requires
            self.wf(),
        ensures
            self@.has(token_id) ==> active == Ok::<bool, ContractError>(self@.tokens[token_id as int].is_active),
            !self@.has(token_id) ==> active == Err::<bool, ContractError>(ContractError::TokenNotFound),
    {
        match self.position(token_id) {
            Some(i) => Ok(self.tokens[i].is_active),
            None => Err(ContractError::TokenNotFound),
        }
    }

    /// How many receipts were minted.
    pub fn total_supply(&self) -> (supply: u32)
        requires
            self.wf(),
        ensures
            supply == self@.tokens.len(),
    {
        self.tokens.len() as u32
    }

    /// How many receipts `owner` holds.
    pub fn balance_of(&self, owner: &Address) -> (balance: u32)
        requires
            self.wf(),
        ensures
            balance == self@.holding(owner@).balance,
    {
        match self.find_holding(owner) {
            Some(i) => {
                proof {
                    lemma_assoc_at(self.holding_keys(), self.holding_vals(), i as int);
                }
                self.holdings[i].balance
            },
            None => {
                proof {
                    lemma_assoc_absent(self.holding_keys(), self.holding_vals(), owner@);
                }
                0
            },
        }
    }

    /// All receipts, in the order of their tokens.
    pub fn get_all_metadata(&self) -> (all: Vec<CommitmentNFT>)
        ensures
            all@ == self@.tokens,
    {
        let mut all: Vec<CommitmentNFT> = Vec::new();
        let mut i: usize = 0;
        while i < self.tokens.len()
            invariant
                i <= self.tokens.len(),
                all@ == self.tokens@.take(i as int),
            decreases self.tokens.len() - i,
        {
            all.push(self.tokens[i].clone());
            proof {
                assert(self.tokens@.take(i + 1) =~= self.tokens@.take(i as int).push(self.tokens@[i as int]));
            }
            i += 1;
        }
        proof {
            assert(self.tokens@.take(i as int) =~= self.tokens@);
        }
        all
    }

    /// The receipts that `owner` holds, in the order in which it got them.
    pub fn get_nfts_by_owner(&self, owner: &Address) -> (owned: Vec<CommitmentNFT>)
        requires
            self.wf(),
        ensures
            owned@ == receipts_of(self@.tokens, self@.holding(owner@).tokens),
    {
        let mut owned: Vec<CommitmentNFT> = Vec::new();
        let i = match self.find_holding(owner) {
            Some(i) => i,
            None => {
                proof {
                    lemma_assoc_absent(self.holding_keys(), self.holding_vals(), owner@);
                }
                return owned;
            },
        };
        proof {
            lemma_assoc_at(self.holding_keys(), self.holding_vals(), i as int);
        }
        let ids = &self.holdings[i].tokens;
        let mut k: usize = 0;
        while k < ids.len()
            invariant
                k <= ids.len(),
                owned@ == receipts_of(self.tokens@, ids@.take(k as int)),
            decreases ids.len() - k,
        {
            proof {
                assert(ids@.take(k + 1).drop_last() =~= ids@.take(k as int));
            }
            let id = ids[k];
            if (id as usize) < self.tokens.len() {
                owned.push(self.tokens[id as usize].clone());
            }
            k += 1;
        }
        proof {
            assert(ids@.take(k as int) =~= ids@);
        }
        owned
    }

    /// Marks the receipt `token_id` as settled: it is no longer active.
    /// Refused before the receipt has expired and once it is settled.
    pub fn settle(&mut self, token_id: u32, now: u64) -> (done: Result<(), ContractError>)
        requires
            old(self).wf(),
        ensures
            final(self).wf(),
            match spec_settle(old(self)@, token_id, now) {
                Ok(s) => done is Ok && final(self)@ == s,
                Err(e) => done == Err::<(), ContractError>(e) && final(self)@ == old(self)@,
            },
    {
        let i = match self.position(token_id) {
            Some(i) => i,
            None => {
                return Err(ContractError::TokenNotFound);
            },
        };
        if !self.tokens[i].is_active {
            return Err(ContractError::AlreadySettled);
        }
        if now < self.tokens[i].metadata.expires_at {
            return Err(ContractError::NotExpired);
        }
        let ghost before = self.tokens@;
        self.tokens[i].is_active = false;
        self.events.push(NftEvent::Settled { token_id });
        proof {
            assert(self.tokens@ =~= before.update(i as int, CommitmentNFT { is_active: false, ..before[i as int] }));
        }
        Ok(())
    }

    /// Whether the receipt `token_id` has expired at `now`.
    pub fn is_expired(&self, token_id: u32, now: u64) -> (expired: Result<bool, ContractError>)
        requires
            self.wf(),
        ensures
            self@.has(token_id) ==> expired == Ok::<bool, ContractError>(
                now >= self@.tokens[token_id as int].metadata.expires_at,
            ),
            !self@.has(token_id) ==> expired == Err::<bool, ContractError>(ContractError::TokenNotFound),
    {
        match self.position(token_id) {
            Some(i) => Ok(now >= self.tokens[i].metadata.expires_at),
            None => Err(ContractError::TokenNotFound),
        }
    }

    /// Whether `token_id` names a receipt.
    pub fn token_exists(&self, token_id: u32) -> (exists: bool)
        requires
            self.wf(),
        ensures
            exists == self@.has(token_id),
    {
        self.position(token_id).is_some()
    }

    /// The administrator.
    pub fn get_admin(&self) -> (admin: Result<Address, ContractError>)
        ensures
            match self@.admin {
                Some(a) => admin == Ok::<Address, ContractError>(a),
                None => admin == Err::<Address, ContractError>(ContractError::NotInitialized),
            },
    {
        match &self.admin {
            Some(a) => Ok(a.clone()),
            None => Err(ContractError::NotInitialized),
        }
    }

    /// The notifications queued so far, oldest first.
    pub fn events(&self) -> (events: &Vec<NftEvent>)
        ensures
            events@ == self@.events,
    {
        &self.events
    }

    /// Takes the contract apart into the lists that it holds.
    pub fn into_parts(self) -> (parts: NftParts)
        requires
            self.wf(),
        ensures
            parts.wf(),
            parts.view() == self@,
    {
        proof {
            assert(keys_of(self.holdings@) =~= self.holding_keys());
            assert(Seq::new(
                self.holdings@.len(),
                |i: int| Holding { balance: self.holdings@[i].balance, tokens: self.holdings@[i].tokens@ },
            ) =~= self.holding_vals());
        }
        NftParts { admin: self.admin, tokens: self.tokens, holdings: self.holdings, events: self.events }
    }

    /// The contract that `parts` describe, if they are well formed.
    pub fn from_parts(parts: NftParts) -> (contract: Option<Self>)
        ensures
            parts.wf() <==> contract is Some,
            contract matches Some(c) ==> c.wf() && c@ == parts.view(),
    {
        if !keys_distinct(&parts.holdings) || !tokens_well_formed(&parts.tokens) {
            return None;
        }
        let contract = CommitmentNFTContract {
            admin: parts.admin,
            tokens: parts.tokens,
            holdings: parts.holdings,
            events: parts.events,
        };
        proof {
            assert(keys_of(contract.holdings@) =~= contract.holding_keys());
            assert(Seq::new(
                contract.holdings@.len(),
                |i: int|
                    Holding { balance: contract.holdings@[i].balance, tokens: contract.holdings@[i].tokens@ },
            ) =~= contract.holding_vals());
        }
        Some(contract)
    }
}

fn tokens_well_formed(tokens: &Vec<CommitmentNFT>) -> (ok: bool)
    ensures
        ok == (tokens@.len() <= u32::MAX && forall|i: int|
            0 <= i < tokens@.len() ==> (#[trigger] tokens@[i]).token_id == i),
{
    if tokens.len() > u32::MAX as usize {
        return false;
    }
    let mut i: usize = 0;
    while i < tokens.len()
        invariant
            i <= tokens.len() <= u32::MAX,
            forall|j: int| 0 <= j < i ==> (#[trigger] tokens@[j]).token_id == j,
        decreases tokens.len() - i,
    {
        if tokens[i].token_id != i as u32 {
            return false;
        }
        i += 1;
    }
    true
}

} // verus!
