//! A price feed: whitelisted oracles push prices, and readers get a price
//! only while it is fresh.

use crate::address::Address;
use crate::assoc::{assoc, keys_distinct, keys_of, Keyed, lemma_assoc_absent, lemma_assoc_at, lemma_assoc_push, lemma_assoc_remove, lemma_assoc_update};
use crate::validation::is_non_negative;
use vstd::prelude::*;

verus! {

/// The version of the stored layout that this code writes.
pub const CURRENT_VERSION: u32 = 1;

/// The staleness limit of a feed for which none was ever set: one hour.
pub const DEFAULT_MAX_STALENESS: u64 = 3600;

/// Why the feed refuses a call. A refused call changes nothing.
#[derive(Clone, Copy, Debug, PartialEq, Eq, Structural)]
pub enum OracleError {
    NotInitialized,
    AlreadyInitialized,
    Unauthorized,
    OracleNotWhitelisted,
    PriceNotFound,
    StalePrice,
    InvalidPrice,
    InvalidWasmHash,
    InvalidVersion,
    AlreadyMigrated,
}

/// A price with the time of its last update and its number of decimals.
#[derive(Clone, Copy, Debug, PartialEq, Eq, Structural)]
pub struct PriceData {
    pub price: i128,
    pub updated_at: u64,
    pub decimals: u32,
}

/// The settings of the feed.
#[derive(Clone, Copy, Debug, PartialEq, Eq, Structural)]
pub struct OracleConfig {
    pub max_staleness_seconds: u64,
}

/// A notification that the feed has queued for publication.
#[derive(Debug, PartialEq, Eq)]
pub enum OracleEvent {
    PriceSet { asset: Address, price: i128, updated_at: u64, decimals: u32 },
}

/// The price of one asset, as it is stored.
#[derive(Debug, PartialEq, Eq)]
pub struct PriceEntry {
    pub asset: Address,
    pub data: PriceData,
}

impl Keyed for PriceEntry {
    type Key = Seq<char>;

    open spec fn key(&self) -> Seq<char> {
        self.asset@
    }

    fn same_key(&self, other: &Self) -> (same: bool) {
        self.asset == other.asset
    }
}

/// What a feed holds, as plain lists: the form in which it is stored and
/// restored.
#[derive(Debug, PartialEq, Eq)]
pub struct OracleParts {
    pub admin: Option<Address>,
    pub whitelist: Vec<Address>,
    pub prices: Vec<PriceEntry>,
    pub config: Option<OracleConfig>,
    pub legacy_max_staleness: Option<u64>,
    pub version: u32,
    pub events: Vec<OracleEvent>,
}

impl OracleParts {
    /// No oracle is listed twice and no asset has two prices.
    pub open spec fn wf(&self) -> bool {
        &&& keys_of(self.whitelist@).no_duplicates()
        &&& keys_of(self.prices@).no_duplicates()
    }

    /// The feed that these lists describe.
    pub open spec fn view(&self) -> OracleView {
        OracleView {
            admin: self.admin,
            whitelist: assoc(keys_of(self.whitelist@), keys_of(self.whitelist@)).dom(),
            prices: assoc(keys_of(self.prices@), Seq::new(self.prices@.len(), |i: int| self.prices@[i].data)),
            config: self.config,
            legacy_max_staleness: self.legacy_max_staleness,
            version: self.version,
            events: self.events@,
        }
    }
}

/// The feed of one contract instance.
pub struct PriceOracleContract {
    admin: Option<Address>,
    whitelist: Vec<Address>,
    prices: Vec<PriceEntry>,
    config: Option<OracleConfig>,
    legacy_max_staleness: Option<u64>,
    version: u32,
    events: Vec<OracleEvent>,
}

/// What the feed holds. A feed written by the layout before version 1 has
/// no `config` and may have a `legacy_max_staleness`.
pub struct OracleView {
    pub admin: Option<Address>,
    pub whitelist: Set<Seq<char>>,
    pub prices: Map<Seq<char>, PriceData>,
    pub config: Option<OracleConfig>,
    pub legacy_max_staleness: Option<u64>,
    pub version: u32,
    pub events: Seq<OracleEvent>,
}

impl OracleView {
    /// The staleness limit in force: the configured one, else the one of
    /// the earlier layout, else one hour.
    pub open spec fn max_staleness(&self) -> u64 {
        match self.config {
            Some(config) => config.max_staleness_seconds,
            None => match self.legacy_max_staleness {
                Some(seconds) => seconds,
                None => DEFAULT_MAX_STALENESS,
            },
        }
    }

    /// The price data of `asset`, all zero where none was ever set.
    pub open spec fn price(&self, asset: Seq<char>) -> PriceData {
        if self.prices.contains_key(asset) {
            self.prices[asset]
        } else {
            PriceData { price: 0, updated_at: 0, decimals: 0 }
        }
    }
}

/// Whether `caller` is the administrator, and if not, why.
pub open spec fn spec_require_admin(s: OracleView, caller: Address) -> Option<OracleError> {
    match s.admin {
        None => Some(OracleError::NotInitialized),
        Some(admin) => if admin@ == caller@ {
            None
        } else {
            Some(OracleError::Unauthorized)
        },
    }
}

/// The feed after `initialize`.
pub open spec fn spec_initialize(s: OracleView, admin: Address) -> Result<OracleView, OracleError> {
    if s.admin is Some {
        Err(OracleError::AlreadyInitialized)
    } else {
        Ok(
            OracleView {
                admin: Some(admin),
                config: Some(OracleConfig { max_staleness_seconds: DEFAULT_MAX_STALENESS }),
                version: CURRENT_VERSION,
                ..s
            },
        )
    }
}

/// The feed after `add_oracle` (`listed`) or `remove_oracle` (not
/// `listed`).
pub open spec fn spec_set_oracle(s: OracleView, caller: Address, oracle: Address, listed: bool) -> Result<
    OracleView,
    OracleError,
> {
    match spec_require_admin(s, caller) {
        Some(e) => Err(e),
        None => Ok(
            OracleView {
                whitelist: if listed {
                    s.whitelist.insert(oracle@)
                } else {
                    s.whitelist.remove(oracle@)
                },
                ..s
            },
        ),
    }
}

/// The feed after `set_price`.
pub open spec fn spec_set_price(
    s: OracleView,
    caller: Address,
    asset: Address,
    price: i128,
    decimals: u32,
    now: u64,
) -> Result<OracleView, OracleError> {
    if !s.whitelist.contains(caller@) {
        Err(OracleError::OracleNotWhitelisted)
    } else if price < 0 {
        Err(OracleError::InvalidPrice)
    } else {
        Ok(
            OracleView {
                prices: s.prices.insert(asset@, PriceData { price, updated_at: now, decimals }),
                events: s.events.push(OracleEvent::PriceSet { asset, price, updated_at: now, decimals }),
                ..s
            },
        )
    }
}

/// What `get_price_valid` answers: the price of `asset` where one is set,
/// is not negative, and is no older at `now` than the limit, which is the
/// override where one is given and else the limit in force.
pub open spec fn spec_get_price_valid(
    s: OracleView,
    asset: Seq<char>,
    max_staleness_override: Option<u64>,
    now: u64,
) -> Result<PriceData, OracleError> {
    if !s.prices.contains_key(asset) {
        Err(OracleError::PriceNotFound)
    } else {
        let data = s.prices[asset];
        let limit = match max_staleness_override {
            Some(seconds) => seconds,
            None => s.max_staleness(),
        };
        if data.price < 0 {
            Err(OracleError::InvalidPrice)
        } else if now < data.updated_at || now - data.updated_at > limit {
            Err(OracleError::StalePrice)
        } else {
            Ok(data)
        }
    }
}

/// The feed after `set_max_staleness`. The limit of the earlier layout is
/// kept in step where it is still there.
pub open spec fn spec_set_max_staleness(s: OracleView, caller: Address, seconds: u64) -> Result<
    OracleView,
    OracleError,
> {
    match spec_require_admin(s, caller) {
        Some(e) => Err(e),
        None => Ok(
            OracleView {
                config: Some(OracleConfig { max_staleness_seconds: seconds }),
                legacy_max_staleness: if s.legacy_max_staleness is Some {
                    Some(seconds)
                } else {
                    None
                },
                ..s
            },
        ),
    }
}

/// The feed after `set_admin`.
pub open spec fn spec_set_admin(s: OracleView, caller: Address, new_admin: Address) -> Result<
    OracleView,
    OracleError,
> {
    match spec_require_admin(s, caller) {
        Some(e) => Err(e),
        None => Ok(OracleView { admin: Some(new_admin), ..s }),
    }
}

/// Every byte is zero.
pub open spec fn all_zero(bytes: Seq<u8>) -> bool {
    forall|i: int| 0 <= i < bytes.len() ==> #[trigger] bytes[i] == 0
}

/// Whether `upgrade` is allowed: the caller is the administrator and the
/// hash of the new code is not all zero.
pub open spec fn spec_upgrade(s: OracleView, caller: Address, new_wasm_hash: Seq<u8>) -> Result<
    (),
    OracleError,
> {
    match spec_require_admin(s, caller) {
        Some(e) => Err(e),
        None => if all_zero(new_wasm_hash) {
            Err(OracleError::InvalidWasmHash)
        } else {
            Ok(())
        },
    }
}

/// The feed after `migrate`: a feed of the earlier layout gets the limit in
/// force as its configuration and loses the earlier limit; every migrated
/// feed gets the current version.
pub open spec fn spec_migrate(s: OracleView, caller: Address, from_version: u32) -> Result<
    OracleView,
    OracleError,
> {
    if spec_require_admin(s, caller) is Some {
        Err(spec_require_admin(s, caller).unwrap())
    } else if s.version == CURRENT_VERSION {
        Err(OracleError::AlreadyMigrated)
    } else if from_version != s.version || from_version > CURRENT_VERSION {
        Err(OracleError::InvalidVersion)
    } else if from_version == 0 {
        Ok(
            OracleView {
                config: Some(OracleConfig { max_staleness_seconds: s.max_staleness() }),
                legacy_max_staleness: None,
                version: CURRENT_VERSION,
                ..s
            },
        )
    } else {
        Ok(OracleView { version: CURRENT_VERSION, ..s })
    }
}

impl View for PriceOracleContract {
    type V = OracleView;

    closed spec fn view(&self) -> OracleView {
        OracleView {
            admin: self.admin,
            whitelist: assoc(self.oracle_keys(), self.oracle_keys()).dom(),
            prices: assoc(self.price_keys(), self.price_vals()),
            config: self.config,
            legacy_max_staleness: self.legacy_max_staleness,
            version: self.version,
            events: self.events@,
        }
    }
}

impl PriceOracleContract {
    spec fn oracle_keys(&self) -> Seq<Seq<char>> {
        Seq::new(self.whitelist@.len(), |i: int| self.whitelist@[i]@)
    }

    spec fn price_keys(&self) -> Seq<Seq<char>> {
        Seq::new(self.prices@.len(), |i: int| self.prices@[i].asset@)
    }

    spec fn price_vals(&self) -> Seq<PriceData> {
        Seq::new(self.prices@.len(), |i: int| self.prices@[i].data)
    }

    /// No oracle is listed twice and no asset has two prices.
    pub closed spec fn wf(&self) -> bool {
        &&& self.oracle_keys().no_duplicates()
        &&& self.price_keys().no_duplicates()
    }

    /// A feed that holds nothing and is not yet initialized: no
    /// configuration, and version 0.
    pub fn new() -> (feed: Self)
        ensures
            feed.wf(),
            feed@.admin is None,
            feed@.whitelist == Set::<Seq<char>>::empty(),
            feed@.prices == Map::<Seq<char>, PriceData>::empty(),
            feed@.config is None,
            feed@.legacy_max_staleness is None,
            feed@.version == 0,
            feed@.events == Seq::<OracleEvent>::empty(),
    {
        let feed = PriceOracleContract {
            admin: None,
            whitelist: Vec::new(),
            prices: Vec::new(),
            config: None,
            legacy_max_staleness: None,
            version: 0,
            events: Vec::new(),
        };
        assert(feed@.whitelist =~= Set::<Seq<char>>::empty());
        assert(feed@.prices =~= Map::<Seq<char>, PriceData>::empty());
        feed
    }

    /// Names the administrator, sets the staleness limit to one hour and
    /// the version to the current one. Refused once done.
    pub fn initialize(&mut self, admin: Address) -> (done: Result<(), OracleError>)
        requires
            old(self).wf(),
        ensures
            final(self).wf(),
            match spec_initialize(old(self)@, admin) {
                Ok(s) => done is Ok && final(self)@ == s,
                Err(e) => done == Err::<(), OracleError>(e) && final(self)@ == old(self)@,
            },
    {
        if self.admin.is_some() {
            return Err(OracleError::AlreadyInitialized);
        }
        self.admin = Some(admin);
        self.config = Some(OracleConfig { max_staleness_seconds: DEFAULT_MAX_STALENESS });
        self.version = CURRENT_VERSION;
        Ok(())
    }

    fn require_admin(&self, caller: &Address) -> (outcome: Result<(), OracleError>)
        ensures
            match spec_require_admin(self@, *caller) {
                Some(e) => outcome == Err::<(), OracleError>(e),
                None => outcome is Ok,
            },
    {
        match &self.admin {
            None => Err(OracleError::NotInitialized),
            Some(admin) => if *admin == *caller {
                Ok(())
            } else {
                Err(OracleError::Unauthorized)
            },
        }
    }

    fn find_oracle(&self, who: &Address) -> (found: Option<usize>)
        ensures
            found matches Some(i) ==> i < self.whitelist.len() && self.oracle_keys()[i as int] == who@,
            found is None ==> forall|j: int| 0 <= j < self.oracle_keys().len() ==> self.oracle_keys()[j] != who@,
    {
        let mut i: usize = 0;
        while i < self.whitelist.len()
            invariant
                i <= self.whitelist.len(),
                forall|j: int| 0 <= j < i ==> self.oracle_keys()[j] != who@,
            decreases self.whitelist.len() - i,
        {
            if self.whitelist[i] == *who {
                return Some(i);
            }
            i += 1;
        }
        None
    }

    fn find_price(&self, asset: &Address) -> (found: Option<usize>)
        ensures
            found matches Some(i) ==> i < self.prices.len() && self.price_keys()[i as int] == asset@,
            found is None ==> forall|j: int| 0 <= j < self.price_keys().len() ==> self.price_keys()[j] != asset@,
    {
        let mut i: usize = 0;
        while i < self.prices.len()
            invariant
                i <= self.prices.len(),
                forall|j: int| 0 <= j < i ==> self.price_keys()[j] != asset@,
            decreases self.prices.len() - i,
        {
            if self.prices[i].asset == *asset {
                return Some(i);
            }
            i += 1;
        }
        None
    }

    /// Lets `oracle_address` push prices. Only the administrator may.
    pub fn add_oracle(&mut self, caller: &Address, oracle_address: &Address) -> (done: Result<(), OracleError>)
        requires
            old(self).wf(),
        ensures
            final(self).wf(),
            match spec_set_oracle(old(self)@, *caller, *oracle_address, true) {
                Ok(s) => done is Ok && final(self)@ == s,
                Err(e) => done == Err::<(), OracleError>(e) && final(self)@ == old(self)@,
            },
    {
        match self.require_admin(caller) {
            Err(e) => {
                return Err(e);
            },
            Ok(()) => {},
        }
        let ghost keys = self.oracle_keys();
        let ghost price_keys = self.price_keys();
        let ghost price_vals = self.price_vals();
        match self.find_oracle(oracle_address) {
            Some(i) => {
                assert(self@.whitelist =~= self@.whitelist.insert(oracle_address@));
            },
            None => {
                self.whitelist.push(oracle_address.clone());
                proof {
                    assert(self.oracle_keys() =~= keys.push(oracle_address@));
                    lemma_assoc_push(keys, keys, oracle_address@, oracle_address@);
                    assert(assoc(keys.push(oracle_address@), keys.push(oracle_address@)).dom() =~= assoc(
                        keys,
                        keys,
                    ).dom().insert(oracle_address@));
                    assert(self.price_keys() =~= price_keys);
                    assert(self.price_vals() =~= price_vals);
                }
            },
        }
        Ok(())
    }

    /// Ends the right of `oracle_address` to push prices. Only the
    /// administrator may.
    pub fn remove_oracle(&mut self, caller: &Address, oracle_address: &Address) -> (done: Result<
        (),
        OracleError,
    >)
        requires
            old(self).wf(),
        ensures
            final(self).wf(),
            match spec_set_oracle(old(self)@, *caller, *oracle_address, false) {
                Ok(s) => done is Ok && final(self)@ == s,
                Err(e) => done == Err::<(), OracleError>(e) && final(self)@ == old(self)@,
            },
    {
        match self.require_admin(caller) {
            Err(e) => {
                return Err(e);
            },
            Ok(()) => {},
        }
        let ghost keys = self.oracle_keys();
        let ghost price_keys = self.price_keys();
        let ghost price_vals = self.price_vals();
        match self.find_oracle(oracle_address) {
            Some(i) => {
                self.whitelist.remove(i);
                proof {
                    assert(self.oracle_keys() =~= keys.remove(i as int));
                    lemma_assoc_remove(keys, keys, i as int);
                    assert(assoc(keys.remove(i as int), keys.remove(i as int)).dom() =~= assoc(
                        keys,
                        keys,
                    ).dom().remove(oracle_address@));
                    assert(self.price_keys() =~= price_keys);
                    assert(self.price_vals() =~= price_vals);
                }
            },
            None => {
                assert(self@.whitelist =~= self@.whitelist.remove(oracle_address@));
            },
        }
        Ok(())
    }

    /// Whether `address` may push prices.
    pub fn is_oracle_whitelisted(&self, address: &Address) -> (listed: bool)
        requires
            self.wf(),
        ensures
            listed == self@.whitelist.contains(address@),
    {
        match self.find_oracle(address) {
            Some(i) => {
                assert(self.oracle_keys()[i as int] == address@);
                true
            },
            None => false,
        }
    }

    /// Sets the price of `asset` as of `now`. Only a whitelisted oracle
    /// may, and only a price that is not negative.
    pub fn set_price(&mut self, caller: &Address, asset: Address, price: i128, decimals: u32, now: u64) -> (done:
        Result<(), OracleError>)
        requires
            old(self).wf(),
        ensures
            final(self).wf(),
            match spec_set_price(old(self)@, *caller, asset, price, decimals, now) {
                Ok(s) => done is Ok && final(self)@ == s,
                Err(e) => done == Err::<(), OracleError>(e) && final(self)@ == old(self)@,
            },
    {
        if !self.is_oracle_whitelisted(caller) {
            return Err(OracleError::OracleNotWhitelisted);
        }
        if !is_non_negative(price) {
            return Err(OracleError::InvalidPrice);
        }
        let data = PriceData { price, updated_at: now, decimals };
        let ghost keys = self.price_keys();
        let ghost vals = self.price_vals();
        let ghost oracle_keys = self.oracle_keys();
        match self.find_price(&asset) {
            Some(i) => {
                self.prices[i].data = data;
                proof {
                    assert(self.price_keys() =~= keys);
                    assert(self.price_vals() =~= vals.update(i as int, data));
                    lemma_assoc_update(keys, vals, i as int, data);
                }
            },
            None => {
                self.prices.push(PriceEntry { asset: asset.clone(), data });
                proof {
                    assert(self.price_keys() =~= keys.push(asset@));
                    assert(self.price_vals() =~= vals.push(data));
                    lemma_assoc_push(keys, vals, asset@, data);
                }
            },
        }
        proof {
            assert(self.oracle_keys() =~= oracle_keys);
        }
        self.events.push(OracleEvent::PriceSet { asset, price, updated_at: now, decimals });
        Ok(())
    }

    /// The last price of `asset` with its time and decimals; all zero
    /// where none was ever set.
    pub fn get_price(&self, asset: &Address) -> (data: PriceData)
        requires
            self.wf(),
        ensures
            data == self@.price(asset@),
    {
        match self.find_price(asset) {
            Some(i) => {
                proof {
                    lemma_assoc_at(self.price_keys(), self.price_vals(), i as int);
                }
                self.prices[i].data
            },
            None => {
                proof {
                    lemma_assoc_absent(self.price_keys(), self.price_vals(), asset@);
                }
                PriceData { price: 0, updated_at: 0, decimals: 0 }
            },
        }
    }

    /// The price of `asset`, if one is set and is fresh at `now`.
    pub fn get_price_valid(&self, asset: &Address, max_staleness_override: Option<u64>, now: u64) -> (data:
        Result<PriceData, OracleError>)
        requires
            self.wf(),
        ensures
            data == spec_get_price_valid(self@, asset@, max_staleness_override, now),
    {
        let data = match self.find_price(asset) {
            Some(i) => {
                proof {
                    lemma_assoc_at(self.price_keys(), self.price_vals(), i as int);
                }
                self.prices[i].data
            },
            None => {
                proof {
                    lemma_assoc_absent(self.price_keys(), self.price_vals(), asset@);
                }
                return Err(OracleError::PriceNotFound);
            },
        };
        if data.price < 0 {
            return Err(OracleError::InvalidPrice);
        }
        let limit = match max_staleness_override {
            Some(seconds) => seconds,
            None => self.get_max_staleness(),
        };
        if now < data.updated_at || now - data.updated_at > limit {
            return Err(OracleError::StalePrice);
        }
        Ok(data)
    }

    /// Sets the staleness limit, in seconds. Only the administrator may.
    pub fn set_max_staleness(&mut self, caller: &Address, seconds: u64) -> (done: Result<(), OracleError>)
        requires
            old(self).wf(),
        ensures
            final(self).wf(),
            match spec_set_max_staleness(old(self)@, *caller, seconds) {
                Ok(s) => done is Ok && final(self)@ == s,
                Err(e) => done == Err::<(), OracleError>(e) && final(self)@ == old(self)@,
            },
    {
        match self.require_admin(caller) {
            Err(e) => {
                return Err(e);
            },
            Ok(()) => {},
        }
        self.config = Some(OracleConfig { max_staleness_seconds: seconds });
        if self.legacy_max_staleness.is_some() {
            self.legacy_max_staleness = Some(seconds);
        }
        Ok(())
    }

    /// The staleness limit in force, in seconds.
    pub fn get_max_staleness(&self) -> (seconds: u64)
        ensures
            seconds == self@.max_staleness(),
    {
        match self.config {
            Some(config) => config.max_staleness_seconds,
            None => match self.legacy_max_staleness {
                Some(seconds) => seconds,
                None => DEFAULT_MAX_STALENESS,
            },
        }
    }

    /// The administrator.
    pub fn get_admin(&self) -> (admin: Result<Address, OracleError>)
        ensures
            match self@.admin {
                Some(a) => admin == Ok::<Address, OracleError>(a),
                None => admin == Err::<Address, OracleError>(OracleError::NotInitialized),
            },
    {
        match &self.admin {
            Some(a) => Ok(a.clone()),
            None => Err(OracleError::NotInitialized),
        }
    }

    /// The version of the stored layout; 0 for the earliest.
    pub fn get_version(&self) -> (version: u32)
        ensures
            version == self@.version,
    {
        self.version
    }

    /// Hands the administration to `new_admin`. Only the administrator
    /// may.
    pub fn set_admin(&mut self, caller: &Address, new_admin: Address) -> (done: Result<(), OracleError>)
        requires
            old(self).wf(),
        ensures
            final(self).wf(),
            match spec_set_admin(old(self)@, *caller, new_admin) {
                Ok(s) => done is Ok && final(self)@ == s,
                Err(e) => done == Err::<(), OracleError>(e) && final(self)@ == old(self)@,
            },
    {
        match self.require_admin(caller) {
            Err(e) => {
                return Err(e);
            },
            Ok(()) => {},
        }
        self.admin = Some(new_admin);
        Ok(())
    }

    /// Decides whether the code of the contract may be replaced by the
    /// code with the hash `new_wasm_hash`: only by the administrator, and
    /// not by code whose hash is all zero.
    pub fn upgrade(&self, caller: &Address, new_wasm_hash: &[u8; 32]) -> (allowed: Result<(), OracleError>)
        ensures
            allowed == spec_upgrade(self@, *caller, new_wasm_hash@),
    {
        match self.require_admin(caller) {
            Err(e) => {
                return Err(e);
            },
            Ok(()) => {},
        }
        let mut i: usize = 0;
        while i < 32
            invariant
                i <= 32,
                new_wasm_hash@.len() == 32,
                spec_require_admin(self@, *caller) is None,
                forall|j: int| 0 <= j < i ==> new_wasm_hash@[j] == 0,
            decreases 32 - i,
        {
            if new_wasm_hash[i] != 0 {
                assert(new_wasm_hash@[i as int] != 0);
                return Ok(());
            }
            i += 1;
        }
        Err(OracleError::InvalidWasmHash)
    }

    /// Brings a feed of an earlier layout to the current one. Only the
    /// administrator may, only from the version that the feed has, and only
    /// once.
    pub fn migrate(&mut self, caller: &Address, from_version: u32) -> (done: Result<(), OracleError>)
        requires
            old(self).wf(),
        ensures
            final(self).wf(),
            match spec_migrate(old(self)@, *caller, from_version) {
                Ok(s) => done is Ok && final(self)@ == s,
                Err(e) => done == Err::<(), OracleError>(e) && final(self)@ == old(self)@,
            },
    {
        match self.require_admin(caller) {
            Err(e) => {
                return Err(e);
            },
            Ok(()) => {},
        }
        if self.version == CURRENT_VERSION {
            return Err(OracleError::AlreadyMigrated);
        }
        if from_version != self.version || from_version > CURRENT_VERSION {
            return Err(OracleError::InvalidVersion);
        }
        if from_version == 0 {
            let seconds = self.get_max_staleness();
            self.config = Some(OracleConfig { max_staleness_seconds: seconds });
            self.legacy_max_staleness = None;
        }
        self.version = CURRENT_VERSION;
        Ok(())
    }

    /// The notifications queued so far, oldest first.
    pub fn events(&self) -> (events: &Vec<OracleEvent>)
        ensures
            events@ == self@.events,
    {
        &self.events
    }

    /// Takes the feed apart into the lists that it holds.
    pub fn into_parts(self) -> (parts: OracleParts)
        requires
            self.wf(),
        ensures
            parts.wf(),
            parts.view() == self@,
    {
        proof {
            assert(keys_of(self.whitelist@) =~= self.oracle_keys());
            assert(keys_of(self.prices@) =~= self.price_keys());
            assert(Seq::new(self.prices@.len(), |i: int| self.prices@[i].data) =~= self.price_vals());
        }
        OracleParts {
            admin: self.admin,
            whitelist: self.whitelist,
            prices: self.prices,
            config: self.config,
            legacy_max_staleness: self.legacy_max_staleness,
            version: self.version,
            events: self.events,
        }
    }

    /// The feed that `parts` describe, if they are well formed.
    pub fn from_parts(parts: OracleParts) -> (feed: Option<Self>)
        ensures
            parts.wf() <==> feed is Some,
            feed matches Some(f) ==> f.wf() && f@ == parts.view(),
    {
        if !keys_distinct(&parts.whitelist) || !keys_distinct(&parts.prices) {
            return None;
        }
        let feed = PriceOracleContract {
            admin: parts.admin,
            whitelist: parts.whitelist,
            prices: parts.prices,
            config: parts.config,
            legacy_max_staleness: parts.legacy_max_staleness,
            version: parts.version,
            events: parts.events,
        };
        proof {
            assert(keys_of(feed.whitelist@) =~= feed.oracle_keys());
            assert(keys_of(feed.prices@) =~= feed.price_keys());
            assert(Seq::new(feed.prices@.len(), |i: int| feed.prices@[i].data) =~= feed.price_vals());
        }
        Some(feed)
    }
}

/// A price that was just set is valid at the time of its setting and for
/// as long as the limit allows: at the last second of the limit it is still
/// handed out, one second later it is stale.
pub proof fn law_price_is_fresh_within_limit(
    s: OracleView,
    caller: Address,
    asset: Address,
    price: i128,
    decimals: u32,
    now: u64,
    later: u64,
)
    requires
        spec_set_price(s, caller, asset, price, decimals, now) is Ok,
        later >= now,
    ensures
        ({
            let t = spec_set_price(s, caller, asset, price, decimals, now).unwrap();
            &&& later - now <= t.max_staleness() ==> spec_get_price_valid(t, asset@, None, later) == Ok::<
                PriceData,
                OracleError,
            >(PriceData { price, updated_at: now, decimals })
            &&& later - now > t.max_staleness() ==> spec_get_price_valid(t, asset@, None, later) == Err::<
                PriceData,
                OracleError,
            >(OracleError::StalePrice)
        }),
{
}

/// Migration keeps the staleness limit in force, the whitelist and every
/// price.
pub proof fn law_migration_preserves_state(s: OracleView, caller: Address, from_version: u32)
    requires
        spec_migrate(s, caller, from_version) is Ok,
    ensures
        ({
            let t = spec_migrate(s, caller, from_version).unwrap();
            &&& t.max_staleness() == s.max_staleness()
            &&& t.whitelist == s.whitelist
            &&& t.prices == s.prices
            &&& t.admin == s.admin
            &&& t.version == CURRENT_VERSION
            &&& spec_migrate(t, caller, from_version) == Err::<OracleView, OracleError>(
                OracleError::AlreadyMigrated,
            )
        }),
{
}

} // verus!
