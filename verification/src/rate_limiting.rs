//! Call quotas: how often one caller may invoke one function within a
//! sliding window of time.
//!
//! The limiter remembers, for every caller and function that it counts, the
//! times of the calls that it admitted. A call is admitted while fewer than
//! the quota of those lie within the window that ends at the call.

use crate::address::Address;
use crate::assoc::{
    assoc, keys_distinct, keys_of, lemma_assoc_absent, lemma_assoc_at, lemma_assoc_push, lemma_assoc_remove,
    lemma_assoc_update, Keyed,
};
use vstd::prelude::*;

verus! {

/// The quota of one function: at most `max_calls` calls by one caller
/// within any `window_seconds`. A quota with a zero in either field limits
/// nothing.
#[derive(Clone, Copy, Debug, PartialEq, Eq, Structural)]
pub struct RateLimit {
    pub window_seconds: u64,
    pub max_calls: u32,
}

/// The quota of one function, as it is stored.
#[derive(Debug, PartialEq, Eq)]
pub struct LimitEntry {
    pub function: String,
    pub limit: RateLimit,
}

/// The times of the admitted calls of one caller to one function that
/// were still within the window at the last of them, oldest first, as they
/// are stored.
#[derive(Debug, PartialEq, Eq)]
pub struct WindowEntry {
    pub caller: Address,
    pub function: String,
    pub calls: Vec<u64>,
}

impl Keyed for LimitEntry {
    type Key = Seq<char>;

    open spec fn key(&self) -> Seq<char> {
        self.function@
    }

    fn same_key(&self, other: &Self) -> (same: bool) {
        self.function == other.function
    }
}

impl Keyed for WindowEntry {
    type Key = (Seq<char>, Seq<char>);

    open spec fn key(&self) -> (Seq<char>, Seq<char>) {
        (self.caller@, self.function@)
    }

    fn same_key(&self, other: &Self) -> (same: bool) {
        self.caller == other.caller && self.function == other.function
    }
}

/// What a limiter holds, as plain lists: the form in which it is stored
/// and restored.
#[derive(Debug, PartialEq, Eq)]
pub struct RateLimiterParts {
    pub limits: Vec<LimitEntry>,
    pub exempt: Vec<Address>,
    pub windows: Vec<WindowEntry>,
}

impl RateLimiterParts {
    /// No function has two quotas, no caller is listed twice as exempt, and
    /// no caller has two windows for one function.
    pub open spec fn wf(&self) -> bool {
        &&& keys_of(self.limits@).no_duplicates()
        &&& keys_of(self.exempt@).no_duplicates()
        &&& keys_of(self.windows@).no_duplicates()
    }

    /// The limiter that these lists describe.
    pub open spec fn view(&self) -> RateLimiterView {
        RateLimiterView {
            limits: assoc(keys_of(self.limits@), Seq::new(self.limits@.len(), |i: int| self.limits@[i].limit)),
            exempt: assoc(keys_of(self.exempt@), keys_of(self.exempt@)).dom(),
            windows: assoc(
                keys_of(self.windows@),
                Seq::new(self.windows@.len(), |i: int| self.windows@[i].calls@),
            ),
        }
    }
}

/// Quotas per function, the callers exempt from them, and the recent calls
/// of every caller that has been counted.
pub struct RateLimiter {
    limits: Vec<LimitEntry>,
    exempt: Vec<Address>,
    windows: Vec<WindowEntry>,
}

/// What a [`RateLimiter`] holds, as maps and a set over the characters of
/// function names and address keys.
pub struct RateLimiterView {
    pub limits: Map<Seq<char>, RateLimit>,
    pub exempt: Set<Seq<char>>,
    pub windows: Map<(Seq<char>, Seq<char>), Seq<u64>>,
}

/// Whether the quota restricts anything.
pub open spec fn limit_is_set(limit: RateLimit) -> bool {
    limit.window_seconds > 0 && limit.max_calls > 0
}

/// Whether a call made at `then` lies within the window that ends at
/// `now`: fewer than `window_seconds` have passed since.
pub open spec fn within_window(then: u64, window_seconds: u64, now: u64) -> bool {
    now - then < window_seconds
}

/// Those of `calls` that lie within the window that ends at `now`, in
/// their order.
pub open spec fn recent_calls(calls: Seq<u64>, window_seconds: u64, now: u64) -> Seq<u64>
    decreases calls.len(),
{
    if calls.len() == 0 {
        Seq::empty()
    } else if within_window(calls.last(), window_seconds, now) {
        recent_calls(calls.drop_last(), window_seconds, now).push(calls.last())
    } else {
        recent_calls(calls.drop_last(), window_seconds, now)
    }
}

/// The state after a call of `function` by `caller` at `now` has been
/// admitted and counted, or `None` where the call exceeds the quota.
///
/// An exempt caller and a function without a quota are admitted and not
/// counted. A counted call is admitted while fewer than `max_calls` of the
/// caller's remembered calls lie within the window that ends at `now`; it is
/// then remembered, and the calls that have left the window are forgotten.
pub open spec fn spec_check(
    limiter: RateLimiterView,
    caller: Seq<char>,
    function: Seq<char>,
    now: u64,
) -> Option<RateLimiterView> {
    if limiter.exempt.contains(caller) {
        Some(limiter)
    } else if !limiter.limits.contains_key(function) || !limit_is_set(limiter.limits[function]) {
        Some(limiter)
    } else {
        let limit = limiter.limits[function];
        let remembered = if limiter.windows.contains_key((caller, function)) {
            limiter.windows[(caller, function)]
        } else {
            Seq::empty()
        };
        let recent = recent_calls(remembered, limit.window_seconds, now);
        if recent.len() >= limit.max_calls {
            None
        } else {
            Some(RateLimiterView { windows: limiter.windows.insert((caller, function), recent.push(now)), ..limiter })
        }
    }
}

fn keep_recent(calls: &Vec<u64>, window_seconds: u64, now: u64) -> (recent: Vec<u64>)
    ensures
        recent@ == recent_calls(calls@, window_seconds, now),
{
    let mut recent: Vec<u64> = Vec::new();
    let mut i: usize = 0;
    while i < calls.len()
        invariant
            i <= calls.len(),
            recent@ == recent_calls(calls@.take(i as int), window_seconds, now),
        decreases calls.len() - i,
    {
        proof {
            assert(calls@.take(i + 1).drop_last() =~= calls@.take(i as int));
        }
        let then = calls[i];
        if now < then || now - then < window_seconds {
            recent.push(then);
        }
        i += 1;
    }
    proof {
        assert(calls@.take(i as int) =~= calls@);
    }
    recent
}

impl RateLimiter {
    spec fn limit_keys(&self) -> Seq<Seq<char>> {
        Seq::new(self.limits@.len(), |i: int| self.limits@[i].function@)
    }

    spec fn limit_vals(&self) -> Seq<RateLimit> {
        Seq::new(self.limits@.len(), |i: int| self.limits@[i].limit)
    }

    spec fn exempt_keys(&self) -> Seq<Seq<char>> {
        Seq::new(self.exempt@.len(), |i: int| self.exempt@[i]@)
    }

    spec fn window_keys(&self) -> Seq<(Seq<char>, Seq<char>)> {
        Seq::new(self.windows@.len(), |i: int| (self.windows@[i].caller@, self.windows@[i].function@))
    }

    spec fn window_vals(&self) -> Seq<Seq<u64>> {
        Seq::new(self.windows@.len(), |i: int| self.windows@[i].calls@)
    }

    /// No function has two quotas, no caller is listed twice as exempt, and
    /// no caller has two windows for one function.
    pub closed spec fn wf(&self) -> bool {
        &&& self.limit_keys().no_duplicates()
        &&& self.exempt_keys().no_duplicates()
        &&& self.window_keys().no_duplicates()
    }

    /// A limiter without quotas, exemptions or counted calls.
    pub fn new() -> (limiter: Self)
        ensures
            limiter.wf(),
            limiter@.limits == Map::<Seq<char>, RateLimit>::empty(),
            limiter@.exempt == Set::<Seq<char>>::empty(),
            limiter@.windows == Map::<(Seq<char>, Seq<char>), Seq<u64>>::empty(),
    {
        let limiter = RateLimiter { limits: Vec::new(), exempt: Vec::new(), windows: Vec::new() };
        assert(limiter@.limits =~= Map::<Seq<char>, RateLimit>::empty());
        assert(limiter@.exempt =~= Set::<Seq<char>>::empty());
        assert(limiter@.windows =~= Map::<(Seq<char>, Seq<char>), Seq<u64>>::empty());
        limiter
    }

    fn find_limit(&self, function: &String) -> (found: Option<usize>)
        ensures
            found matches Some(i) ==> i < self.limits.len() && self.limit_keys()[i as int] == function@,
            found is None ==> forall|j: int| 0 <= j < self.limit_keys().len() ==> self.limit_keys()[j] != function@,
    {
        let mut i: usize = 0;
        while i < self.limits.len()
            invariant
                i <= self.limits.len(),
                forall|j: int| 0 <= j < i ==> self.limit_keys()[j] != function@,
            decreases self.limits.len() - i,
        {
            if self.limits[i].function == *function {
                return Some(i);
            }
            i += 1;
        }
        None
    }

    fn find_exempt(&self, address: &Address) -> (found: Option<usize>)
        ensures
            found matches Some(i) ==> i < self.exempt.len() && self.exempt_keys()[i as int] == address@,
            found is None ==> forall|j: int| 0 <= j < self.exempt_keys().len() ==> self.exempt_keys()[j] != address@,
    {
        let mut i: usize = 0;
        while i < self.exempt.len()
            invariant
                i <= self.exempt.len(),
                forall|j: int| 0 <= j < i ==> self.exempt_keys()[j] != address@,
            decreases self.exempt.len() - i,
        {
            if self.exempt[i] == *address {
                return Some(i);
            }
            i += 1;
        }
        None
    }

    fn find_window(&self, caller: &Address, function: &String) -> (found: Option<usize>)
        ensures
            found matches Some(i) ==> i < self.windows.len() && self.window_keys()[i as int] == (
                caller@,
                function@,
            ),
            found is None ==> forall|j: int|
                0 <= j < self.window_keys().len() ==> self.window_keys()[j] != (caller@, function@),
    {
        let mut i: usize = 0;
        while i < self.windows.len()
            invariant
                i <= self.windows.len(),
                forall|j: int| 0 <= j < i ==> self.window_keys()[j] != (caller@, function@),
            decreases self.windows.len() - i,
        {
            if self.windows[i].caller == *caller && self.windows[i].function == *function {
                return Some(i);
            }
            i += 1;
        }
        None
    }

    /// The quota of `function`, if one has been set.
    pub fn get_limit(&self, function: &str) -> (limit: Option<RateLimit>)
        requires
            self.wf(),
        ensures
            self@.limits.contains_key(function@) ==> limit == Some(self@.limits[function@]),
            !self@.limits.contains_key(function@) ==> limit is None,
    {
        let name = function.to_owned();
        match self.find_limit(&name) {
            Some(i) => {
                proof {
                    lemma_assoc_at(self.limit_keys(), self.limit_vals(), i as int);
                }
                Some(self.limits[i].limit)
            },
            None => {
                proof {
                    lemma_assoc_absent(self.limit_keys(), self.limit_vals(), function@);
                }
                None
            },
        }
    }

    /// Whether `address` is exempt from every quota.
    pub fn is_exempt(&self, address: &Address) -> (exempt: bool)
        requires
            self.wf(),
        ensures
            exempt == self@.exempt.contains(address@),
    {
        match self.find_exempt(address) {
            Some(i) => {
                assert(self.exempt_keys()[i as int] == address@);
                true
            },
            None => false,
        }
    }

    /// Sets the quota of `function`, replacing an earlier one.
    pub fn set_limit(&mut self, function: &str, window_seconds: u64, max_calls: u32)
        requires
            old(self).wf(),
        ensures
            final(self).wf(),
            final(self)@ == (RateLimiterView {
                limits: old(self)@.limits.insert(function@, RateLimit { window_seconds, max_calls }),
                ..old(self)@
            }),
    {
        let name = function.to_owned();
        let limit = RateLimit { window_seconds, max_calls };
        let ghost keys = self.limit_keys();
        let ghost vals = self.limit_vals();
        let ghost exempt_keys = self.exempt_keys();
        let ghost window_keys = self.window_keys();
        let ghost window_vals = self.window_vals();
        match self.find_limit(&name) {
            Some(i) => {
                self.limits[i].limit = limit;
                proof {
                    assert(self.limit_keys() =~= keys);
                    assert(self.limit_vals() =~= vals.update(i as int, limit));
                    lemma_assoc_update(keys, vals, i as int, limit);
                }
            },
            None => {
                self.limits.push(LimitEntry { function: name, limit });
                proof {
                    assert(self.limit_keys() =~= keys.push(function@));
                    assert(self.limit_vals() =~= vals.push(limit));
                    lemma_assoc_push(keys, vals, function@, limit);
                }
            },
        }
        proof {
            assert(self.exempt_keys() =~= exempt_keys);
            assert(self.window_keys() =~= window_keys);
            assert(self.window_vals() =~= window_vals);
        }
    }

    /// Makes `address` exempt from every quota, or ends its exemption.
    pub fn set_exempt(&mut self, address: &Address, exempt: bool)
        requires
            old(self).wf(),
        ensures
            final(self).wf(),
            exempt ==> final(self)@ == (RateLimiterView {
                exempt: old(self)@.exempt.insert(address@),
                ..old(self)@
            }),
            !exempt ==> final(self)@ == (RateLimiterView {
                exempt: old(self)@.exempt.remove(address@),
                ..old(self)@
            }),
    {
        let ghost keys = self.exempt_keys();
        let ghost limit_keys = self.limit_keys();
        let ghost limit_vals = self.limit_vals();
        let ghost window_keys = self.window_keys();
        let ghost window_vals = self.window_vals();
        match self.find_exempt(address) {
            Some(i) => {
                if !exempt {
                    self.exempt.remove(i);
                    proof {
                        assert(self.exempt_keys() =~= keys.remove(i as int));
                        lemma_assoc_remove(keys, keys, i as int);
                        assert(assoc(keys.remove(i as int), keys.remove(i as int)).dom() =~= assoc(
                            keys,
                            keys,
                        ).dom().remove(address@));
                    }
                } else {
                    assert(self@.exempt =~= self@.exempt.insert(address@));
                }
            },
            None => {
                if exempt {
                    self.exempt.push(address.clone());
                    proof {
                        assert(self.exempt_keys() =~= keys.push(address@));
                        lemma_assoc_push(keys, keys, address@, address@);
                        assert(assoc(keys.push(address@), keys.push(address@)).dom() =~= assoc(
                            keys,
                            keys,
                        ).dom().insert(address@));
                    }
                } else {
                    assert(self@.exempt =~= self@.exempt.remove(address@));
                }
            },
        }
        proof {
            assert(self.limit_keys() =~= limit_keys);
            assert(self.limit_vals() =~= limit_vals);
            assert(self.window_keys() =~= window_keys);
            assert(self.window_vals() =~= window_vals);
        }
    }

    /// Whether a call of `function` by `caller` at `now` would be admitted.
    pub fn admits(&self, caller: &Address, function: &str, now: u64) -> (admitted: bool)
        requires
            self.wf(),
        ensures
            admitted == spec_check(self@, caller@, function@, now).is_some(),
    {
        if self.is_exempt(caller) {
            return true;
        }
        let limit = match self.get_limit(function) {
            Some(limit) => limit,
            None => {
                return true;
            },
        };
        if limit.window_seconds == 0 || limit.max_calls == 0 {
            return true;
        }
        let name = function.to_owned();
        match self.find_window(caller, &name) {
            Some(i) => {
                proof {
                    lemma_assoc_at(self.window_keys(), self.window_vals(), i as int);
                }
                let recent = keep_recent(&self.windows[i].calls, limit.window_seconds, now);
                (recent.len() as u64) < limit.max_calls as u64
            },
            None => {
                proof {
                    lemma_assoc_absent(self.window_keys(), self.window_vals(), (caller@, function@));
                }
                true
            },
        }
    }

    /// Admits and counts a call of `function` by `caller` at `now`, or
    /// refuses it where the caller's quota for the window that ends at
    /// `now` is used up. A refused call changes nothing.
    pub fn check(&mut self, caller: &Address, function: &str, now: u64) -> (admitted: bool)
        requires
            old(self).wf(),
        ensures
            final(self).wf(),
            admitted == spec_check(old(self)@, caller@, function@, now).is_some(),
            admitted ==> final(self)@ == spec_check(old(self)@, caller@, function@, now).unwrap(),
            !admitted ==> final(self)@ == old(self)@,
    {
        if !self.admits(caller, function, now) {
            return false;
        }
        if self.is_exempt(caller) {
            return true;
        }
        let limit = match self.get_limit(function) {
            Some(limit) => limit,
            None => {
                return true;
            },
        };
        if limit.window_seconds == 0 || limit.max_calls == 0 {
            return true;
        }
        let name = function.to_owned();
        let ghost keys = self.window_keys();
        let ghost vals = self.window_vals();
        let ghost limit_keys = self.limit_keys();
        let ghost limit_vals = self.limit_vals();
        let ghost exempt_keys = self.exempt_keys();
        match self.find_window(caller, &name) {
            Some(i) => {
                proof {
                    lemma_assoc_at(keys, vals, i as int);
                }
                let mut counted = keep_recent(&self.windows[i].calls, limit.window_seconds, now);
                counted.push(now);
                let ghost remembered = counted@;
                self.windows[i].calls = counted;
                proof {
                    assert(self.window_keys() =~= keys);
                    assert(self.window_vals() =~= vals.update(i as int, remembered));
                    lemma_assoc_update(keys, vals, i as int, remembered);
                }
            },
            None => {
                proof {
                    lemma_assoc_absent(keys, vals, (caller@, function@));
                }
                let mut counted: Vec<u64> = Vec::new();
                counted.push(now);
                let ghost remembered = counted@;
                self.windows.push(WindowEntry { caller: caller.clone(), function: name, calls: counted });
                proof {
                    assert(remembered =~= Seq::<u64>::empty().push(now));
                    assert(self.window_keys() =~= keys.push((caller@, function@)));
                    assert(self.window_vals() =~= vals.push(remembered));
                    lemma_assoc_push(keys, vals, (caller@, function@), remembered);
                }
            },
        }
        proof {
            assert(self.limit_keys() =~= limit_keys);
            assert(self.limit_vals() =~= limit_vals);
            assert(self.exempt_keys() =~= exempt_keys);
        }
        true
    }

    /// Takes the limiter apart into the lists that it holds.
    pub fn into_parts(self) -> (parts: RateLimiterParts)
        requires
            self.wf(),
        ensures
            parts.wf(),
            parts.view() == self@,
    {
        proof {
            assert(keys_of(self.limits@) =~= self.limit_keys());
            assert(keys_of(self.exempt@) =~= self.exempt_keys());
            assert(keys_of(self.windows@) =~= self.window_keys());
            assert(Seq::new(self.limits@.len(), |i: int| self.limits@[i].limit) =~= self.limit_vals());
            assert(Seq::new(self.windows@.len(), |i: int| self.windows@[i].calls@) =~= self.window_vals());
        }
        RateLimiterParts { limits: self.limits, exempt: self.exempt, windows: self.windows }
    }

    /// The limiter that `parts` describe, if they are well formed.
    pub fn from_parts(parts: RateLimiterParts) -> (limiter: Option<Self>)
        ensures
            parts.wf() <==> limiter is Some,
            limiter matches Some(l) ==> l.wf() && l@ == parts.view(),
    {
        if !keys_distinct(&parts.limits) || !keys_distinct(&parts.exempt) || !keys_distinct(&parts.windows) {
            return None;
        }
        let limiter = RateLimiter { limits: parts.limits, exempt: parts.exempt, windows: parts.windows };
        proof {
            assert(keys_of(limiter.limits@) =~= limiter.limit_keys());
            assert(keys_of(limiter.exempt@) =~= limiter.exempt_keys());
            assert(keys_of(limiter.windows@) =~= limiter.window_keys());
            assert(Seq::new(limiter.limits@.len(), |i: int| limiter.limits@[i].limit) =~= limiter.limit_vals());
            assert(Seq::new(limiter.windows@.len(), |i: int| limiter.windows@[i].calls@)
                =~= limiter.window_vals());
        }
        Some(limiter)
    }
}

impl View for RateLimiter {
    type V = RateLimiterView;

    closed spec fn view(&self) -> RateLimiterView {
        RateLimiterView {
            limits: assoc(self.limit_keys(), self.limit_vals()),
            exempt: assoc(self.exempt_keys(), self.exempt_keys()).dom(),
            windows: assoc(self.window_keys(), self.window_vals()),
        }
    }
}

/// Every call that is remembered as recent lies within the window, and
/// no call that was not remembered before is.
pub proof fn lemma_recent_calls(calls: Seq<u64>, window_seconds: u64, now: u64)
    ensures
        recent_calls(calls, window_seconds, now).len() <= calls.len(),
        forall|i: int|
            0 <= i < recent_calls(calls, window_seconds, now).len() ==> within_window(
                #[trigger] recent_calls(calls, window_seconds, now)[i],
                window_seconds,
                now,
            ) && calls.contains(recent_calls(calls, window_seconds, now)[i]),
    decreases calls.len(),
{
    if calls.len() > 0 {
        lemma_recent_calls(calls.drop_last(), window_seconds, now);
        let shorter = recent_calls(calls.drop_last(), window_seconds, now);
        let recent = recent_calls(calls, window_seconds, now);
        assert forall|i: int| 0 <= i < recent.len() implies within_window(#[trigger] recent[i], window_seconds, now)
            && calls.contains(recent[i]) by {
            if i < shorter.len() {
                assert(recent[i] == shorter[i]);
                let j = choose|j: int| 0 <= j < calls.drop_last().len() && calls.drop_last()[j] == shorter[i];
                assert(calls[j] == shorter[i]);
            } else {
                assert(recent[i] == calls.last());
                assert(calls[calls.len() - 1] == calls.last());
            }
        }
    }
}

/// The quota holds: after a counted call is admitted at `now`, the calls
/// remembered for its caller and function all lie within the window that
/// ends at `now`, the admitted call is the last of them, and they are no
/// more than `max_calls`.
pub proof fn law_quota_is_never_exceeded(limiter: RateLimiterView, caller: Seq<char>, function: Seq<char>, now: u64)
    requires
        !limiter.exempt.contains(caller),
        limiter.limits.contains_key(function),
        limit_is_set(limiter.limits[function]),
        spec_check(limiter, caller, function, now) is Some,
    ensures
        ({
            let after = spec_check(limiter, caller, function, now).unwrap();
            let limit = limiter.limits[function];
            let remembered = after.windows[(caller, function)];
            &&& after.windows.contains_key((caller, function))
            &&& 1 <= remembered.len() <= limit.max_calls
            &&& remembered.last() == now
            &&& forall|i: int|
                0 <= i < remembered.len() ==> within_window(#[trigger] remembered[i], limit.window_seconds, now)
        }),
{
    let limit = limiter.limits[function];
    let before = if limiter.windows.contains_key((caller, function)) {
        limiter.windows[(caller, function)]
    } else {
        Seq::empty()
    };
    lemma_recent_calls(before, limit.window_seconds, now);
    let recent = recent_calls(before, limit.window_seconds, now);
    let remembered = recent.push(now);
    assert forall|i: int| 0 <= i < remembered.len() implies within_window(
        #[trigger] remembered[i],
        limit.window_seconds,
        now,
    ) by {
        if i < recent.len() {
            assert(remembered[i] == recent[i]);
        }
    }
}

/// A refusal means that the quota is used up: as many remembered calls as
/// the quota allows lie within the window that ends at `now`.
pub proof fn law_refusal_means_quota_used_up(
    limiter: RateLimiterView,
    caller: Seq<char>,
    function: Seq<char>,
    now: u64,
)
    requires
        spec_check(limiter, caller, function, now) is None,
    ensures
        !limiter.exempt.contains(caller),
        limiter.limits.contains_key(function),
        limit_is_set(limiter.limits[function]),
        limiter.windows.contains_key((caller, function)),
        recent_calls(
            limiter.windows[(caller, function)],
            limiter.limits[function].window_seconds,
            now,
        ).len() >= limiter.limits[function].max_calls,
{
}

} // verus!
