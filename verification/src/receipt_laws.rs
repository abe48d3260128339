//! What holds of the receipt contract whatever is minted, transferred and
//! settled.

use crate::address::Address;
use crate::commitment_nft::{spec_mint, spec_settle, spec_transfer, without_first, NftView};
use vstd::prelude::*;

verus! {

/// The holdings agree with the receipts: the list of every owner names
/// receipts that exist and are its own, each once; its balance is the
/// length of its list; and every receipt is on the list of its owner.
pub open spec fn consistent(s: NftView) -> bool {
    &&& forall|k: Seq<char>| #[trigger]
        s.holdings.contains_key(k) ==> {
            let h = s.holdings[k];
            &&& h.tokens.no_duplicates()
            &&& h.balance == h.tokens.len()
            &&& forall|i: int|
                0 <= i < h.tokens.len() ==> s.has(#[trigger] h.tokens[i]) && s.tokens[h.tokens[i] as int].owner@
                    == k
        }
    &&& forall|t: int|
        0 <= t < s.tokens.len() ==> s.holdings.contains_key((#[trigger] s.tokens[t]).owner@)
            && s.holdings[s.tokens[t].owner@].tokens.contains(t as u32)
}

/// A list without duplicates that holds `x` loses exactly `x` by
/// `without_first`: what is left has no duplicates, does not hold `x`, holds
/// every other element, and is one shorter.
pub proof fn lemma_without_first(list: Seq<u32>, x: u32)
    requires
        list.no_duplicates(),
        list.contains(x),
    ensures
        without_first(list, x).no_duplicates(),
        !without_first(list, x).contains(x),
        without_first(list, x).len() == list.len() - 1,
        forall|y: u32| y != x ==> (without_first(list, x).contains(y) <==> list.contains(y)),
        forall|i: int| 0 <= i < without_first(list, x).len() ==> list.contains(#[trigger] without_first(list, x)[i]),
{
    list.index_of_first_ensures(x);
    let p = list.index_of_first(x).unwrap();
    let rest = list.remove(p);
    assert(rest == without_first(list, x));
    assert forall|i: int| 0 <= i < rest.len() implies #[trigger] rest[i] == list[if i < p {
        i
    } else {
        i + 1
    }] by {}
    assert forall|i: int, j: int| 0 <= i < rest.len() && 0 <= j < rest.len() && i != j implies rest[i]
        != rest[j] by {
        let a = if i < p {
            i
        } else {
            i + 1
        };
        let b = if j < p {
            j
        } else {
            j + 1
        };
        assert(rest[i] == list[a] && rest[j] == list[b]);
    }
    if rest.contains(x) {
        let i = choose|i: int| 0 <= i < rest.len() && rest[i] == x;
        let a = if i < p {
            i
        } else {
            i + 1
        };
        assert(list[a] == x && list[p] == x && a != p);
    }
    assert forall|y: u32| y != x implies (rest.contains(y) <==> list.contains(y)) by {
        if rest.contains(y) {
            let i = choose|i: int| 0 <= i < rest.len() && rest[i] == y;
            let a = if i < p {
                i
            } else {
                i + 1
            };
            assert(list[a] == y);
        }
        if list.contains(y) {
            let a = choose|a: int| 0 <= a < list.len() && list[a] == y;
            let i = if a < p {
                a
            } else {
                a - 1
            };
            assert(rest[i] == y);
        }
    }
    assert forall|i: int| 0 <= i < rest.len() implies list.contains(#[trigger] rest[i]) by {
        let a = if i < p {
            i
        } else {
            i + 1
        };
        assert(list[a] == rest[i]);
    }
}

/// Minting keeps the holdings in agreement with the receipts, and gives
/// the owner one receipt more.
#[verifier::rlimit(50)]
pub proof fn law_mint_keeps_holdings_consistent(
    s: NftView,
    owner: Address,
    commitment_id: String,
    duration_days: u32,
    max_loss_percent: u32,
    commitment_type: String,
    initial_amount: i128,
    asset_address: Address,
    early_exit_penalty: u32,
    now: u64,
)
    requires
        s.wf(),
        consistent(s),
        spec_mint(
            s,
            owner,
            commitment_id,
            duration_days,
            max_loss_percent,
            commitment_type,
            initial_amount,
            asset_address,
            early_exit_penalty,
            now,
        ) is Ok,
    ensures
        ({
            let t = spec_mint(
                s,
                owner,
                commitment_id,
                duration_days,
                max_loss_percent,
                commitment_type,
                initial_amount,
                asset_address,
                early_exit_penalty,
                now,
            ).unwrap();
            &&& t.wf()
            &&& consistent(t)
            &&& t.tokens.len() == s.tokens.len() + 1
            &&& t.holding(owner@).balance == s.holding(owner@).balance + 1
            &&& forall|k: Seq<char>| k != owner@ ==> t.holding(k) == s.holding(k)
        }),
{
    let t = spec_mint(
        s,
        owner,
        commitment_id,
        duration_days,
        max_loss_percent,
        commitment_type,
        initial_amount,
        asset_address,
        early_exit_penalty,
        now,
    ).unwrap();
    let new_id = s.tokens.len() as u32;
    let before = s.holding(owner@).tokens;
    let after = t.holdings[owner@].tokens;
    assert(after == before.push(new_id));
    assert(!before.contains(new_id)) by {
        if before.contains(new_id) {
            let i = choose|i: int| 0 <= i < before.len() && before[i] == new_id;
            assert(s.holdings.contains_key(owner@));
            assert(s.has(s.holdings[owner@].tokens[i]));
        }
    }
    assert(after.no_duplicates()) by {
        assert forall|i: int, j: int| 0 <= i < after.len() && 0 <= j < after.len() && i != j implies after[i]
            != after[j] by {
            if i < before.len() && j < before.len() {
            } else if i < before.len() {
                assert(before.contains(before[i]));
            } else {
                assert(before.contains(before[j]));
            }
        }
    }
    assert forall|k: Seq<char>| #[trigger] t.holdings.contains_key(k) implies ({
        let h = t.holdings[k];
        &&& h.tokens.no_duplicates()
        &&& h.balance == h.tokens.len()
        &&& forall|i: int|
            0 <= i < h.tokens.len() ==> t.has(#[trigger] h.tokens[i]) && t.tokens[h.tokens[i] as int].owner@ == k
    }) by {
        let h = t.holdings[k];
        if k == owner@ {
            assert forall|i: int| 0 <= i < h.tokens.len() implies t.has(#[trigger] h.tokens[i])
                && t.tokens[h.tokens[i] as int].owner@ == k by {
                if i < before.len() {
                    assert(s.holdings.contains_key(owner@));
                    assert(s.has(s.holdings[owner@].tokens[i]));
                }
            }
        } else {
            assert(s.holdings.contains_key(k));
            assert forall|i: int| 0 <= i < h.tokens.len() implies t.has(#[trigger] h.tokens[i])
                && t.tokens[h.tokens[i] as int].owner@ == k by {
                assert(s.has(s.holdings[k].tokens[i]));
            }
        }
    }
    assert forall|x: int| 0 <= x < t.tokens.len() implies t.holdings.contains_key((#[trigger] t.tokens[x]).owner@)
        && t.holdings[t.tokens[x].owner@].tokens.contains(x as u32) by {
        if x < s.tokens.len() {
            let k = s.tokens[x].owner@;
            assert(s.holdings[k].tokens.contains(x as u32));
            if k == owner@ {
                let i = choose|i: int| 0 <= i < before.len() && before[i] == x as u32;
                assert(after[i] == x as u32);
            }
        } else {
            assert(after[before.len() as int] == new_id);
        }
    }
}

/// A transfer keeps the holdings in agreement with the receipts: the
/// giver has one receipt fewer and the taker one more, unless they are the
/// same, and nobody else's holding changes.
#[verifier::rlimit(50)]
pub proof fn law_transfer_keeps_holdings_consistent(s: NftView, from: Address, to: Address, token_id: u32)
    requires
        s.wf(),
        consistent(s),
        spec_transfer(s, from, to, token_id) is Ok,
    ensures
        ({
            let t = spec_transfer(s, from, to, token_id).unwrap();
            &&& t.wf()
            &&& consistent(t)
            &&& t.tokens.len() == s.tokens.len()
            &&& from@ != to@ ==> t.holding(from@).balance == s.holding(from@).balance - 1 && t.holding(
                to@,
            ).balance == s.holding(to@).balance + 1
            &&& from@ == to@ ==> t.holding(from@).balance == s.holding(from@).balance
            &&& forall|k: Seq<char>| k != from@ && k != to@ ==> t.holding(k) == s.holding(k)
        }),
{
    let t = spec_transfer(s, from, to, token_id).unwrap();
    let f = from@;
    let g = to@;
    let x = token_id;
    assert(s.tokens[x as int].owner@ == f);
    assert(s.holdings.contains_key(f) && s.holdings[f].tokens.contains(x));
    let from_list = s.holdings[f].tokens;
    lemma_without_first(from_list, x);
    let debited = NftView { holdings: s.debit(f, x), ..s };
    let from_left = without_first(from_list, x);
    assert(debited.holdings[f].tokens == from_left);
    assert(from_list.len() > 0);
    assert(debited.holdings[f].balance == from_list.len() - 1);
    let to_before = debited.holding(g).tokens;
    let to_after = t.holdings[g].tokens;
    assert(to_after == to_before.push(x));
    assert(!to_before.contains(x)) by {
        if g == f {
        } else if s.holdings.contains_key(g) {
            if s.holdings[g].tokens.contains(x) {
                let i = choose|i: int| 0 <= i < s.holdings[g].tokens.len() && s.holdings[g].tokens[i] == x;
                assert(s.tokens[s.holdings[g].tokens[i] as int].owner@ == g);
            }
        }
    }
    assert(to_after.no_duplicates()) by {
        if g == f {
        } else if s.holdings.contains_key(g) {
            assert(to_before == s.holdings[g].tokens);
        }
        assert(to_before.no_duplicates());
        assert forall|i: int, j: int|
            0 <= i < to_after.len() && 0 <= j < to_after.len() && i != j implies to_after[i] != to_after[j] by {
            if i < to_before.len() && j < to_before.len() {
            } else if i < to_before.len() {
                assert(to_before.contains(to_before[i]));
            } else {
                assert(to_before.contains(to_before[j]));
            }
        }
    }
    assert forall|k: Seq<char>| #[trigger] t.holdings.contains_key(k) implies ({
        let h = t.holdings[k];
        &&& h.tokens.no_duplicates()
        &&& h.balance == h.tokens.len()
        &&& forall|i: int|
            0 <= i < h.tokens.len() ==> t.has(#[trigger] h.tokens[i]) && t.tokens[h.tokens[i] as int].owner@ == k
    }) by {
        let h = t.holdings[k];
        if k == g {
            assert forall|i: int| 0 <= i < h.tokens.len() implies t.has(#[trigger] h.tokens[i])
                && t.tokens[h.tokens[i] as int].owner@ == k by {
                if i < to_before.len() {
                    let y = to_before[i];
                    assert(to_before.contains(y));
                    assert(y != x);
                    if g == f {
                        assert(from_list.contains(y));
                        let j = choose|j: int| 0 <= j < from_list.len() && from_list[j] == y;
                        assert(s.has(s.holdings[f].tokens[j]));
                    } else {
                        assert(s.holdings.contains_key(g));
                        assert(s.has(s.holdings[g].tokens[i]));
                    }
                }
            }
        } else if k == f {
            assert forall|i: int| 0 <= i < h.tokens.len() implies t.has(#[trigger] h.tokens[i])
                && t.tokens[h.tokens[i] as int].owner@ == k by {
                let y = from_left[i];
                assert(from_left.contains(y));
                assert(y != x);
                assert(from_list.contains(y));
                let j = choose|j: int| 0 <= j < from_list.len() && from_list[j] == y;
                assert(s.has(s.holdings[f].tokens[j]));
            }
        } else {
            assert(s.holdings.contains_key(k));
            assert forall|i: int| 0 <= i < h.tokens.len() implies t.has(#[trigger] h.tokens[i])
                && t.tokens[h.tokens[i] as int].owner@ == k by {
                assert(s.has(s.holdings[k].tokens[i]));
                assert(s.tokens[s.holdings[k].tokens[i] as int].owner@ == k);
                assert(h.tokens[i] != x);
            }
        }
    }
    assert forall|y: int| 0 <= y < t.tokens.len() implies t.holdings.contains_key((#[trigger] t.tokens[y]).owner@)
        && t.holdings[t.tokens[y].owner@].tokens.contains(y as u32) by {
        if y == x as int {
            assert(to_after[to_before.len() as int] == x);
        } else {
            let k = s.tokens[y].owner@;
            assert(t.tokens[y] == s.tokens[y]);
            assert(s.holdings[k].tokens.contains(y as u32));
            if k == g && g != f {
                let i = choose|i: int| 0 <= i < to_before.len() && to_before[i] == y as u32;
                assert(to_after[i] == y as u32);
            } else if k == f {
                assert(from_left.contains(y as u32));
                if g == f {
                    let i = choose|i: int| 0 <= i < to_before.len() && to_before[i] == y as u32;
                    assert(to_after[i] == y as u32);
                }
            }
        }
    }
}

/// Settling a receipt changes no holding and no owner: the supply and
/// every balance stay.
pub proof fn law_settle_keeps_holdings(s: NftView, token_id: u32, now: u64)
    requires
        s.wf(),
        consistent(s),
        spec_settle(s, token_id, now) is Ok,
    ensures
        ({
            let t = spec_settle(s, token_id, now).unwrap();
            &&& t.wf()
            &&& consistent(t)
            &&& t.holdings == s.holdings
            &&& t.tokens.len() == s.tokens.len()
            &&& forall|i: int| 0 <= i < s.tokens.len() ==> (#[trigger] t.tokens[i]).owner == s.tokens[i].owner
        }),
{
    let t = spec_settle(s, token_id, now).unwrap();
    assert forall|k: Seq<char>| #[trigger] t.holdings.contains_key(k) implies ({
        let h = t.holdings[k];
        &&& h.tokens.no_duplicates()
        &&& h.balance == h.tokens.len()
        &&& forall|i: int|
            0 <= i < h.tokens.len() ==> t.has(#[trigger] h.tokens[i]) && t.tokens[h.tokens[i] as int].owner@ == k
    }) by {
        let h = t.holdings[k];
        assert forall|i: int| 0 <= i < h.tokens.len() implies t.has(#[trigger] h.tokens[i])
            && t.tokens[h.tokens[i] as int].owner@ == k by {
            assert(s.has(s.holdings[k].tokens[i]));
        }
    }
    assert forall|y: int| 0 <= y < t.tokens.len() implies t.holdings.contains_key((#[trigger] t.tokens[y]).owner@)
        && t.holdings[t.tokens[y].owner@].tokens.contains(y as u32) by {
        assert(t.tokens[y].owner == s.tokens[y].owner);
        assert(s.holdings[s.tokens[y].owner@].tokens.contains(y as u32));
    }
}

} // verus!
