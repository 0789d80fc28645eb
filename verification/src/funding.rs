//! The funding planner: which accounts get how much, and what is to be done
//! with the file of source keys.

use crate::keys::{
    address_bytes, is_account_from, libsecp256k1_public, one_eth_account, secret_of_entropy,
};
use crate::types::Address;
use crate::u256::{lemma_value_bound, pow256, U256};
use crate::KeyPair;
use vstd::prelude::*;

verus! {

/// Wei in a tenth of an ether, the unit in which sources are funded.
pub const FUND_UNIT: u64 = 100_000_000_000_000_000;

/// Wei in a hundredth of an ether, what a test sends to each recipient.
pub const TARGET_AMOUNT: u64 = 10_000_000_000_000_000;

/// What each source gets: `units` tenths of an ether, in wei.
pub fn fund_amount(units: u64) -> (amount: U256)
    ensures
        amount@ == FUND_UNIT * units,
{
    let unit = U256::from_u64(FUND_UNIT);
    assert(FUND_UNIT * units < pow256());
    match unit.checked_mul_u64(units) {
        Some(amount) => amount,
        None => unit,
    }
}

/// What a test sends to each recipient, in wei.
pub fn target_amount() -> (amount: U256)
    ensures
        amount@ == TARGET_AMOUNT,
{
    U256::from_u64(TARGET_AMOUNT)
}

/// An account and what it holds.
#[derive(Clone, Copy, Debug, PartialEq, Eq)]
pub struct Account {
    /// The account's address.
    pub address: Address,
    /// Its balance in wei.
    pub balance: U256,
}

/// Why no sources can be funded.
#[derive(Clone, Copy, Debug, PartialEq, Eq)]
pub enum FundError {
    /// New keys were asked for and the file of keys is there already.
    KeyFileExists,
    /// The root account does not hold more than the sources would get.
    TooManySources,
}

/// What is to be done with the file of source keys.
#[derive(Clone, Copy, Debug, PartialEq, Eq)]
pub struct KeyPlan {
    /// How many keys to make and add to those at hand.
    pub generate: u64,
    /// Whether the file is written.
    pub write: bool,
    /// Whether the file as it is becomes the backup before it is written.
    pub backup: bool,
}

/// Whether the root account can fund `count` sources with `amount` each:
/// it holds more than one such amount above what they get.
pub open spec fn can_fund(amount: U256, count: u64, balance: U256) -> bool {
    amount@ * (count + 1) < balance@
}

/// What is to be done with the file of source keys.
///
/// Where the keys are loaded, `loaded` of them, more are made only if
/// `count` asks for more than there are; the file as it was is then kept
/// as the backup. Where they are not loaded, the file must not be there
/// and the root account must be able to fund `count` sources; all keys are
/// then new.
pub open spec fn key_plan_of(
    load: bool,
    file_exists: bool,
    loaded: nat,
    count: u64,
    amount: U256,
    balance: U256,
) -> core::result::Result<KeyPlan, FundError> {
    if load {
        if count > loaded {
            Ok(KeyPlan { generate: (count - loaded) as u64, write: true, backup: true })
        } else {
            Ok(KeyPlan { generate: 0, write: false, backup: false })
        }
    } else if file_exists {
        Err(FundError::KeyFileExists)
    } else if !can_fund(amount, count, balance) {
        Err(FundError::TooManySources)
    } else {
        Ok(KeyPlan { generate: count, write: true, backup: false })
    }
}

/// Whether the root account can fund `count` sources with `amount` each.
pub fn root_can_fund(amount: &U256, count: u64, balance: &U256) -> (ok: bool)
    ensures
        ok == can_fund(*amount, count, *balance),
{
    proof {
        lemma_value_bound(*balance);
        assert(amount@ * (count + 1) == amount@ * count + amount@) by (nonlinear_arith);
    }
    match amount.checked_mul_u64(count) {
        None => false,
        Some(product) => match product.checked_add(amount) {
            None => false,
            Some(needed) => needed.is_lt(balance),
        },
    }
}

/// What is to be done with the file of source keys; see [`key_plan_of`].
/// `loaded` is the number of keys read from the file and counts only where
/// `load` is set; `file_exists` counts only where it is not.
pub fn plan_keys(
    load: bool,
    file_exists: bool,
    loaded: usize,
    count: u64,
    amount: &U256,
    balance: &U256,
) -> (r: core::result::Result<KeyPlan, FundError>)
    ensures
        r == key_plan_of(load, file_exists, loaded as nat, count, *amount, *balance),
{
    if load {
        let have = loaded as u64;
        if count > have {
            Ok(KeyPlan { generate: count - have, write: true, backup: true })
        } else {
            Ok(KeyPlan { generate: 0, write: false, backup: false })
        }
    } else if file_exists {
        Err(FundError::KeyFileExists)
    } else if !root_can_fund(amount, count, balance) {
        Err(FundError::TooManySources)
    } else {
        Ok(KeyPlan { generate: count, write: true, backup: false })
    }
}

/// Whether a source is sent the funding amount: always, but where
/// balances are looked at first and its balance exceeds the amount already.
pub open spec fn gets_funds(balance: U256, amount: U256, redeposit: bool) -> bool {
    !redeposit || balance@ <= amount@
}

/// The transfers that fund the first `upto` of `accounts`, in order: the
/// amount to each that gets funds.
pub open spec fn funding_of(accounts: Seq<Account>, amount: U256, redeposit: bool, upto: int) -> Seq<
    (Address, U256),
>
    decreases upto,
{
    if upto <= 0 {
        Seq::empty()
    } else if gets_funds(accounts[upto - 1].balance, amount, redeposit) {
        funding_of(accounts, amount, redeposit, upto - 1).push(
            (accounts[upto - 1].address, amount),
        )
    } else {
        funding_of(accounts, amount, redeposit, upto - 1)
    }
}

/// The transfers that fund `accounts`, in order; see [`funding_of`].
/// Balances count only where `redeposit` is set.
pub fn funding_targets(
    accounts: &Vec<Account>,
    amount: &U256,
    redeposit: bool,
) -> (targets: Vec<(Address, U256)>)
    ensures
        targets@ == funding_of(accounts@, *amount, redeposit, accounts@.len() as int),
{
    let mut targets: Vec<(Address, U256)> = Vec::new();
    let mut i: usize = 0;
    while i < accounts.len()
        invariant
            i <= accounts.len(),
            targets@ == funding_of(accounts@, *amount, redeposit, i as int),
        decreases accounts.len() - i,
    {
        let account = accounts[i];
        if !redeposit || account.balance.is_le(amount) {
            targets.push((account.address, *amount));
        }
        i += 1;
    }
    targets
}

/// With balances looked at first, an account that holds more than the
/// amount gets nothing, whoever else does: a second funding leaves alone
/// what the first filled above the amount.
pub proof fn lemma_redeposit_skips_funded(accounts: Seq<Account>, amount: U256, upto: int, i: int)
    requires
        0 <= i < upto <= accounts.len(),
        accounts[i].balance@ > amount@,
        forall|j: int, k: int|
            0 <= j < k < accounts.len() ==> accounts[j].address != accounts[k].address,
    ensures
        forall|t: int|
            0 <= t < funding_of(accounts, amount, true, upto).len() ==> (#[trigger] funding_of(
                accounts,
                amount,
                true,
                upto,
            )[t]).0 != accounts[i].address,
    decreases upto,
{
    lemma_funding_from(accounts, amount, true, upto);
}

/// Every transfer of a funding goes to one of the accounts that gets
/// funds, and is of the amount.
pub proof fn lemma_funding_from(accounts: Seq<Account>, amount: U256, redeposit: bool, upto: int)
    requires
        0 <= upto <= accounts.len(),
    ensures
        funding_of(accounts, amount, redeposit, upto).len() <= upto,
        forall|t: int|
            0 <= t < funding_of(accounts, amount, redeposit, upto).len() ==> {
                let transfer = #[trigger] funding_of(accounts, amount, redeposit, upto)[t];
                &&& transfer.1 == amount
                &&& exists|j: int|
                    0 <= j < upto && gets_funds(accounts[j].balance, amount, redeposit)
                        && #[trigger] accounts[j].address == transfer.0
            },
    decreases upto,
{
    if upto > 0 {
        lemma_funding_from(accounts, amount, redeposit, upto - 1);
        let before = funding_of(accounts, amount, redeposit, upto - 1);
        let all = funding_of(accounts, amount, redeposit, upto);
        assert forall|t: int| 0 <= t < all.len() implies {
            let transfer = #[trigger] all[t];
            &&& transfer.1 == amount
            &&& exists|j: int|
                0 <= j < upto && gets_funds(accounts[j].balance, amount, redeposit)
                    && #[trigger] accounts[j].address == transfer.0
        } by {
            if t < before.len() {
                assert(all[t] == before[t]);
                let j = choose|j: int|
                    0 <= j < upto - 1 && gets_funds(accounts[j].balance, amount, redeposit)
                        && #[trigger] accounts[j].address == before[t].0;
                assert(accounts[j].address == all[t].0);
            } else {
                assert(accounts[upto - 1].address == all[t].0);
            }
        }
    }
}

/// Whether a source can pay for `count` transfers of `amount`: it holds
/// more than they come to.
pub open spec fn can_afford(balance: U256, amount: U256, count: u64) -> bool {
    balance@ > amount@ * count
}

/// Whether a source takes part in a test: always where balances are not
/// looked at, else where it can pay for its transfers.
pub open spec fn takes_part(balance: U256, amount: U256, count: u64, check_balance: bool) -> bool {
    !check_balance || can_afford(balance, amount, count)
}

/// Whether a source takes part in a test; see [`takes_part`]. The balance
/// counts only where `check_balance` is set.
pub fn source_takes_part(
    balance: &U256,
    amount: &U256,
    count: u64,
    check_balance: bool,
) -> (ok: bool)
    ensures
        ok == takes_part(*balance, *amount, count, check_balance),
{
    if !check_balance {
        return true;
    }
    proof {
        lemma_value_bound(*balance);
    }
    match amount.checked_mul_u64(count) {
        None => false,
        Some(cost) => cost.is_lt(balance),
    }
}

/// The places in the first `upto` of `accounts` of those that take part in
/// a test, in order.
pub open spec fn participants_of(
    accounts: Seq<Account>,
    amount: U256,
    count: u64,
    check_balance: bool,
    upto: int,
) -> Seq<usize>
    decreases upto,
{
    if upto <= 0 {
        Seq::empty()
    } else if takes_part(accounts[upto - 1].balance, amount, count, check_balance) {
        participants_of(accounts, amount, count, check_balance, upto - 1).push((upto - 1) as usize)
    } else {
        participants_of(accounts, amount, count, check_balance, upto - 1)
    }
}

/// The participants among the first `upto` accounts are the places, below
/// `upto` and in rising order, of exactly the accounts that take part.
pub proof fn lemma_participants(
    accounts: Seq<Account>,
    amount: U256,
    count: u64,
    check_balance: bool,
    upto: int,
)
    requires
        0 <= upto <= accounts.len(),
        accounts.len() <= usize::MAX,
    ensures
        ({
            let chosen = participants_of(accounts, amount, count, check_balance, upto);
            &&& chosen.len() <= upto
            &&& forall|t: int|
                0 <= t < chosen.len() ==> (#[trigger] chosen[t]) < upto && takes_part(
                    accounts[chosen[t] as int].balance,
                    amount,
                    count,
                    check_balance,
                )
            &&& forall|s: int, t: int|
                0 <= s < t < chosen.len() ==> (#[trigger] chosen[s]) < (#[trigger] chosen[t])
            &&& forall|i: int|
                0 <= i < upto && takes_part(
                    (#[trigger] accounts[i]).balance,
                    amount,
                    count,
                    check_balance,
                ) ==> chosen.contains(i as usize)
        }),
    decreases upto,
{
    if upto > 0 {
        lemma_participants(accounts, amount, count, check_balance, upto - 1);
        let before = participants_of(accounts, amount, count, check_balance, upto - 1);
        let chosen = participants_of(accounts, amount, count, check_balance, upto);
        let last = (upto - 1) as usize;
        if takes_part(accounts[upto - 1].balance, amount, count, check_balance) {
            assert(chosen == before.push(last));
            assert(chosen[before.len() as int] == last);
            assert forall|t: int| 0 <= t < chosen.len() implies (#[trigger] chosen[t]) < upto
                && takes_part(accounts[chosen[t] as int].balance, amount, count, check_balance) by {
                if t < before.len() {
                    assert(chosen[t] == before[t]);
                }
            }
            assert forall|s: int, t: int| 0 <= s < t < chosen.len() implies (
            #[trigger] chosen[s]) < (#[trigger] chosen[t]) by {
                assert(chosen[s] == before[s]);
                if t < before.len() {
                    assert(chosen[t] == before[t]);
                }
            }
            assert forall|i: int|
                0 <= i < upto && takes_part(
                    (#[trigger] accounts[i]).balance,
                    amount,
                    count,
                    check_balance,
                ) implies chosen.contains(i as usize) by {
                if i < upto - 1 {
                    let at = choose|at: int| 0 <= at < before.len() && before[at] == i as usize;
                    assert(chosen[at] == i as usize);
                } else {
                    assert(chosen[before.len() as int] == i as usize);
                }
            }
        } else {
            assert(chosen == before);
        }
    }
}

/// The places in `accounts` of the sources that take part in a test of
/// `count` transfers of `amount` each: a source is kept exactly where it
/// takes part, and those kept stay in their order.
pub fn select_sources(
    accounts: &Vec<Account>,
    amount: &U256,
    count: u64,
    check_balance: bool,
) -> (chosen: Vec<usize>)
    ensures
        chosen@ == participants_of(
            accounts@,
            *amount,
            count,
            check_balance,
            accounts@.len() as int,
        ),
        forall|i: int|
            0 <= i < accounts@.len() ==> (chosen@.contains(i as usize) <==> takes_part(
                (#[trigger] accounts@[i]).balance,
                *amount,
                count,
                check_balance,
            )),
        forall|t: int| 0 <= t < chosen@.len() ==> (#[trigger] chosen@[t]) < accounts@.len(),
        forall|s: int, t: int|
            0 <= s < t < chosen@.len() ==> (#[trigger] chosen@[s]) < (#[trigger] chosen@[t]),
{
    let total = accounts.len();
    proof {
        assert(accounts@.len() == total);
        lemma_participants(accounts@, *amount, count, check_balance, accounts@.len() as int);
        let all = participants_of(
            accounts@,
            *amount,
            count,
            check_balance,
            accounts@.len() as int,
        );
        assert forall|i: int| 0 <= i < accounts@.len() && all.contains(i as usize) implies takes_part(
            (#[trigger] accounts@[i]).balance,
            *amount,
            count,
            check_balance,
        ) by {
            let at = choose|at: int| 0 <= at < all.len() && all[at] == i as usize;
            assert(all[at] as int == i);
        }
    }
    let mut chosen: Vec<usize> = Vec::new();
    let mut i: usize = 0;
    while i < accounts.len()
        invariant
            i <= accounts.len(),
            chosen@ == participants_of(accounts@, *amount, count, check_balance, i as int),
        decreases accounts.len() - i,
    {
        if source_takes_part(&accounts[i].balance, amount, count, check_balance) {
            chosen.push(i);
        }
        i += 1;
    }
    chosen
}

/// The address of the account of the wallet whose mnemonic is made from
/// `entropy`, where the wallet has one.
pub open spec fn wallet_address(entropy: Seq<u8>) -> Seq<u8> {
    address_bytes(libsecp256k1_public(secret_of_entropy(entropy)->0))
}

/// Whether `address` is that of the account of some wallet with a
/// mnemonic of twelve words.
pub open spec fn is_wallet_address(address: Address) -> bool {
    exists|entropy: Seq<u8>|
        entropy.len() == 16 && #[trigger] secret_of_entropy(entropy) is Some && address.bytes@
            == wallet_address(entropy)
}

/// Whether `transfer` sends `amount` to the account of a wallet.
pub open spec fn is_fresh_target(transfer: (Address, U256), amount: U256) -> bool {
    transfer.1 == amount && is_wallet_address(transfer.0)
}

/// Whether `transfer` sends `amount` to the account of the wallet whose
/// mnemonic is made from `entropy`.
pub open spec fn is_target_from(transfer: (Address, U256), entropy: Seq<u8>, amount: U256) -> bool {
    &&& secret_of_entropy(entropy) is Some
    &&& transfer.0.bytes@ == wallet_address(entropy)
    &&& transfer.1 == amount
}

/// Whether `r` is what `count` transfers of `amount` come to where the
/// mnemonics are made from `drawn`, one entropy of sixteen bytes after the
/// other: a transfer to the account of each wallet, in order, where all
/// `count` wallets have an account; nothing where one has none, which is
/// then the last that was drawn.
pub open spec fn targets_drawn(
    r: Option<Vec<(Address, U256)>>,
    drawn: Seq<Seq<u8>>,
    count: usize,
    amount: U256,
) -> bool {
    &&& forall|k: int| 0 <= k < drawn.len() ==> (#[trigger] drawn[k]).len() == 16
    &&& match r {
        Some(targets) => {
            &&& drawn.len() == count
            &&& targets@.len() == count
            &&& forall|k: int|
                0 <= k < count ==> is_target_from(#[trigger] targets@[k], drawn[k], amount)
        },
        None => {
            &&& 1 <= drawn.len() <= count
            &&& secret_of_entropy(drawn.last()) is None
            &&& forall|k: int|
                0 <= k < drawn.len() - 1 ==> secret_of_entropy(#[trigger] drawn[k]) is Some
        },
    }
}

/// The transfer of `amount` to the account `account`, where there is one.
pub fn target_of(
    account: Option<(KeyPair, Address)>,
    amount: &U256,
) -> (r: Option<(Address, U256)>)
    ensures
        r == match account {
            Some((_, address)) => Some((address, *amount)),
            None => None,
        },
{
    match account {
        Some((_, address)) => Some((address, *amount)),
        None => None,
    }
}

/// `count` transfers of `amount` each, every one to an account made for
/// it from a fresh mnemonic of twelve words, in the order in which the
/// mnemonics were made. Without transfers to make there is nothing to fail.
/// None comes back as soon as a wallet has no account, and no further
/// mnemonic is made then.
pub fn fresh_targets(count: usize, amount: &U256) -> (r: Option<Vec<(Address, U256)>>)
    ensures
        exists|drawn: Seq<Seq<u8>>| #[trigger] targets_drawn(r, drawn, count, *amount),
        count == 0 ==> r is Some,
        r matches Some(targets) ==> targets@.len() == count && forall|i: int|
            0 <= i < count ==> is_fresh_target(#[trigger] targets@[i], *amount),
{
    let mut targets: Vec<(Address, U256)> = Vec::new();
    let ghost mut drawn: Seq<Seq<u8>> = Seq::empty();
    let mut i: usize = 0;
    while i < count
        invariant
            i <= count,
            targets@.len() == i,
            drawn.len() == i,
            forall|k: int| 0 <= k < i ==> (#[trigger] drawn[k]).len() == 16,
            forall|k: int| 0 <= k < i ==> is_target_from(#[trigger] targets@[k], drawn[k], *amount),
            forall|k: int| 0 <= k < i ==> is_fresh_target(#[trigger] targets@[k], *amount),
        decreases count - i,
    {
        let account = one_eth_account();
        let ghost entropy = choose|entropy: Seq<u8>|
            entropy.len() == 16 && #[trigger] is_account_from(account, entropy);
        let ghost before = drawn;
        let ghost sent = targets@;
        proof {
            drawn = drawn.push(entropy);
            assert forall|k: int| 0 <= k < drawn.len() implies (#[trigger] drawn[k]).len()
                == 16 by {
                if k < i {
                    assert(drawn[k] == before[k]);
                }
            }
        }
        match target_of(account, amount) {
            None => {
                proof {
                    assert(drawn.last() == entropy);
                    assert forall|k: int| 0 <= k < drawn.len() - 1 implies secret_of_entropy(
                        #[trigger] drawn[k],
                    ) is Some by {
                        assert(drawn[k] == before[k]);
                        assert(is_target_from(sent[k], before[k], *amount));
                    }
                    assert(targets_drawn(None, drawn, count, *amount));
                }
                return None;
            },
            Some(target) => {
                targets.push(target);
                proof {
                    assert(secret_of_entropy(entropy) is Some);
                    assert(is_target_from(target, entropy, *amount));
                    assert forall|k: int| 0 <= k < i + 1 implies is_target_from(
                        #[trigger] targets@[k],
                        drawn[k],
                        *amount,
                    ) && is_fresh_target(targets@[k], *amount) by {
                        if k < i {
                            assert(targets@[k] == sent[k]);
                            assert(drawn[k] == before[k]);
                        }
                    }
                }
            },
        }
        i += 1;
    }
    proof {
        assert(targets_drawn(Some(targets), drawn, count, *amount));
    }
    Some(targets)
}

} // verus!
