use feth::funding::{
    fresh_targets, fund_amount, funding_targets, plan_keys, root_can_fund, select_sources,
    source_takes_part, target_amount, target_of, Account, FundError, KeyPlan,
};
use feth::types::Address;
use feth::u256::U256;

fn addr(n: u8) -> Address {
    Address { bytes: [n; 20] }
}

fn wei(n: u64) -> U256 {
    U256::from_u64(n)
}

/// `n` ether in wei.
fn ether(n: u64) -> U256 {
    U256::from_u64(1_000_000_000_000_000_000).checked_mul_u64(n).unwrap()
}

#[test]
fn the_funding_unit_is_a_tenth_of_an_ether() {
    assert_eq!(fund_amount(1), wei(100_000_000_000_000_000));
    assert_eq!(fund_amount(10), ether(1));
    assert_eq!(fund_amount(0), U256::zero());
    // 10^17 * (2^64 - 1)
    assert_eq!(
        fund_amount(u64::MAX).limbs,
        (web3::types::U256::exp10(17) * web3::types::U256::from(u64::MAX)).0
    );
}

#[test]
fn the_target_amount_is_a_hundredth_of_an_ether() {
    assert_eq!(target_amount(), wei(10_000_000_000_000_000));
}

#[test]
fn a_thousand_ether_fund_five_sources() {
    let amount = fund_amount(1);
    assert!(root_can_fund(&amount, 5, &ether(1000)));
    assert_eq!(
        plan_keys(false, false, 0, 5, &amount, &ether(1000)),
        Ok(KeyPlan { generate: 5, write: true, backup: false })
    );
    let sources: Vec<_> =
        (1..=5).map(|i| Account { address: addr(i), balance: U256::zero() }).collect();
    let transfers = funding_targets(&sources, &amount, false);
    assert_eq!(transfers, (1..=5).map(|i| (addr(i), amount)).collect::<Vec<_>>());
    // Half an ether leaves the root account.
    let mut sum = U256::zero();
    for t in &transfers {
        sum = sum.checked_add(&t.1).unwrap();
    }
    assert_eq!(sum, wei(500_000_000_000_000_000));
}

#[test]
fn the_root_must_hold_more_than_one_amount_above_what_it_gives() {
    let amount = wei(10);
    // 10 * (4 + 1) = 50
    assert!(root_can_fund(&amount, 4, &wei(51)));
    assert!(!root_can_fund(&amount, 4, &wei(50)));
    assert!(!root_can_fund(&amount, 4, &wei(49)));
    assert!(!root_can_fund(&amount, 0, &wei(10)));
    assert!(root_can_fund(&amount, 0, &wei(11)));
    assert!(!root_can_fund(&U256::zero(), 5, &U256::zero()));
    assert!(root_can_fund(&U256::zero(), 5, &U256::one()));
}

#[test]
fn amounts_beyond_the_range_cannot_be_funded() {
    assert!(!root_can_fund(&U256::max_value(), 1, &U256::max_value()));
    assert!(!root_can_fund(&U256::max_value(), 0, &U256::max_value()));
    assert!(root_can_fund(&wei(1), u64::MAX, &U256::from_limbs([1, 1, 0, 0])));
    assert!(!root_can_fund(&wei(1), u64::MAX, &U256::from_limbs([0, 1, 0, 0])));
}

#[test]
fn new_keys_need_a_free_file_and_a_rich_root() {
    let amount = fund_amount(1);
    assert_eq!(
        plan_keys(false, true, 0, 5, &amount, &ether(1000)),
        Err(FundError::KeyFileExists)
    );
    assert_eq!(
        plan_keys(false, false, 0, 5, &amount, &fund_amount(6)),
        Err(FundError::TooManySources)
    );
    assert_eq!(
        plan_keys(false, true, 0, 5, &amount, &U256::zero()),
        Err(FundError::KeyFileExists)
    );
    assert_eq!(
        plan_keys(false, false, 3, 0, &amount, &ether(1)),
        Ok(KeyPlan { generate: 0, write: true, backup: false })
    );
}

#[test]
fn loaded_keys_are_topped_up_and_the_old_file_kept() {
    let amount = fund_amount(1);
    assert_eq!(
        plan_keys(true, true, 3, 5, &amount, &U256::zero()),
        Ok(KeyPlan { generate: 2, write: true, backup: true })
    );
    assert_eq!(
        plan_keys(true, true, 5, 5, &amount, &U256::zero()),
        Ok(KeyPlan { generate: 0, write: false, backup: false })
    );
    assert_eq!(
        plan_keys(true, true, 9, 5, &amount, &U256::zero()),
        Ok(KeyPlan { generate: 0, write: false, backup: false })
    );
}

#[test]
fn redeposit_leaves_out_sources_that_hold_more_than_the_amount() {
    let amount = wei(100);
    let sources = vec![
        Account { address: addr(1), balance: wei(0) },
        Account { address: addr(2), balance: wei(99) },
        Account { address: addr(3), balance: wei(100) },
        Account { address: addr(4), balance: wei(101) },
        Account { address: addr(5), balance: U256::max_value() },
    ];
    assert_eq!(
        funding_targets(&sources, &amount, true),
        vec![(addr(1), amount), (addr(2), amount), (addr(3), amount)]
    );
    assert_eq!(funding_targets(&sources, &amount, false).len(), 5);
    assert!(funding_targets(&vec![], &amount, true).is_empty());
}

#[test]
fn a_source_with_no_balance_is_dropped() {
    let amount = target_amount();
    let mut sources: Vec<_> =
        (1..=5).map(|i| Account { address: addr(i), balance: ether(1) }).collect();
    sources[2].balance = U256::zero();
    let chosen = select_sources(&sources, &amount, 10, true);
    assert_eq!(chosen, vec![0, 1, 3, 4]);
    // Four sources with ten transfers each.
    let attempts: usize = chosen
        .iter()
        .map(|_| fresh_targets(10, &amount).unwrap().len())
        .sum();
    assert_eq!(attempts, 40);
    assert_eq!(feth::pool::total_transfers(chosen.len(), 10), Some(40));
}

#[test]
fn without_the_balance_check_every_source_takes_part() {
    let amount = target_amount();
    let sources: Vec<_> =
        (1..=3).map(|i| Account { address: addr(i), balance: U256::zero() }).collect();
    assert_eq!(select_sources(&sources, &amount, 10, false), vec![0, 1, 2]);
    assert!(select_sources(&sources, &amount, 10, true).is_empty());
}

#[test]
fn a_source_must_hold_more_than_its_transfers_come_to() {
    let amount = wei(10);
    assert!(source_takes_part(&wei(101), &amount, 10, true));
    assert!(!source_takes_part(&wei(100), &amount, 10, true));
    assert!(!source_takes_part(&wei(99), &amount, 10, true));
    assert!(source_takes_part(&wei(1), &amount, 0, true));
    assert!(!source_takes_part(&wei(0), &amount, 0, true));
    assert!(!source_takes_part(&U256::max_value(), &U256::max_value(), 2, true));
    assert!(source_takes_part(&wei(0), &amount, 10, false));
}

#[test]
fn fresh_targets_are_distinct_accounts_with_the_amount() {
    let amount = wei(5);
    let targets = fresh_targets(4, &amount).unwrap();
    assert_eq!(targets.len(), 4);
    for (i, t) in targets.iter().enumerate() {
        assert_eq!(t.1, amount);
        for u in &targets[..i] {
            assert_ne!(t.0, u.0);
        }
    }
    assert_eq!(fresh_targets(0, &amount), Some(Vec::new()));
}

/// The balances after every transfer of a funding has arrived.
fn funded(accounts: &[Account], amount: &U256, redeposit: bool) -> Vec<Account> {
    let transfers = funding_targets(&accounts.to_vec(), amount, redeposit);
    accounts
        .iter()
        .map(|a| {
            let got = transfers.iter().filter(|t| t.0 == a.address).count() as u64;
            Account {
                address: a.address,
                balance: a.balance.checked_add(&amount.checked_mul_u64(got).unwrap()).unwrap(),
            }
        })
        .collect()
}

#[test]
fn funding_twice_moves_no_balance_by_more_than_the_amount() {
    let amount = fund_amount(1);
    let start: Vec<_> = (1..=5u8)
        .map(|i| Account { address: addr(i), balance: wei(i as u64 * 40_000_000_000_000_000) })
        .collect();
    for redeposit in [false, true] {
        let once = funded(&start, &amount, redeposit);
        let twice = funded(&once, &amount, redeposit);
        for (a, b) in once.iter().zip(twice.iter()) {
            let moved = b.balance.checked_sub(&a.balance).unwrap();
            assert!(moved.is_le(&amount));
            if redeposit && amount.is_lt(&a.balance) {
                assert_eq!(moved, U256::zero());
            }
        }
        // The plan is the same for the same balances.
        assert_eq!(
            funding_targets(&once, &amount, redeposit),
            funding_targets(&once.clone(), &amount, redeposit)
        );
    }
    // With balances looked at, a third funding changes nothing: every source
    // holds more than the amount by then.
    let once = funded(&start, &amount, true);
    let twice = funded(&once, &amount, true);
    assert!(funding_targets(&twice, &amount, true).is_empty());
    assert_eq!(funded(&twice, &amount, true), twice);
}

#[test]
fn a_transfer_goes_to_the_account_that_was_made() {
    let amount = wei(7);
    let (pair, address) = feth::keys::account_of_entropy(&[3u8; 16]).unwrap();
    assert_eq!(target_of(Some((pair, address)), &amount), Some((address, amount)));
    assert_eq!(target_of(None, &amount), None);
}

#[test]
fn no_transfers_need_no_keys() {
    assert_eq!(fresh_targets(0, &wei(1)), Some(Vec::new()));
    assert_eq!(fresh_targets(0, &U256::max_value()), Some(Vec::new()));
}

#[test]
fn fresh_targets_are_addresses_of_accounts() {
    let targets = fresh_targets(3, &wei(9)).unwrap();
    assert_eq!(targets.len(), 3);
    for (address, amount) in &targets {
        assert_eq!(*amount, wei(9));
        assert_ne!(*address, Address { bytes: [0; 20] });
    }
}

#[test]
fn the_sources_kept_are_those_that_take_part_in_their_order() {
    let amount = wei(10);
    let balances = [101u64, 100, 0, 500, 99, 101, 1000];
    let accounts: Vec<_> = balances
        .iter()
        .enumerate()
        .map(|(i, b)| Account { address: addr(i as u8), balance: wei(*b) })
        .collect();
    let chosen = select_sources(&accounts, &amount, 10, true);
    assert_eq!(chosen, vec![0, 3, 5, 6]);
    for (i, account) in accounts.iter().enumerate() {
        assert_eq!(
            chosen.contains(&i),
            source_takes_part(&account.balance, &amount, 10, true)
        );
    }
    assert!(chosen.windows(2).all(|w| w[0] < w[1]));
    assert_eq!(select_sources(&accounts, &amount, 10, false), vec![0, 1, 2, 3, 4, 5, 6]);
}
