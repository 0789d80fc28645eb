use feth::dispatcher::{Action, Dispatcher, Event, Phase};
use feth::error::Error;
use feth::overflow::{should_park, OverflowFlag, CLEAR};
use feth::types::{Address, H256};
use feth::u256::U256;
use rayon::iter::{IntoParallelIterator, ParallelIterator};

#[test]
fn a_clear_flag_parks_nobody() {
    for id in [1usize, 2, 77] {
        assert!(!should_park(CLEAR, id));
    }
}

#[test]
fn the_probe_itself_is_not_parked_and_all_others_are() {
    assert!(!should_park(3, 3));
    assert!(should_park(3, 1));
    assert!(should_park(3, 4));
    assert!(should_park(1, usize::MAX));
}

#[test]
fn only_one_worker_acquires_and_only_it_releases() {
    let flag = OverflowFlag::new();
    assert_eq!(flag.load(), CLEAR);
    assert!(flag.try_acquire(2));
    assert_eq!(flag.load(), 2);
    assert!(!flag.try_acquire(3));
    assert!(!flag.try_acquire(2));
    assert_eq!(flag.load(), 2);
    assert!(flag.check_wait_overflow(3));
    assert!(!flag.check_wait_overflow(2));
    assert!(!flag.try_release(3));
    assert_eq!(flag.load(), 2);
    assert!(flag.try_release(2));
    assert_eq!(flag.load(), CLEAR);
    assert!(!flag.try_release(2));
    assert!(!flag.check_wait_overflow(3));
}

struct Worker {
    id: usize,
    dispatcher: Dispatcher,
    submissions: u32,
    taken: Vec<u64>,
    slept: Vec<u64>,
    acquired: bool,
    released: bool,
}

fn hash_of(id: usize, nonce: u64) -> H256 {
    let mut bytes = [id as u8; 32];
    bytes[31] = nonce as u8;
    H256 { bytes }
}

/// One step of one worker against the shared flag. The first submission of
/// every worker finds the mempool full.
fn step(w: &mut Worker, flag: &OverflowFlag) {
    let event = match w.dispatcher.action() {
        Action::FetchChainId => Event::ChainId(Some(1)),
        Action::FetchGasPrice => Event::GasPrice(Some(U256::from_u64(1))),
        Action::FetchNonce => Event::Nonce(Some(U256::from_u64(w.taken.len() as u64))),
        Action::Sign(p) => Event::Signed(Some(vec![p.nonce.limbs[0] as u8])),
        Action::LoadFlag => Event::Flag(flag.load()),
        Action::AcquireFlag => {
            let done = flag.try_acquire(w.id);
            w.acquired |= done;
            Event::Swapped(done)
        }
        Action::ReleaseFlag => {
            let done = flag.try_release(w.id);
            w.released |= done;
            Event::Swapped(done)
        }
        Action::Submit(raw) => {
            w.submissions += 1;
            if w.submissions == 1 {
                Event::Submitted(Err(Error::SyncTx))
            } else {
                w.taken.push(raw[0] as u64);
                Event::Submitted(Ok(hash_of(w.id, raw[0] as u64)))
            }
        }
        Action::Sleep(secs) => {
            w.slept.push(secs);
            Event::Slept
        }
        Action::PollReceipt(_) => Event::Receipt(None),
        Action::Finished | Action::Skipped | Action::Fault(_) => return,
    };
    w.dispatcher.handle(event);
}

#[test]
fn four_workers_with_a_full_mempool_elect_one_probe() {
    let flag = OverflowFlag::new();
    let mut workers: Vec<Worker> = (1..=4usize)
        .map(|id| Worker {
            id,
            dispatcher: Dispatcher::new(
                id,
                Address { bytes: [id as u8; 20] },
                vec![
                    (Address { bytes: [50; 20] }, U256::from_u64(1)),
                    (Address { bytes: [51; 20] }, U256::from_u64(2)),
                ],
                Some(2),
                false,
                true,
            ),
            submissions: 0,
            taken: vec![],
            slept: vec![],
            acquired: false,
            released: false,
        })
        .collect();

    // All four reach their first submission and are refused.
    for w in workers.iter_mut() {
        while w.dispatcher.phase() != Phase::Acquire {
            step(w, &flag);
        }
    }
    assert_eq!(flag.load(), CLEAR);
    // All four try to become the probe; worker 3 is first.
    for i in [2usize, 0, 1, 3] {
        step(&mut workers[i], &flag);
    }
    assert_eq!(flag.load(), 3);
    let probes: Vec<_> = workers.iter().filter(|w| w.acquired).map(|w| w.id).collect();
    assert_eq!(probes, vec![3]);

    // The others wait for as long as the flag is held.
    for round in 0..5 {
        for i in [0usize, 1, 3] {
            step(&mut workers[i], &flag);
            step(&mut workers[i], &flag);
            assert_eq!(workers[i].slept.len(), round + 1);
            assert!(workers[i].slept.iter().all(|s| *s == 3));
            assert!(workers[i].taken.is_empty());
        }
        assert!(at_most_one_probes(&workers, &flag));
    }

    // The probe goes on alone until its transfer is taken, and clears.
    while !workers[2].released {
        step(&mut workers[2], &flag);
        assert!(at_most_one_probes(&workers, &flag));
    }
    assert_eq!(flag.load(), CLEAR);
    assert_eq!(workers[2].taken, vec![0]);
    assert!(workers[2].slept.is_empty());

    // Now everybody goes on to the second transfer and finishes.
    for _ in 0..200 {
        for w in workers.iter_mut() {
            step(w, &flag);
        }
        assert!(at_most_one_probes(&workers, &flag));
    }
    for w in workers.iter() {
        assert_eq!(w.dispatcher.phase(), Phase::Finished);
        let m = w.dispatcher.metrics().unwrap();
        assert_eq!(m.txs.len(), 2);
        assert!(m.txs[1].hash.is_some(), "worker {} has sent its second transfer", w.id);
        assert_eq!(w.taken, vec![0, 1]);
    }
    let released: Vec<_> = workers.iter().filter(|w| w.released).map(|w| w.id).collect();
    assert_eq!(released, vec![3]);
    assert_eq!(flag.load(), CLEAR);
}

fn at_most_one_probes(workers: &[Worker], flag: &OverflowFlag) -> bool {
    let value = flag.load();
    workers.iter().filter(|w| value != CLEAR && value == w.id).count() <= 1
}

#[test]
fn the_flag_is_shared_between_threads() {
    let flag = OverflowFlag::new();
    let winners: Vec<bool> =
        (1..=64usize).into_par_iter().map(|id| flag.try_acquire(id)).collect();
    assert_eq!(winners.iter().filter(|w| **w).count(), 1);
    let winner = winners.iter().position(|w| *w).unwrap() + 1;
    assert_eq!(flag.load(), winner);
    assert!(flag.try_release(winner));
}
