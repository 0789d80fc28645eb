//! Worker-pool sizing, host facts and the nodes that a network's name
//! stands for.

use crate::commands::{network_of, Network};
use crate::text::{chars_of, split, split_chars, string_of, trim, trimmed, views};
use vstd::prelude::*;

verus! {

/// How many workers a run may ask for, for each logical CPU.
pub const WORKERS_PER_CPU: u64 = 1000;

/// `num_cpus::get`: the number of logical CPUs that this process may use,
/// at least one.
#[verifier::external_body]
pub fn log_cpus() -> (n: u64)
    ensures
        n >= 1,
{
    num_cpus::get() as u64
}

/// Whether a run may ask for `max_parallelism` workers on a machine with
/// `cpus` logical CPUs: at least one, and no more than a thousand for each
/// CPU.
pub open spec fn parallelism_allowed(max_parallelism: u64, cpus: u64) -> bool {
    max_parallelism != 0 && max_parallelism <= cpus * WORKERS_PER_CPU
}

/// Whether a run may ask for `max_parallelism` workers on a machine with
/// `cpus` logical CPUs.
pub fn parallelism_ok(max_parallelism: u64, cpus: u64) -> (ok: bool)
    ensures
        ok == parallelism_allowed(max_parallelism, cpus),
{
    if max_parallelism == 0 {
        false
    } else {
        match cpus.checked_mul(WORKERS_PER_CPU) {
            Some(limit) => max_parallelism <= limit,
            None => true,
        }
    }
}

/// Whether a run may ask for `max_parallelism` workers on this machine,
/// whatever number of logical CPUs it has.
pub fn check_parallel_args(max_parallelism: u64) -> (ok: bool)
    ensures
        exists|cpus: u64| cpus >= 1 && ok == #[trigger] parallelism_allowed(max_parallelism, cpus),
{
    let cpus = log_cpus();
    let ok = parallelism_ok(max_parallelism, cpus);
    assert(ok == parallelism_allowed(max_parallelism, cpus));
    ok
}

/// `value` held between `low` and `high`.
pub open spec fn clamp(value: int, low: int, high: int) -> int {
    if value < low {
        low
    } else if value > high {
        high
    } else {
        value
    }
}

/// Number of workers for `num_sources` sources: twice the sources, at least
/// one, at most `max_parallelism`.
pub fn calc_pool_size(num_sources: usize, max_parallelism: usize) -> (size: usize)
    requires
        max_parallelism >= 1,
    ensures
        size == clamp(num_sources * 2, 1, max_parallelism as int),
{
    if num_sources == 0 {
        1
    } else if num_sources >= max_parallelism {
        max_parallelism
    } else if num_sources > max_parallelism - num_sources {
        max_parallelism
    } else {
        num_sources + num_sources
    }
}

/// The number of workers that a run starts with: none where it may not
/// ask for `max_parallelism` workers on a machine with `cpus` logical
/// CPUs; else twice the sources, at least one, at most `max_parallelism`.
pub open spec fn pool_size_of(num_sources: usize, max_parallelism: u64, cpus: u64) -> Option<int> {
    if parallelism_allowed(max_parallelism, cpus) && max_parallelism <= usize::MAX {
        Some(clamp(num_sources * 2, 1, max_parallelism as int))
    } else {
        None
    }
}

/// The number of workers that a run starts with; see [`pool_size_of`].
pub fn pool_size(num_sources: usize, max_parallelism: u64, cpus: u64) -> (size: Option<usize>)
    ensures
        match size {
            Some(n) => pool_size_of(num_sources, max_parallelism, cpus) == Some(n as int),
            None => pool_size_of(num_sources, max_parallelism, cpus) is None,
        },
{
    if !parallelism_ok(max_parallelism, cpus) || max_parallelism > usize::MAX as u64 {
        None
    } else {
        Some(calc_pool_size(num_sources, max_parallelism as usize))
    }
}

/// Whether `url::Url::parse` reads `text` as an absolute URL.
pub uninterp spec fn is_absolute_url(text: Seq<char>) -> bool;

/// `url::Url::parse`: whether `text` is read as an absolute URL.
#[verifier::external_body]
pub(crate) fn parses_as_url(text: &str) -> (ok: bool)
    ensures
        ok == is_absolute_url(text@),
{
    url::Url::parse(text).is_ok()
}

/// The node's address in one piece of a list: the piece without the
/// whitespace around it, where that is an absolute URL.
pub open spec fn endpoint_of(piece: Seq<char>) -> Option<Seq<char>> {
    let inner = trimmed(piece);
    if inner.len() > 0 && is_absolute_url(inner) {
        Some(inner)
    } else {
        None
    }
}

/// The nodes' addresses in the first `upto` of `pieces`, in order.
pub open spec fn endpoints_in(pieces: Seq<Seq<char>>, upto: int) -> Seq<Seq<char>>
    decreases upto,
{
    if upto <= 0 {
        Seq::empty()
    } else {
        match endpoint_of(pieces[upto - 1]) {
            Some(url) => endpoints_in(pieces, upto - 1).push(url),
            None => endpoints_in(pieces, upto - 1),
        }
    }
}

/// The address of the node that the name `network` stands for, where it
/// is one of the names known: `local`, `anvil`, `main`, `test`, or a QA
/// cluster or one of its nodes, as `qa,7` or `qa,7,12`.
pub open spec fn preset_of(network: Seq<char>) -> Option<Seq<char>> {
    match network_of(network) {
        Ok((_, url)) => Some(url),
        Err(_) => None,
    }
}

/// The addresses of the nodes that `network` stands for: that of a name
/// known, or else each piece of a list with commas that is an absolute
/// URL. What is no URL is left out.
pub open spec fn endpoints_of(network: Seq<char>) -> Seq<Seq<char>> {
    match preset_of(network) {
        Some(url) => seq![url],
        None => endpoints_in(split(network, ','), split(network, ',').len() as int),
    }
}

/// The address of the node that the name `network` stands for.
fn preset(network: &str) -> (r: Option<String>)
    ensures
        match r {
            Some(url) => preset_of(network@) == Some(url@),
            None => preset_of(network@) is None,
        },
{
    match Network::parse(network) {
        Ok(named) => Some(String::from_str(named.get_url())),
        Err(_) => None,
    }
}

/// The texts of `nodes`, as contracts see them.
pub open spec fn node_views(nodes: Seq<Option<String>>) -> Seq<Option<Seq<char>>> {
    nodes.map_values(
        |n: Option<String>|
            match n {
                Some(s) => Some(s@),
                None => None,
            },
    )
}

/// The addresses of the nodes that `network` stands for, each of them
/// present; see [`endpoints_of`].
pub fn real_network(network: &str) -> (nodes: Vec<Option<String>>)
    ensures
        node_views(nodes@) == endpoints_of(network@).map_values(|url: Seq<char>| Some(url)),
{
    let mut nodes: Vec<Option<String>> = Vec::new();
    match preset(network) {
        Some(url) => {
            let ghost text = url@;
            nodes.push(Some(url));
            assert(node_views(nodes@) =~= seq![text].map_values(|u: Seq<char>| Some(u)));
            nodes
        },
        None => {
            let chars = chars_of(network);
            let pieces = split_chars(&chars, ',');
            let ghost all = split(network@, ',');
            let mut i: usize = 0;
            assert(node_views(nodes@) =~= endpoints_in(all, 0).map_values(
                |u: Seq<char>| Some(u),
            ));
            while i < pieces.len()
                invariant
                    i <= pieces.len(),
                    all == views(pieces@),
                    node_views(nodes@) == endpoints_in(all, i as int).map_values(
                        |u: Seq<char>| Some(u),
                    ),
                decreases pieces.len() - i,
            {
                let piece = string_of(&pieces[i]);
                let inner = trim(piece.as_str());
                assert(all[i as int] == piece@);
                let ghost before = nodes@;
                if !inner.is_empty() && parses_as_url(inner) {
                    nodes.push(Some(String::from_str(inner)));
                    assert(node_views(nodes@) =~= node_views(before).push(Some(inner@)));
                    assert(endpoints_in(all, i + 1).map_values(|u: Seq<char>| Some(u))
                        =~= endpoints_in(all, i as int).map_values(|u: Seq<char>| Some(u)).push(
                        Some(inner@),
                    ));
                }
                i += 1;
            }
            nodes
        },
    }
}

} // verus!
