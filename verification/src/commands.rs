//! What a run is told on the command line: the kind of test and the network.

use crate::text::{
    begins_with, chars_of, decimal, decimal_of, find_char, number_of, occurs_at, pad_left,
    padded, parse_u32, position_of, same_chars, same_text, slice_of, string_of,
};
use vstd::prelude::*;

verus! {

/// The kind of transactions that a test sends.
#[derive(Debug, Clone, Copy, PartialEq, Eq)]
pub enum TestMode {
    /// Plain transfers of value.
    Basic,
    /// Calls of a contract.
    Contract,
}

/// What `str::to_lowercase` makes of a text.
pub uninterp spec fn lowercase(text: Seq<char>) -> Seq<char>;

/// `str::to_lowercase`: the text with each character replaced by its
/// lowercase form.
#[verifier::external_body]
fn to_lowercase(text: &str) -> (lower: String)
    ensures
        lower@ == lowercase(text@),
{
    text.to_lowercase()
}

/// The test mode that a text in lower case names.
pub open spec fn mode_named(lower: Seq<char>) -> Option<TestMode> {
    if lower == "basic"@ {
        Some(TestMode::Basic)
    } else if lower == "contract"@ {
        Some(TestMode::Contract)
    } else {
        None
    }
}

impl TestMode {
    /// The test mode that `lower` names, a text in lower case: `basic` or
    /// `contract`.
    pub fn from_lowercase(lower: &str) -> (r: core::result::Result<TestMode, String>)
        ensures
            match r {
                Ok(mode) => mode_named(lower@) == Some(mode),
                Err(why) => mode_named(lower@) is None && why@
                    == "Invalid mode: basic and contract are supported"@,
            },
    {
        if same_text(lower, "basic") {
            Ok(TestMode::Basic)
        } else if same_text(lower, "contract") {
            Ok(TestMode::Contract)
        } else {
            Err(String::from_str("Invalid mode: basic and contract are supported"))
        }
    }

    /// The test mode that `text` names, in whatever case it is written.
    pub fn parse(text: &str) -> (r: core::result::Result<TestMode, String>)
        ensures
            match r {
                Ok(mode) => mode_named(lowercase(text@)) == Some(mode),
                Err(why) => mode_named(lowercase(text@)) is None && why@
                    == "Invalid mode: basic and contract are supported"@,
            },
    {
        let lower = to_lowercase(text);
        TestMode::from_lowercase(lower.as_str())
    }
}

impl std::str::FromStr for TestMode {
    type Err = String;

    /// The test mode that `s` names, in whatever case it is written.
    fn from_str(s: &str) -> (r: core::result::Result<TestMode, String>)
        ensures
            match r {
                Ok(mode) => mode_named(lowercase(s@)) == Some(mode),
                Err(why) => mode_named(lowercase(s@)) is None && why@
                    == "Invalid mode: basic and contract are supported"@,
            },
    {
        TestMode::parse(s)
    }
}

/// A network to test, with the address of its node.
#[derive(Debug)]
pub enum Network {
    /// A node on this machine.
    Local(String),
    /// The public test network.
    Anvil(String),
    /// The main network.
    Main(String),
    /// The test node.
    Test(String),
    /// A node of a QA cluster.
    Qa(String),
}

/// The kinds of network.
#[derive(Debug, Clone, Copy, PartialEq, Eq)]
pub enum NetworkKind {
    Local,
    Anvil,
    Main,
    Test,
    Qa,
}

impl View for Network {
    type V = (NetworkKind, Seq<char>);

    open spec fn view(&self) -> (NetworkKind, Seq<char>) {
        match *self {
            Network::Local(url) => (NetworkKind::Local, url@),
            Network::Anvil(url) => (NetworkKind::Anvil, url@),
            Network::Main(url) => (NetworkKind::Main, url@),
            Network::Test(url) => (NetworkKind::Test, url@),
            Network::Qa(url) => (NetworkKind::Qa, url@),
        }
    }
}

/// The address of the first node of QA cluster `cluster`.
pub open spec fn qa_cluster_url(cluster: nat) -> Seq<char> {
    "https://dev-qa"@ + padded(decimal(cluster), 2, '0') + ".dev.findora.org:8545"@
}

/// The address of node `node` of QA cluster `cluster`.
pub open spec fn qa_node_url(cluster: nat, node: nat) -> Seq<char> {
    "http://dev-qa"@ + padded(decimal(cluster), 2, '0') + "-us-west-2-full-"@ + padded(
        decimal(node),
        3,
        '0',
    ) + "-open.dev.findora.org:8545"@
}

/// The QA network that `s` names: `qa`, a comma and the cluster's number,
/// and perhaps a second comma and the node's number.
pub open spec fn qa_network_of(s: Seq<char>) -> core::result::Result<
    (NetworkKind, Seq<char>),
    Seq<char>,
> {
    let first = position_of(s, ',', 0);
    let second = position_of(s, ',', first + 1);
    if first >= s.len() {
        Err("Please provide a cluster num at least"@)
    } else if s.subrange(0, first) != "qa"@ {
        Err("Just for qa environment"@)
    } else {
        match number_of(s.subrange(first + 1, second), u32::MAX as nat) {
            None => Err("QA env num is a 32-bit integer"@),
            Some(cluster) => if second >= s.len() {
                Ok((NetworkKind::Qa, qa_cluster_url(cluster)))
            } else {
                match number_of(s.subrange(second + 1, s.len() as int), u32::MAX as nat) {
                    None => Err("Node num should be a 32-bit integer"@),
                    Some(node) => Ok((NetworkKind::Qa, qa_node_url(cluster, node))),
                }
            },
        }
    }
}

/// The network that `s` names, or why it names none.
pub open spec fn network_of(s: Seq<char>) -> core::result::Result<
    (NetworkKind, Seq<char>),
    Seq<char>,
> {
    if s == "local"@ {
        Ok((NetworkKind::Local, "http://localhost:8545"@))
    } else if s == "anvil"@ {
        Ok((NetworkKind::Anvil, "https://prod-testnet.prod.findora.org:8545"@))
    } else if s == "main"@ {
        Ok((NetworkKind::Main, "https://prod-mainnet.prod.findora.org:8545"@))
    } else if s == "test"@ {
        Ok((NetworkKind::Test, "http://34.211.109.216:8545"@))
    } else if occurs_at(s, "qa"@, 0) {
        qa_network_of(s)
    } else {
        Err("Invalid network"@)
    }
}

/// The number `n` in base ten, with zeros in front up to `width` digits.
fn zero_padded(n: u32, width: usize) -> (out: String)
    ensures
        out@ == padded(decimal(n as nat), width as nat, '0'),
{
    let digits = decimal_of(n as u64);
    let all = pad_left(&digits, width, '0');
    string_of(&all)
}

impl Network {
    /// The address of the network's node.
    pub fn get_url(&self) -> (url: &str)
        ensures
            url@ == self@.1,
    {
        match self {
            Network::Local(url) => url.as_str(),
            Network::Anvil(url) => url.as_str(),
            Network::Main(url) => url.as_str(),
            Network::Test(url) => url.as_str(),
            Network::Qa(url) => url.as_str(),
        }
    }

    /// The QA network that `s` names.
    fn parse_qa(s: &Vec<char>) -> (r: core::result::Result<Network, String>)
        ensures
            match r {
                Ok(network) => qa_network_of(s@) == Ok::<_, Seq<char>>(network@),
                Err(why) => qa_network_of(s@) == Err::<(NetworkKind, Seq<char>), _>(why@),
            },
    {
        let first = find_char(s, ',', 0);
        if first >= s.len() {
            return Err(String::from_str("Please provide a cluster num at least"));
        }
        let head = slice_of(s, 0, first);
        let qa = chars_of("qa");
        if !same_chars(&head, &qa) {
            return Err(String::from_str("Just for qa environment"));
        }
        let second = find_char(s, ',', first + 1);
        let cluster_text = slice_of(s, first + 1, second);
        let cluster = match parse_u32(&cluster_text) {
            Some(n) => n,
            None => {
                return Err(String::from_str("QA env num is a 32-bit integer"));
            },
        };
        if second >= s.len() {
            let url = String::from_str("https://dev-qa").concat(
                zero_padded(cluster, 2).as_str(),
            ).concat(".dev.findora.org:8545");
            return Ok(Network::Qa(url));
        }
        let node_text = slice_of(s, second + 1, s.len());
        match parse_u32(&node_text) {
            None => Err(String::from_str("Node num should be a 32-bit integer")),
            Some(node) => {
                let url = String::from_str("http://dev-qa").concat(
                    zero_padded(cluster, 2).as_str(),
                ).concat("-us-west-2-full-").concat(zero_padded(node, 3).as_str()).concat(
                    "-open.dev.findora.org:8545",
                );
                Ok(Network::Qa(url))
            },
        }
    }

    /// The network that `s` names: one of `local`, `anvil`, `main` and
    /// `test`, or a QA cluster as `qa,7` or one of its nodes as `qa,7,12`.
    pub fn parse(s: &str) -> (r: core::result::Result<Network, String>)
        ensures
            match r {
                Ok(network) => network_of(s@) == Ok::<_, Seq<char>>(network@),
                Err(why) => network_of(s@) == Err::<(NetworkKind, Seq<char>), _>(why@),
            },
    {
        if same_text(s, "local") {
            Ok(Network::Local(String::from_str("http://localhost:8545")))
        } else if same_text(s, "anvil") {
            Ok(Network::Anvil(String::from_str("https://prod-testnet.prod.findora.org:8545")))
        } else if same_text(s, "main") {
            Ok(Network::Main(String::from_str("https://prod-mainnet.prod.findora.org:8545")))
        } else if same_text(s, "test") {
            Ok(Network::Test(String::from_str("http://34.211.109.216:8545")))
        } else {
            let chars = chars_of(s);
            let qa = chars_of("qa");
            if begins_with(&chars, &qa) {
                Network::parse_qa(&chars)
            } else {
                Err(String::from_str("Invalid network"))
            }
        }
    }
}

impl std::str::FromStr for Network {
    type Err = String;

    /// The network that `s` names, or why it names none; see
    /// [`network_of`].
    fn from_str(s: &str) -> (r: core::result::Result<Network, String>)
        ensures
            match r {
                Ok(network) => network_of(s@) == Ok::<_, Seq<char>>(network@),
                Err(why) => network_of(s@) == Err::<(NetworkKind, Seq<char>), _>(why@),
            },
    {
        Network::parse(s)
    }
}

} // verus!
