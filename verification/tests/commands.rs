use feth::commands::{Network, TestMode};
use std::str::FromStr;

fn url_of(text: &str) -> String {
    Network::parse(text).unwrap().get_url().to_string()
}

fn why_not(text: &str) -> String {
    Network::parse(text).unwrap_err()
}

#[test]
fn the_named_networks_have_their_nodes() {
    assert!(matches!(Network::parse("local"), Ok(Network::Local(u)) if u == "http://localhost:8545"));
    assert!(matches!(
        Network::parse("anvil"),
        Ok(Network::Anvil(u)) if u == "https://prod-testnet.prod.findora.org:8545"
    ));
    assert!(matches!(
        Network::parse("main"),
        Ok(Network::Main(u)) if u == "https://prod-mainnet.prod.findora.org:8545"
    ));
    assert!(matches!(
        Network::parse("test"),
        Ok(Network::Test(u)) if u == "http://34.211.109.216:8545"
    ));
    assert_eq!(url_of("local"), "http://localhost:8545");
}

#[test]
fn a_qa_cluster_is_named_by_its_number() {
    assert!(matches!(Network::parse("qa,1"), Ok(Network::Qa(_))));
    assert_eq!(url_of("qa,1"), "https://dev-qa01.dev.findora.org:8545");
    assert_eq!(url_of("qa,01"), "https://dev-qa01.dev.findora.org:8545");
    assert_eq!(url_of("qa,+7"), "https://dev-qa07.dev.findora.org:8545");
    assert_eq!(url_of("qa,12"), "https://dev-qa12.dev.findora.org:8545");
    assert_eq!(url_of("qa,123"), "https://dev-qa123.dev.findora.org:8545");
    assert_eq!(url_of("qa,0"), "https://dev-qa00.dev.findora.org:8545");
    assert_eq!(url_of("qa,4294967295"), "https://dev-qa4294967295.dev.findora.org:8545");
}

#[test]
fn a_qa_node_is_named_by_cluster_and_node() {
    assert_eq!(
        url_of("qa,01,02"),
        "http://dev-qa01-us-west-2-full-002-open.dev.findora.org:8545"
    );
    assert_eq!(
        url_of("qa,3,1234"),
        "http://dev-qa03-us-west-2-full-1234-open.dev.findora.org:8545"
    );
    assert_eq!(
        url_of("qa,10,0"),
        "http://dev-qa10-us-west-2-full-000-open.dev.findora.org:8545"
    );
}

#[test]
fn what_names_no_network_says_why() {
    assert_eq!(why_not(""), "Invalid network");
    assert_eq!(why_not("mainnet"), "Invalid network");
    assert_eq!(why_not("Local"), "Invalid network");
    assert_eq!(why_not("q"), "Invalid network");
    assert_eq!(why_not("node1"), "Invalid network");
    assert_eq!(why_not("http://localhost:8545"), "Invalid network");
    assert_eq!(why_not("qa"), "Please provide a cluster num at least");
    assert_eq!(why_not("qa01"), "Please provide a cluster num at least");
    assert_eq!(why_not("qa1,2"), "Just for qa environment");
    assert_eq!(why_not("qa ,2"), "Just for qa environment");
    assert_eq!(why_not("qa,"), "QA env num is a 32-bit integer");
    assert_eq!(why_not("qa,x"), "QA env num is a 32-bit integer");
    assert_eq!(why_not("qa,-1"), "QA env num is a 32-bit integer");
    assert_eq!(why_not("qa, 1"), "QA env num is a 32-bit integer");
    assert_eq!(why_not("qa,4294967296"), "QA env num is a 32-bit integer");
    assert_eq!(why_not("qa,,"), "QA env num is a 32-bit integer");
    assert_eq!(why_not("qa,1,"), "Node num should be a 32-bit integer");
    assert_eq!(why_not("qa,1,x"), "Node num should be a 32-bit integer");
    assert_eq!(why_not("qa,1,2,3"), "Node num should be a 32-bit integer");
    assert_eq!(why_not("qa,1,4294967296"), "Node num should be a 32-bit integer");
    assert_eq!(why_not("qa,x,y"), "QA env num is a 32-bit integer");
}

#[test]
fn networks_are_read_from_text() {
    let n: Network = "qa,2".parse().unwrap();
    assert_eq!(n.get_url(), "https://dev-qa02.dev.findora.org:8545");
    assert_eq!(Network::from_str("nowhere").unwrap_err(), "Invalid network");
}

#[test]
fn every_kind_of_network_gives_its_url() {
    let url = "http://example.org".to_string();
    assert_eq!(Network::Local(url.clone()).get_url(), url);
    assert_eq!(Network::Anvil(url.clone()).get_url(), url);
    assert_eq!(Network::Main(url.clone()).get_url(), url);
    assert_eq!(Network::Test(url.clone()).get_url(), url);
    assert_eq!(Network::Qa(url.clone()).get_url(), url);
}

#[test]
fn test_modes_are_read_in_any_case() {
    assert_eq!(TestMode::parse("basic"), Ok(TestMode::Basic));
    assert_eq!(TestMode::parse("BASIC"), Ok(TestMode::Basic));
    assert_eq!(TestMode::parse("Contract"), Ok(TestMode::Contract));
    assert_eq!("cOnTrAcT".parse::<TestMode>(), Ok(TestMode::Contract));
    assert_eq!(TestMode::from_str("basic"), Ok(TestMode::Basic));
}

#[test]
fn other_test_modes_are_refused() {
    for text in ["", "basics", " basic", "contract ", "both", "bas\u{131}c"] {
        assert_eq!(
            TestMode::parse(text),
            Err("Invalid mode: basic and contract are supported".to_string())
        );
    }
}

#[test]
fn a_mode_in_lower_case_is_read_as_it_is() {
    assert_eq!(TestMode::from_lowercase("basic"), Ok(TestMode::Basic));
    assert_eq!(TestMode::from_lowercase("contract"), Ok(TestMode::Contract));
    assert!(TestMode::from_lowercase("BASIC").is_err());
}

#[test]
fn reading_from_text_is_parsing() {
    for text in ["local", "anvil", "main", "test", "qa,1", "qa,01,02", "qa", "qa,x", "", "node1"] {
        let read = Network::from_str(text).map(|n| n.get_url().to_string());
        let parsed = Network::parse(text).map(|n| n.get_url().to_string());
        assert_eq!(read, parsed, "network {:?}", text);
    }
    for text in ["basic", "Basic", "CONTRACT", "contract", "", "other"] {
        assert_eq!(TestMode::from_str(text), TestMode::parse(text), "mode {:?}", text);
    }
    assert_eq!(TestMode::from_str("BaSiC"), Ok(TestMode::Basic));
    assert_eq!(
        Network::from_str("qa,7").unwrap().get_url(),
        "https://dev-qa07.dev.findora.org:8545"
    );
}
