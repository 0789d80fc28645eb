use feth::utils::real_network;

fn nodes(network: &str) -> Vec<String> {
    real_network(network).into_iter().map(|n| n.unwrap()).collect()
}

#[test]
fn the_named_networks_stand_for_one_node() {
    assert_eq!(nodes("local"), vec!["http://localhost:8545"]);
    assert_eq!(nodes("anvil"), vec!["https://prod-testnet.prod.findora.org:8545"]);
    assert_eq!(nodes("main"), vec!["https://prod-mainnet.prod.findora.org:8545"]);
    assert_eq!(nodes("test"), vec!["http://34.211.109.216:8545"]);
}

#[test]
fn a_qa_cluster_or_node_stands_for_one_node() {
    assert_eq!(nodes("qa,7"), vec!["https://dev-qa07.dev.findora.org:8545"]);
    assert_eq!(nodes("qa,01"), vec!["https://dev-qa01.dev.findora.org:8545"]);
    assert_eq!(
        nodes("qa,01,02"),
        vec!["http://dev-qa01-us-west-2-full-002-open.dev.findora.org:8545"]
    );
}

#[test]
fn every_named_network_is_that_of_the_test_command() {
    for name in ["local", "anvil", "main", "test", "qa,3", "qa,12,345"] {
        let named = feth::commands::Network::parse(name).unwrap();
        assert_eq!(nodes(name), vec![named.get_url().to_string()]);
    }
}

#[test]
fn a_name_that_is_not_known_is_read_as_a_list() {
    assert!(nodes("mock").is_empty());
    assert!(nodes("qa01").is_empty());
    assert!(nodes("qa").is_empty());
    assert!(nodes("qa,x").is_empty());
    assert_eq!(nodes("qa,http://a.example"), vec!["http://a.example"]);
    assert_eq!(nodes("main,http://a.example"), vec!["http://a.example"]);
}

#[test]
fn a_list_of_urls_stands_for_its_nodes() {
    assert_eq!(
        nodes("http://a.example:8545,https://b.example"),
        vec!["http://a.example:8545", "https://b.example"]
    );
    assert_eq!(nodes("http://a.example:8545"), vec!["http://a.example:8545"]);
}

#[test]
fn white_space_around_a_url_does_not_count() {
    assert_eq!(
        nodes(" http://a.example:8545 ,\thttps://b.example\n"),
        vec!["http://a.example:8545", "https://b.example"]
    );
}

#[test]
fn what_is_no_url_is_left_out() {
    assert_eq!(nodes("http://a.example,,nonsense, ,https://b.example,"), vec!["http://a.example", "https://b.example"]);
    assert!(nodes("").is_empty());
    assert!(nodes("qa03").is_empty());
    assert!(nodes("Main").is_empty());
    assert!(nodes("Local").is_empty());
    assert!(nodes("http://[::1").is_empty());
    assert!(nodes("//a.example").is_empty());
}

#[test]
fn every_node_is_present() {
    assert!(real_network("http://a.example,b").iter().all(|n| n.is_some()));
    assert_eq!(real_network("http://a.example,b").len(), 1);
    assert_eq!(real_network("local"), vec![Some("http://localhost:8545".to_string())]);
}
