use rate::iface::{filter_interfaces, should_skip};

#[test]
fn exclusion_filter() {
    let names: Vec<String> = ["lo", "eth0", "vnet3", "virbr0", "wlan0"]
        .iter()
        .map(|s| s.to_string())
        .collect();
    assert_eq!(filter_interfaces(&names), vec!["eth0".to_string(), "wlan0".to_string()]);
}

#[test]
fn skip_rules() {
    assert!(should_skip("lo"));
    assert!(!should_skip("lo0"));
    assert!(!should_skip("l"));
    assert!(should_skip("vnet"));
    assert!(should_skip("virbr0-nic"));
    assert!(!should_skip("vir"));
    assert!(!should_skip("eth0"));
    assert!(!should_skip(""));
}

#[test]
fn filter_of_empty_list() {
    assert_eq!(filter_interfaces(&Vec::new()), Vec::<String>::new());
}
