use acid64c::utils::network::{is_ip_in_local_network, is_local, is_local_ip_address, mask_ip_address, resolve_local_ip, text_to_u8};

fn strings(list: &[&str]) -> Vec<String> {
    list.iter().map(|s| s.to_string()).collect()
}

#[test]
fn local_addresses() {
    assert!(is_local("127.0.0.1"));
    assert!(is_local("10.1.2.3"));
    assert!(is_local("172.16.0.1"));
    assert!(!is_local("172.32.0.1"));
    assert!(is_local("192.168.1.64"));
    assert!(!is_local("8.8.8.8"));
    assert!(!is_local("192.168.01.1"));
    assert!(!is_local("localhost"));
}

#[test]
fn masks() {
    assert_eq!(mask_ip_address("192.168.1.64", "255.255.255.0"), Ok("192.168.1.0".to_string()));
    assert_eq!(mask_ip_address("192.168.1", "255.255.255.0"), Err("Invalid ip or netmask.".to_string()));
    assert_eq!(text_to_u8("300"), 0);
}

#[test]
fn local_network() {
    let interfaces = vec![("192.168.1.10".to_string(), "255.255.255.0".to_string())];
    assert!(is_ip_in_local_network("192.168.1.64", &interfaces));
    assert!(!is_ip_in_local_network("192.168.2.64", &interfaces));
    assert_eq!(resolve_local_ip(&strings(&["8.8.8.8", "192.168.1.64"])), Some("192.168.1.64".to_string()));
    assert!(is_local_ip_address(&strings(&["8.8.8.8", "192.168.1.64"]), &interfaces));
    assert!(!is_local_ip_address(&strings(&["8.8.8.8"]), &interfaces));
}
