use beacon_termination::ip_prefix::{truncate_ip_to_prefix, IpAddress};

fn v4(a: u8, b: u8, c: u8, d: u8) -> u32 {
    ((a as u32) << 24) | ((b as u32) << 16) | ((c as u32) << 8) | (d as u32)
}

#[test]
fn v4_truncates_to_28_bit_prefix() {
    let out = truncate_ip_to_prefix(IpAddress::V4(v4(203, 0, 113, 99))).unwrap();
    assert_eq!(out, b"203.0.113.96/28".to_vec());
}

#[test]
fn v4_truncation_zeroes_exactly_low_four_bits() {
    // 0x63 = 99 -> 0x60 = 96; higher octets untouched
    let out = truncate_ip_to_prefix(IpAddress::V4(v4(167, 98, 105, 191))).unwrap();
    assert_eq!(out, b"167.98.105.176/28".to_vec());
}

#[test]
fn v4_truncation_is_idempotent() {
    let first = truncate_ip_to_prefix(IpAddress::V4(v4(10, 1, 2, 47))).unwrap();
    assert_eq!(first, b"10.1.2.32/28".to_vec());
    // re-truncating the network address changes nothing
    let again = truncate_ip_to_prefix(IpAddress::V4(v4(10, 1, 2, 32))).unwrap();
    assert_eq!(again, first);
}

#[test]
fn v6_truncates_to_56_bit_prefix() {
    let addr: u128 = 0x2001_0db8_85a3_08d3_1319_8a2e_0370_7344;
    let out = truncate_ip_to_prefix(IpAddress::V6(addr)).unwrap();
    assert_eq!(out, b"2001:db8:85a3:800::/56".to_vec());
}

#[test]
fn v6_truncation_is_idempotent() {
    let addr: u128 = 0x2001_0db8_85a3_08d3_1319_8a2e_0370_7344;
    let network: u128 = 0x2001_0db8_85a3_0800_0000_0000_0000_0000;
    let first = truncate_ip_to_prefix(IpAddress::V6(addr)).unwrap();
    let again = truncate_ip_to_prefix(IpAddress::V6(network)).unwrap();
    assert_eq!(first, again);
}

#[test]
fn v6_all_zero_network_renders_as_double_colon() {
    let out = truncate_ip_to_prefix(IpAddress::V6(1)).unwrap();
    assert_eq!(out, b"::/56".to_vec());
}

#[test]
fn v6_longest_zero_run_wins_compression() {
    // leading run of two zero groups loses to the four zeroed host groups
    let addr: u128 = 0x0000_0000_0db8_85a3_0000_0000_0000_0001;
    let out = truncate_ip_to_prefix(IpAddress::V6(addr)).unwrap();
    assert_eq!(out, b"0:0:db8:8500::/56".to_vec());
}
