use uniclipboard::utils::{format_device_id, generate_device_id, is_valid_ip, is_valid_port, string_to_32_bytes};

#[test]
fn test_string_to_32_bytes() {
    let input = "test";
    let output = string_to_32_bytes(input);
    assert_eq!(output.len(), 32);
}

#[test]
fn string_to_32_bytes_is_sha256() {
    let output = string_to_32_bytes("test");
    assert_eq!(
        hex::encode(output),
        "9f86d081884c7d659a2feaa0c55ad015a3bf4f1b2b0b822cd15d6c15b0f00a08"
    );
}

#[test]
fn test_generate_device_id() {
    let id = generate_device_id();
    assert_eq!(id.len(), 6);
}

#[test]
fn generated_device_id_is_digits() {
    for _ in 0..20 {
        let id = generate_device_id();
        assert!(id.chars().all(|c| c.is_ascii_digit()));
    }
}

#[test]
fn format_device_id_pads_with_zeros() {
    assert_eq!(format_device_id(0), "000000");
    assert_eq!(format_device_id(42), "000042");
    assert_eq!(format_device_id(999999), "999999");
    assert_eq!(format_device_id(123456), "123456");
}

#[test]
fn test_is_valid_ip() {
    assert!(is_valid_ip("192.168.1.1"));
    assert!(is_valid_ip("0.0.0.0"));
    assert!(is_valid_ip("255.255.255.255"));
    assert!(!is_valid_ip("256.256.256.256"));
    assert!(!is_valid_ip("192.168.1"));
    assert!(!is_valid_ip("192.168.1.1.1"));
    assert!(!is_valid_ip("192.168.1.a"));
    assert!(!is_valid_ip("..."));
}

#[test]
fn is_valid_ip_follows_u8_parsing() {
    // u8::from_str accepts one leading '+' and leading zeros
    assert!(is_valid_ip("+1.2.3.4"));
    assert!(is_valid_ip("001.002.003.004"));
    assert!(!is_valid_ip("++1.2.3.4"));
    assert!(!is_valid_ip("-1.2.3.4"));
    assert!(!is_valid_ip("+.2.3.4"));
    assert!(!is_valid_ip(""));
    assert!(!is_valid_ip("1.2.3.4 "));
    assert!(!is_valid_ip("1.2.3.０"));
}

#[test]
fn is_valid_ip_agrees_with_std_parsing() {
    let samples = [
        "1.2.3.4", "255.0.0.255", "256.0.0.1", "0255.1.1.1", "1..2.3", "1.2.3.4.", "a.b.c.d",
        "+0.+0.+0.+0", "9999.1.1.1", " 1.1.1.1", "1.1.1.1\n",
    ];
    for s in samples.iter() {
        let parts: Vec<&str> = s.split('.').collect();
        let expected = parts.len() == 4 && parts.iter().all(|p| p.parse::<u8>().is_ok());
        assert_eq!(is_valid_ip(s), expected, "{}", s);
    }
}

#[test]
fn test_is_valid_port() {
    assert!(!is_valid_port(0));
    assert!(!is_valid_port(1023));
    assert!(is_valid_port(1024));
    assert!(is_valid_port(8080));
    assert!(is_valid_port(65535));
}
