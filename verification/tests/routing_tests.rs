use siren::routing::{
    is_addr_port, is_kv_code, pick_from_directory, resolve_destination, route_token,
    split_addr_port, split_csv, split_message,
};
use siren::session::Variant;

#[test]
fn aliases_map_to_fixed_token() {
    let (v, t) = route_token(&b"vless".to_vec());
    assert_eq!(v, Some(Variant::VLess));
    assert_eq!(t, b"AM".to_vec());
    let (v, t) = route_token(&b"VMESS".to_vec());
    assert_eq!(v, Some(Variant::VMess));
    assert_eq!(t, b"AM".to_vec());
    let (v, t) = route_token(&b"Trojan".to_vec());
    assert_eq!(v, Some(Variant::Trojan));
    assert_eq!(t, b"AM".to_vec());
    let (v, t) = route_token(&b"shadowsocks".to_vec());
    assert_eq!(v, Some(Variant::Shadowsocks));
    assert_eq!(t, b"AM".to_vec());
}

#[test]
fn other_tokens_pass_through() {
    let (v, t) = route_token(&b"KR".to_vec());
    assert_eq!(v, None);
    assert_eq!(t, b"KR".to_vec());
    let (v, t) = route_token(&b"1.2.3.4-443".to_vec());
    assert_eq!(v, None);
    assert_eq!(t, b"1.2.3.4-443".to_vec());
}

#[test]
fn kv_codes_need_two_capitals() {
    assert!(is_kv_code(&b"ID".to_vec()));
    assert!(is_kv_code(&b"KR,ID".to_vec()));
    assert!(!is_kv_code(&b"iD".to_vec()));
    assert!(!is_kv_code(&b"I".to_vec()));
    assert!(!is_kv_code(&b"1.2.3.4-443".to_vec()));
}

#[test]
fn addr_port_shape() {
    assert!(is_addr_port(&b"1.2.3.4-443".to_vec()));
    assert!(is_addr_port(&b"host.example-80".to_vec()));
    assert!(!is_addr_port(&b"-443".to_vec()));
    assert!(!is_addr_port(&b"host-".to_vec()));
    assert!(!is_addr_port(&b"host-12a".to_vec()));
    assert!(!is_addr_port(&b"hostonly".to_vec()));
}

#[test]
fn split_addr_port_values() {
    let (h, p) = split_addr_port(&b"10.0.0.1-8080".to_vec()).unwrap();
    assert_eq!(h, b"10.0.0.1".to_vec());
    assert_eq!(p, 8080);
    let (h, p) = split_addr_port(&b"h-065535".to_vec()).unwrap();
    assert_eq!(h, b"h".to_vec());
    assert_eq!(p, 65535);
    assert!(split_addr_port(&b"h-65536".to_vec()).is_none());
    assert!(split_addr_port(&b"h-12a".to_vec()).is_none());
    assert!(split_addr_port(&b"nodash".to_vec()).is_none());
}

#[test]
fn csv_fields() {
    let parts = split_csv(&b"ID,KR".to_vec());
    assert_eq!(parts, vec![b"ID".to_vec(), b"KR".to_vec()]);
    let parts = split_csv(&b"ID".to_vec());
    assert_eq!(parts, vec![b"ID".to_vec()]);
}

#[test]
fn directory_pick_is_deterministic_per_byte() {
    let json = br#"{"AM":["1.2.3.4:443","5.6.7.8:80"],"KR":["9.9.9.9:53"]}"#.to_vec();
    let (h, p) = pick_from_directory(&json, &b"AM".to_vec(), 0).unwrap();
    assert_eq!(h, b"1.2.3.4".to_vec());
    assert_eq!(p, 443);
    let (h, p) = pick_from_directory(&json, &b"AM".to_vec(), 1).unwrap();
    assert_eq!(h, b"5.6.7.8".to_vec());
    assert_eq!(p, 80);
    // an odd byte picks the second field of the token list, then its only entry
    let (h, p) = pick_from_directory(&json, &b"AM,KR".to_vec(), 1).unwrap();
    assert_eq!(h, b"9.9.9.9".to_vec());
    assert_eq!(p, 53);
}

#[test]
fn directory_misses_yield_nothing() {
    let json = br#"{"AM":["1.2.3.4:443"]}"#.to_vec();
    assert!(pick_from_directory(&json, &b"ZZ".to_vec(), 0).is_none());
    assert!(pick_from_directory(&b"not json".to_vec(), &b"AM".to_vec(), 0).is_none());
    let empty = br#"{"AM":[]}"#.to_vec();
    assert!(pick_from_directory(&empty, &b"AM".to_vec(), 0).is_none());
}

#[test]
fn resolve_picks_one_of_the_listed_entries() {
    let json = br#"{"AM":["1.2.3.4:443","5.6.7.8:80"]}"#.to_vec();
    let (h, p) = resolve_destination(&json, &b"AM".to_vec()).unwrap();
    let chosen = (String::from_utf8(h).unwrap(), p);
    assert!(
        chosen == ("1.2.3.4".to_string(), 443) || chosen == ("5.6.7.8".to_string(), 80),
        "unexpected pick {chosen:?}"
    );
}

#[test]
fn split_message_keeps_every_byte_in_order() {
    let big: Vec<u8> = (0..70000u32).map(|i| (i % 251) as u8).collect();
    let pieces = split_message(&big);
    assert_eq!(pieces.len(), 2);
    assert_eq!(pieces[0].len(), 65535);
    assert!(pieces.iter().all(|p| p.len() <= 65535));
    let joined: Vec<u8> = pieces.concat();
    assert_eq!(joined, big);
}
