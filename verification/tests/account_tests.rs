use chiral_network::account::{create_new_account, get_account_from_private_key};

const KEY_ONE: &str = "0000000000000000000000000000000000000000000000000000000000000001";

#[test]
fn known_key_gives_known_address() {
    let acc = get_account_from_private_key(KEY_ONE).unwrap();
    assert_eq!(acc.address, "0x7e5f4552091a69125d5dfcb7b8c2659029395bdf");
    assert_eq!(acc.private_key, KEY_ONE);
}

#[test]
fn prefix_0x_is_accepted_and_dropped() {
    let acc = get_account_from_private_key(&format!("0x{}", KEY_ONE)).unwrap();
    assert_eq!(acc.address, "0x7e5f4552091a69125d5dfcb7b8c2659029395bdf");
    assert_eq!(acc.private_key, KEY_ONE);
    let upper = get_account_from_private_key(&KEY_ONE.to_uppercase()).unwrap();
    assert_eq!(upper.address, acc.address);
}

#[test]
fn bad_keys_are_refused() {
    let e = get_account_from_private_key("zz").unwrap_err();
    assert!(e.starts_with("Invalid hex private key: "));
    let e = get_account_from_private_key("abc").unwrap_err();
    assert_eq!(e, "Invalid hex private key: Odd number of digits");
    let e = get_account_from_private_key("0xé").unwrap_err();
    assert_eq!(e, "Invalid hex private key: Invalid character 'Ã' at position 0");
    let zero = "0".repeat(64);
    let e = get_account_from_private_key(&zero).unwrap_err();
    assert_eq!(e, "Invalid private key: malformed or out-of-range secret key");
    let order = "fffffffffffffffffffffffffffffffebaaedce6af48a03bbfd25e8cd0364141";
    assert!(get_account_from_private_key(order).is_err());
    let below = "fffffffffffffffffffffffffffffffebaaedce6af48a03bbfd25e8cd0364140";
    assert!(get_account_from_private_key(below).is_ok());
    let short = "01";
    assert!(get_account_from_private_key(short).unwrap_err().starts_with("Invalid private key: "));
}

#[test]
fn created_account_is_recovered_from_its_key() {
    let acc = create_new_account().unwrap();
    assert_eq!(acc.private_key.len(), 64);
    assert!(acc.address.starts_with("0x"));
    assert_eq!(acc.address.len(), 42);
    let back = get_account_from_private_key(&acc.private_key).unwrap();
    assert_eq!(back.address, acc.address);
    let back2 = get_account_from_private_key(&format!("0x{}", acc.private_key)).unwrap();
    assert_eq!(back2.address, acc.address);
}
