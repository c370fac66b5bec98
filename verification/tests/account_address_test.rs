use rapido::account_address::{AccountAddress, AddressError};

#[test]
fn test_address_vector() {
    let expected = vec![1u8; 32];
    let addy = AccountAddress::new([1u8; 32]);

    let addy_vec = addy.to_vec();
    assert_eq!(expected, addy_vec);
    assert_eq!(32, addy_vec.len());

    // Into / From
    let t: Vec<u8> = addy.to_vec();
    assert_eq!(expected, t);
    assert_eq!(addy, AccountAddress::try_from(&expected[..]).unwrap());
}

#[test]
fn test_address_string() {
    let addy = AccountAddress::new([1u8; 32]);

    let hexed: String = addy.to_hex();
    let b: AccountAddress = AccountAddress::from_str(&hexed).unwrap();
    assert_eq!(b, addy);
}

#[test]
fn test_acc_address_codec() {
    let a = AccountAddress::new([1u8; 32]);
    let a_bits = a.to_vec();
    let b = AccountAddress::try_from(&a_bits[..]).unwrap();
    assert_eq!(a, b);
}

#[test]
fn test_address_rejects_bad_input() {
    assert_eq!(
        Err(AddressError::InvalidLength),
        AccountAddress::try_from(&[1u8; 31][..])
    );
    assert_eq!(Err(AddressError::InvalidHex), AccountAddress::from_str("zz"));
    assert_eq!(
        Err(AddressError::InvalidLength),
        AccountAddress::from_str("0102")
    );
    assert_eq!(
        "0101010101010101010101010101010101010101010101010101010101010101",
        AccountAddress::new([1u8; 32]).to_hex()
    );
}
