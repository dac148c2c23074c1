use pool::keys::Pubkey;

fn key_with(index: usize, value: u8) -> Pubkey {
    let mut bytes = [0u8; 32];
    bytes[index] = value;
    Pubkey::new_from_array(bytes)
}

#[test]
fn a_key_holds_its_bytes() {
    let mut bytes = [0u8; 32];
    for i in 0..32 {
        bytes[i] = i as u8;
    }
    let k = Pubkey::new_from_array(bytes);
    assert_eq!(k.to_bytes(), bytes);
    assert_eq!(k.bytes, bytes);
    assert_eq!(Pubkey::zero().to_bytes(), [0u8; 32]);
    assert_eq!(Pubkey::default(), Pubkey::zero());
}

#[test]
fn keys_are_equal_when_all_bytes_are() {
    assert!(key_with(3, 9).equals(&key_with(3, 9)));
    assert!(!key_with(3, 9).equals(&key_with(3, 8)));
    assert!(!key_with(3, 9).equals(&key_with(4, 9)));
    assert!(!key_with(31, 1).equals(&Pubkey::zero()));
    assert!(Pubkey::zero().equals(&Pubkey::zero()));
}

#[test]
fn the_first_byte_that_differs_orders_two_keys() {
    assert!(key_with(0, 1).precedes(&key_with(0, 2)));
    assert!(!key_with(0, 2).precedes(&key_with(0, 1)));
    // an early byte outweighs every later one
    assert!(key_with(31, 255).precedes(&key_with(0, 1)));
    assert!(!key_with(0, 1).precedes(&key_with(31, 255)));
    assert!(key_with(5, 200).precedes(&key_with(4, 1)));
    assert!(Pubkey::zero().precedes(&key_with(31, 1)));
    // bytes compare as unsigned numbers
    assert!(key_with(7, 127).precedes(&key_with(7, 128)));
}

#[test]
fn no_key_precedes_itself() {
    assert!(!Pubkey::zero().precedes(&Pubkey::zero()));
    assert!(!key_with(9, 9).precedes(&key_with(9, 9)));
    assert!(!Pubkey::new_from_array([255; 32]).precedes(&Pubkey::new_from_array([255; 32])));
}
