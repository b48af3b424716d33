use rollup_core::tx::{Address, Erase};
use rollup_core::utils::{format_units, u128_to_dec_string};

#[test]
fn dec_string_renders_digits() {
    assert_eq!(u128_to_dec_string(0), "0");
    assert_eq!(u128_to_dec_string(7), "7");
    assert_eq!(u128_to_dec_string(1024), "1024");
    assert_eq!(u128_to_dec_string(340_282_366_920_938_463_463), "340282366920938463463");
}

#[test]
fn format_units_places_the_point() {
    assert_eq!(format_units(25, 2), "0.25");
    assert_eq!(format_units(1000, 3), "1.0");
    assert_eq!(format_units(1200, 2), "12.0");
    assert_eq!(format_units(1234, 2), "12.34");
    assert_eq!(format_units(0, 0), "0.0");
    assert_eq!(format_units(5, 0), "5.0");
}

#[test]
fn ethereum_sign_message_layout() {
    let tx = Erase::new(1, Address { hi: 1, lo: 2 }, 7, 25, 0, None);
    let part = tx.get_ethereum_sign_message_part("ETH", 2);
    assert_eq!(part, "Fee: 0.25 ETH");
    let message = tx.get_ethereum_sign_message("ETH", 2);
    assert_eq!(message, "Fee: 0.25 ETH\nNonce: 7");
}
