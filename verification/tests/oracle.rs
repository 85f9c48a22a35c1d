use lending_controller::oracle::PriceOracle;
use lending_controller::types::PRICE_PRECISION;

#[test]
fn new_works() {
    let _contract = PriceOracle::new();
}

#[test]
fn set_fixed_price_works() {
    let mut contract = PriceOracle::new();

    let asset_addr: u128 = 0x01;
    assert!(contract.set_fixed_price(asset_addr, PRICE_PRECISION * 101 / 100).is_ok());
    assert_eq!(contract.get_price(asset_addr), Some(PRICE_PRECISION * 101 / 100));
}

#[test]
fn get_price_of_unknown_asset_is_none() {
    let contract = PriceOracle::new();
    assert_eq!(contract.get_price(7), None);
}

#[test]
fn last_written_price_wins() {
    let mut contract = PriceOracle::new();
    contract.set_fixed_price(5, 100).unwrap();
    contract.set_fixed_price(5, 250).unwrap();
    contract.set_fixed_price(6, 300).unwrap();
    assert_eq!(contract.get_price(5), Some(250));
    assert_eq!(contract.get_price(6), Some(300));
}
