use hypesilico::domain::AddressParseError;
use hypesilico::{Address, Coin, Side, TimeMs};
use std::str::FromStr;

#[test]
fn test_side_sign() {
    assert_eq!(Side::Buy.sign(), 1);
    assert_eq!(Side::Sell.sign(), -1);
}

#[test]
fn test_address_display() {
    let addr = Address::new("0x123abc".to_string());
    assert_eq!(addr.to_string(), "0x123abc");
}

#[test]
fn test_coin_display() {
    let coin = Coin::new("BTC".to_string());
    assert_eq!(coin.to_string(), "BTC");
}

#[test]
fn test_timems_ordering() {
    let t1 = TimeMs::new(1000);
    let t2 = TimeMs::new(2000);
    assert!(t1 < t2);
}

#[test]
fn side_is_written_in_lower_case() {
    assert_eq!(Side::Buy.to_string(), "buy");
    assert_eq!(Side::Sell.to_string(), "sell");
}

#[test]
fn timems_keeps_its_milliseconds() {
    let t = TimeMs::new(-5);
    assert_eq!(t.as_i64(), -5);
    assert_eq!(t.as_ms(), -5);
    assert_eq!(TimeMs::default(), TimeMs::new(0));
    assert!(TimeMs::now().as_ms() > 1_600_000_000_000);
}

#[test]
fn address_parse_accepts_forty_hex_digits() {
    let text = "0x0123456789abcdefABCDEF0123456789abcdef01";
    let addr = Address::from_str(text).unwrap();
    assert_eq!(addr.as_str(), text);
    assert_eq!(Address::parse(text).unwrap(), addr);
}

#[test]
fn address_parse_reports_the_first_fault() {
    assert_eq!(
        Address::from_str("0x123"),
        Err(AddressParseError::InvalidLength(5))
    );
    assert_eq!(Address::from_str(""), Err(AddressParseError::InvalidLength(0)));
    assert_eq!(
        Address::from_str("1x0123456789abcdefABCDEF0123456789abcdef01"),
        Err(AddressParseError::MissingPrefix)
    );
    assert_eq!(
        Address::from_str("0X0123456789abcdefABCDEF0123456789abcdef01"),
        Err(AddressParseError::MissingPrefix)
    );
    assert_eq!(
        Address::from_str("0x0123456789abcdefABCDEF0123456789abcdefg1"),
        Err(AddressParseError::InvalidHex)
    );
    // 42 bytes, but a character of two bytes among them
    assert_eq!(
        Address::from_str("0x0123456789abcdefABCDEF0123456789abcdef\u{e9}"),
        Err(AddressParseError::InvalidHex)
    );
}

#[test]
fn address_parse_error_messages() {
    assert_eq!(
        AddressParseError::InvalidLength(7).message(),
        "address must be 42 characters, got 7"
    );
    assert_eq!(
        AddressParseError::MissingPrefix.message(),
        "address must start with '0x'"
    );
    assert_eq!(
        AddressParseError::InvalidHex.message(),
        "address must contain only hex digits"
    );
}

#[test]
fn coin_parse_trims_and_rejects_empty() {
    assert_eq!(Coin::from_str("  BTC ").unwrap().as_str(), "BTC");
    assert_eq!(Coin::from_str("   "), Err("coin cannot be empty"));
    assert_eq!(Coin::from_str(""), Err("coin cannot be empty"));
    assert_eq!(Coin::parse("eth").unwrap(), Coin::new("eth".to_string()));
}

#[test]
fn side_from_stored_text() {
    assert_eq!(Side::from_text("buy"), Some(Side::Buy));
    assert_eq!(Side::from_text("sell"), Some(Side::Sell));
    assert_eq!(Side::from_text("Buy"), None);
    assert_eq!(Side::from_text(""), None);
    assert_eq!(Side::from_text(&Side::Sell.to_string()), Some(Side::Sell));
}

#[test]
fn coins_are_trimmed_of_white_space() {
    assert_eq!(Coin::parse("  BTC \t\r\n").unwrap().as_str(), "BTC");
    assert_eq!(Coin::parse("BTC").unwrap().as_str(), "BTC");
    assert_eq!(Coin::parse(" B T C ").unwrap().as_str(), "B T C");
    assert_eq!(Coin::parse("\u{3000}ETH\u{a0}\u{2003}").unwrap().as_str(), "ETH");
    assert_eq!(Coin::parse("\u{200b}ETH").unwrap().as_str(), "\u{200b}ETH");
    assert_eq!(Coin::parse("\u{feff} x").unwrap().as_str(), "\u{feff} x");
    assert_eq!(Coin::parse(" \u{e9} ").unwrap().as_str(), "\u{e9}");
    assert_eq!(Coin::parse(""), Err("coin cannot be empty"));
    assert_eq!(Coin::parse(" "), Err("coin cannot be empty"));
    assert!(Coin::parse(" \u{85}\u{2028}\u{2029}\u{202f}\u{205f}\u{1680}\u{b}\u{c}").is_err());
}

#[test]
fn white_space_is_what_the_standard_library_trims() {
    for c in '\0'..=char::MAX {
        let text = format!("{}x{}", c, c);
        assert_eq!(Coin::parse(&text).unwrap().as_str(), text.trim());
        let alone = c.to_string();
        assert_eq!(Coin::parse(&alone).is_ok(), !c.is_whitespace());
    }
}
