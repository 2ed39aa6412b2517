//! Primitives of the ledger: millisecond timestamps, wallet addresses, coin
//! symbols and trade sides.

use crate::text::int_text;
use crate::text::str_equal;
use crate::text::trim;
use crate::text::trimmed;
use crate::text::usize_text;
use std::str::FromStr;
use vstd::prelude::*;
use vstd::string::StringExecFns;
use vstd::string::StringSliceAdditionalSpecFns;

verus! {

/// Time in milliseconds since the Unix epoch.
#[derive(Debug, Clone, Copy, PartialEq, Eq, PartialOrd, Ord, Hash, Default, Structural)]
pub struct TimeMs(pub i64);

impl TimeMs {
    /// A timestamp from milliseconds.
    pub fn new(ms: i64) -> (r: TimeMs)
        ensures
            r.0 == ms,
    {
        TimeMs(ms)
    }

    /// The wall clock's time, from `chrono::Utc::now`. Nothing is stated of it: two
    /// calls may differ.
    #[verifier::external_body]
    pub fn now() -> (r: TimeMs) {
        TimeMs(chrono::Utc::now().timestamp_millis())
    }

    /// The milliseconds.
    pub fn as_i64(&self) -> (r: i64)
        ensures
            r == self.0,
    {
        self.0
    }

    /// The milliseconds.
    pub fn as_ms(&self) -> (r: i64)
        ensures
            r == self.0,
    {
        self.0
    }
}

/// Wallet address, kept as the text it was given.
#[derive(Debug, PartialEq, Eq, PartialOrd, Ord, Hash)]
pub struct Address(pub String);

/// Why a text is not a wallet address.
#[derive(Debug, Clone, PartialEq, Eq)]
pub enum AddressParseError {
    /// The text does not have 42 bytes; the field is the length found.
    InvalidLength(usize),
    /// The text does not start with `0x`.
    MissingPrefix,
    /// A byte after the prefix is not a hex digit.
    InvalidHex,
}

/// The byte is one of `0-9`, `a-f`, `A-F`.
pub open spec fn is_hex_digit(b: u8) -> bool {
    (0x30 <= b <= 0x39) || (0x41 <= b <= 0x46) || (0x61 <= b <= 0x66)
}

/// Every byte from `from` on is a hex digit.
pub open spec fn all_hex_from(bytes: Seq<u8>, from: int) -> bool {
    forall|i: int| from <= i < bytes.len() ==> is_hex_digit(#[trigger] bytes[i])
}

/// What is wrong with the UTF-8 bytes of a candidate address, if anything: it must
/// be `0x` and forty hex digits, the checks made in this order.
pub open spec fn address_fault(bytes: Seq<u8>) -> Option<AddressParseError> {
    if bytes.len() != 42 {
        Some(AddressParseError::InvalidLength(bytes.len() as usize))
    } else if !(bytes[0] == 0x30 && bytes[1] == 0x78) {
        Some(AddressParseError::MissingPrefix)
    } else if !all_hex_from(bytes, 2) {
        Some(AddressParseError::InvalidHex)
    } else {
        None
    }
}

fn is_hex_digit_byte(b: u8) -> (r: bool)
    ensures
        r == is_hex_digit(b),
{
    (0x30 <= b && b <= 0x39) || (0x41 <= b && b <= 0x46) || (0x61 <= b && b <= 0x66)
}

/// True if every byte of `bytes` from `from` on is a hex digit.
pub fn hex_digits_from(bytes: &[u8], from: usize) -> (r: bool)
    requires
        from <= bytes@.len(),
    ensures
        r == all_hex_from(bytes@, from as int),
{
    let mut i: usize = from;
    while i < bytes.len()
        invariant
            from <= i <= bytes@.len(),
            forall|j: int| from <= j < i ==> is_hex_digit(#[trigger] bytes@[j]),
        decreases bytes@.len() - i,
    {
        if !is_hex_digit_byte(bytes[i]) {
            return false;
        }
        i += 1;
    }
    true
}

impl Address {
    /// The text of the address.
    pub open spec fn text(&self) -> Seq<char> {
        self.0@
    }

    /// An address from a text, unchecked.
    pub fn new(addr: String) -> (r: Address)
        ensures
            r.0 == addr,
    {
        Address(addr)
    }

    /// The address as text.
    pub fn as_str(&self) -> (r: &str)
        ensures
            r@ == self.0@,
    {
        self.0.as_str()
    }

    /// The address as an owned text.
    pub fn to_string(&self) -> (r: String)
        ensures
            r@ == self.0@,
    {
        self.0.clone()
    }

    /// Parses an address: exactly 42 bytes, `0x` followed by forty hex digits.
    pub fn parse(s: &str) -> (r: Result<Address, AddressParseError>)
        ensures
            match address_fault(s.spec_bytes()) {
                Some(e) => r == Err::<Address, AddressParseError>(e),
                None => r is Ok && r->Ok_0.0@ == s@,
            },
    {
        let bytes = s.as_bytes();
        if bytes.len() != 42 {
            return Err(AddressParseError::InvalidLength(bytes.len()));
        }
        if !(bytes[0] == 0x30 && bytes[1] == 0x78) {
            return Err(AddressParseError::MissingPrefix);
        }
        if !hex_digits_from(bytes, 2) {
            return Err(AddressParseError::InvalidHex);
        }
        Ok(Address(s.to_owned()))
    }
}

impl Clone for Address {
    fn clone(&self) -> (r: Address)
        ensures
            r == *self,
    {
        Address(self.0.clone())
    }
}

impl FromStr for Address {
    type Err = AddressParseError;

    /// Parses an address: exactly 42 bytes, `0x` followed by forty hex digits;
    /// else the first fault.
    fn from_str(s: &str) -> (r: Result<Address, AddressParseError>)
        ensures
            match address_fault(s.spec_bytes()) {
                Some(e) => r == Err::<Address, AddressParseError>(e),
                None => r is Ok && r->Ok_0.0@ == s@,
            },
    {
        Address::parse(s)
    }
}

impl AddressParseError {
    /// The error in words.
    pub fn message(&self) -> (r: String)
        ensures
            r@ == (match *self {
                AddressParseError::InvalidLength(len) => "address must be 42 characters, got "@
                    + int_text(len as int),
                AddressParseError::MissingPrefix => "address must start with '0x'"@,
                AddressParseError::InvalidHex => "address must contain only hex digits"@,
            }),
    {
        match self {
            AddressParseError::InvalidLength(len) => {
                let mut text = "address must be 42 characters, got ".to_owned();
                text.append(usize_text(*len).as_str());
                text
            },
            AddressParseError::MissingPrefix => "address must start with '0x'".to_owned(),
            AddressParseError::InvalidHex => "address must contain only hex digits".to_owned(),
        }
    }
}

/// Coin or asset symbol, such as `BTC`.
#[derive(Debug, PartialEq, Eq, PartialOrd, Ord, Hash)]
pub struct Coin(pub String);

impl Coin {
    /// The text of the symbol.
    pub open spec fn text(&self) -> Seq<char> {
        self.0@
    }

    /// A coin from a text, unchecked.
    pub fn new(coin: String) -> (r: Coin)
        ensures
            r.0 == coin,
    {
        Coin(coin)
    }

    /// The symbol as text.
    pub fn as_str(&self) -> (r: &str)
        ensures
            r@ == self.0@,
    {
        self.0.as_str()
    }

    /// The symbol as an owned text.
    pub fn to_string(&self) -> (r: String)
        ensures
            r@ == self.0@,
    {
        self.0.clone()
    }

    /// Parses a coin symbol: the trimmed text, which must not be empty.
    pub fn parse(s: &str) -> (r: Result<Coin, &'static str>)
        ensures
            r is Ok <==> trimmed(s@).len() > 0,
            r matches Ok(c) ==> c.0@ == trimmed(s@),
            r matches Err(m) ==> m@ == "coin cannot be empty"@,
    {
        let t = trim(s);
        if t.is_empty() {
            return Err("coin cannot be empty");
        }
        Ok(Coin(t.to_owned()))
    }
}

impl Clone for Coin {
    fn clone(&self) -> (r: Coin)
        ensures
            r == *self,
    {
        Coin(self.0.clone())
    }
}

impl FromStr for Coin {
    type Err = &'static str;

    /// Parses a coin symbol: the trimmed text, which must not be empty.
    fn from_str(s: &str) -> (r: Result<Coin, &'static str>)
        ensures
            r is Ok <==> trimmed(s@).len() > 0,
            r matches Ok(c) ==> c.0@ == trimmed(s@),
            r matches Err(m) ==> m@ == "coin cannot be empty"@,
    {
        Coin::parse(s)
    }
}

/// Trade side.
#[derive(Debug, Clone, Copy, PartialEq, Eq, Hash, Structural)]
pub enum Side {
    /// Buy side (long).
    Buy,
    /// Sell side (short).
    Sell,
}

impl Side {
    /// The signed multiplier of the side: `+1` for `Buy`, `-1` for `Sell`.
    pub fn sign(&self) -> (r: i32)
        ensures
            r == (if *self == Side::Buy { 1i32 } else { -1i32 }),
    {
        match self {
            Side::Buy => 1,
            Side::Sell => -1,
        }
    }

    /// The side that `buy` or `sell` names; nothing else names a side.
    pub fn from_text(text: &str) -> (r: Option<Side>)
        ensures
            r == (if text@ == "buy"@ {
                Some(Side::Buy)
            } else if text@ == "sell"@ {
                Some(Side::Sell)
            } else {
                None
            }),
    {
        if str_equal(text, "buy") {
            Some(Side::Buy)
        } else if str_equal(text, "sell") {
            Some(Side::Sell)
        } else {
            None
        }
    }

    /// `buy` or `sell`.
    pub fn to_string(&self) -> (r: String)
        ensures
            r@ == (if *self == Side::Buy { "buy"@ } else { "sell"@ }),
    {
        match self {
            Side::Buy => "buy".to_owned(),
            Side::Sell => "sell".to_owned(),
        }
    }
}

} // verus!
