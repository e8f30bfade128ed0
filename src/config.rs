use vstd::prelude::*;
use crate::codec::{be_value, read_uint, lemma_be_value_bound};
use crate::dex::Dex;
use crate::types::{Address, ErrorKind};

verus! {

/// The twenty bytes that `ethers`' address parser reads from the text `s`,
/// or `None` where it refuses the text.
pub uninterp spec fn parsed_h160(s: Seq<char>) -> Option<Seq<u8>>;

/// The value of a hex digit of either case, or -1 for any other character.
pub open spec fn hex_value(c: char) -> int {
    let v = c as u32;
    if 0x30 <= v <= 0x39 {
        v - 0x30
    } else if 0x61 <= v <= 0x66 {
        v - 0x61 + 10
    } else if 0x41 <= v <= 0x46 {
        v - 0x41 + 10
    } else {
        -1
    }
}

/// The text without one leading `0x`, if it has one.
pub open spec fn strip_0x(s: Seq<char>) -> Seq<char> {
    if s.len() >= 2 && s[0] == '0' && s[1] == 'x' {
        s.subrange(2, s.len() as int)
    } else {
        s
    }
}

/// Exactly forty hex digits, nothing else.
pub open spec fn is_hex40(t: Seq<char>) -> bool {
    t.len() == 40 && forall|i: int| 0 <= i < 40 ==> hex_value(#[trigger] t[i]) >= 0
}

/// The twenty bytes that forty hex digits spell, two digits per byte, the
/// high one first.
pub open spec fn hex40_bytes(t: Seq<char>) -> Seq<u8> {
    Seq::new(20, |i: int| (hex_value(t[2 * i]) * 16 + hex_value(t[2 * i + 1])) as u8)
}

/// Relies on `str::parse::<ethers::types::H160>` (fixed-hash's `FromStr`,
/// reading digits through rustc-hex's `FromHexIter`): one optional leading
/// `0x` is stripped, then forty hex digits of either case give twenty bytes,
/// and spaces, tabs, CR and LF among the digits are skipped. The result is a
/// function of the text alone, holds twenty bytes, and for text that is an
/// optional `0x` and forty hex digits it is the bytes those digits spell.
#[verifier::external_body]
fn parse_h160(s: &str) -> (r: Option<Vec<u8>>)
    ensures
        r matches Some(b) ==> parsed_h160(s@) == Some(b@) && b@.len() == 20,
        r is None ==> parsed_h160(s@) is None,
        is_hex40(strip_0x(s@)) ==> r is Some && r->Some_0@ == hex40_bytes(strip_0x(s@)),
{
    s.parse::<ethers::types::H160>().ok().map(|h| h.as_bytes().to_vec())
}

/// The address that twenty big-endian bytes spell out.
pub open spec fn address_of_bytes(b: Seq<u8>) -> Address {
    Address {
        hi: be_value(b.subrange(0, 4)) as u32,
        lo: be_value(b.subrange(4, 20)) as u128,
    }
}

/// Reads an address from its twenty bytes.
pub fn address_from_bytes(b: &Vec<u8>) -> (r: Address)
    requires
        b@.len() == 20,
    ensures
        r == address_of_bytes(b@),
{
    let hi = read_uint(b, 0, 4);
    proof {
        reveal_with_fuel(crate::codec::pow256, 5);
        lemma_be_value_bound(b@.subrange(0, 4));
    }
    let lo = read_uint(b, 4, 16);
    Address { hi: hi as u32, lo }
}

/// Addresses of the contracts the agent works with; fixed once built.
#[derive(Clone, Copy, Debug, PartialEq, Eq, Structural)]
pub struct Config {
    pub dex_factory: Address,
    pub dex_router: Address,
}

/// The configuration that the parsed factory and router addresses give:
/// a `ConfigError` where either is missing.
pub open spec fn config_of(factory: Option<Seq<u8>>, router: Option<Seq<u8>>) -> Result<
    Config,
    ErrorKind,
> {
    match (factory, router) {
        (Some(f), Some(r)) => {
            if f.len() == 20 && r.len() == 20 {
                Ok(Config { dex_factory: address_of_bytes(f), dex_router: address_of_bytes(r) })
            } else {
                Err(ErrorKind::ConfigError)
            }
        },
        _ => Err(ErrorKind::ConfigError),
    }
}

impl Config {
    pub fn new(dex_factory: Address, dex_router: Address) -> (r: Config)
        ensures
            r.dex_factory == dex_factory,
            r.dex_router == dex_router,
    {
        Config { dex_factory, dex_router }
    }

    /// Builds the configuration from the parsed bytes of the two addresses.
    pub fn from_parsed(factory: Option<Vec<u8>>, router: Option<Vec<u8>>) -> (r: Result<
        Config,
        ErrorKind,
    >)
        ensures
            r == config_of(
                match factory {
                    Some(f) => Some(f@),
                    None => None,
                },
                match router {
                    Some(v) => Some(v@),
                    None => None,
                },
            ),
    {
        match (factory, router) {
            (Some(f), Some(r)) => {
                if f.len() == 20 && r.len() == 20 {
                    Ok(
                        Config {
                            dex_factory: address_from_bytes(&f),
                            dex_router: address_from_bytes(&r),
                        },
                    )
                } else {
                    Err(ErrorKind::ConfigError)
                }
            },
            _ => Err(ErrorKind::ConfigError),
        }
    }

    /// Builds the configuration from the text of the factory and router
    /// addresses; text that does not parse is a `ConfigError`. Each address
    /// written as an optional `0x` and forty hex digits is accepted.
    pub fn from_text(factory: &str, router: &str) -> (r: Result<Config, ErrorKind>)
        ensures
            r == config_of(parsed_h160(factory@), parsed_h160(router@)),
            is_hex40(strip_0x(factory@)) && is_hex40(strip_0x(router@)) ==> r == Ok::<
                Config,
                ErrorKind,
            >(
                Config {
                    dex_factory: address_of_bytes(hex40_bytes(strip_0x(factory@))),
                    dex_router: address_of_bytes(hex40_bytes(strip_0x(router@))),
                },
            ),
    {
        let f = parse_h160(factory);
        let v = parse_h160(router);
        Config::from_parsed(f, v)
    }

    /// The DEX client for the given factory and router.
    pub fn create_dex(&self, factory: Address, router: Address) -> (r: Dex)
        ensures
            r.factory == factory,
            r.router == router,
    {
        Dex::new(factory, router)
    }
}

} // verus!
