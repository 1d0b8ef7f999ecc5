//! Blocks of internet addresses.

use crate::addr::IpAddress;
use vstd::arithmetic::power2::pow2;
use vstd::prelude::*;

verus! {

/// The addresses that share their first bits with an address: the address, and the number of bits.
#[derive(Debug, Clone, Copy, PartialEq, Eq, Structural)]
pub enum CidrBlock {
    V4(u32, u8),
    V6(u128, u8),
}

impl CidrBlock {
    /// A prefix is no longer than an address.
    pub open spec fn wf(self) -> bool {
        match self {
            CidrBlock::V4(_, prefix) => prefix <= 32,
            CidrBlock::V6(_, prefix) => prefix <= 128,
        }
    }

    /// Whether an address is of the block's family and shares the prefix.
    pub open spec fn covers(self, ip: IpAddress) -> bool {
        match (self, ip) {
            (CidrBlock::V4(address, prefix), IpAddress::V4(n)) => {
                n as nat / pow2((32 - prefix) as nat) == address as nat / pow2((32 - prefix) as nat)
            },
            (CidrBlock::V6(address, prefix), IpAddress::V6(n)) => {
                n as nat / pow2((128 - prefix) as nat) == address as nat / pow2(
                    (128 - prefix) as nat,
                )
            },
            _ => false,
        }
    }
}

/// The error that reading a block from text gives.
#[verifier::external_type_specification]
#[verifier::external_body]
pub struct ExAddrParseError(ipnet::AddrParseError);

/// The block that a text such as `192.0.2.0/24` denotes.
pub uninterp spec fn cidr_named(s: Seq<char>) -> Option<CidrBlock>;

/// `<ipnet::IpNet as FromStr>::from_str`: the result depends on the text alone, and the prefix of
/// a block is no longer than an address of its family.
#[verifier::external_body]
fn read_cidr(s: &str) -> (r: Result<CidrBlock, ipnet::AddrParseError>)
    ensures
        match r {
            Ok(block) => cidr_named(s@) == Some(block) && block.wf(),
            Err(_) => cidr_named(s@) is None,
        },
{
    match s.parse::<ipnet::IpNet>() {
        Ok(ipnet::IpNet::V4(net)) => {
            Ok(CidrBlock::V4(net.addr().into(), net.prefix_len()))
        },
        Ok(ipnet::IpNet::V6(net)) => {
            Ok(CidrBlock::V6(net.addr().into(), net.prefix_len()))
        },
        Err(error) => Err(error),
    }
}

/// `<ipnet::AddrParseError as Display>::fmt` writes the same words for every error.
#[verifier::external_body]
fn describe_cidr_error(error: &ipnet::AddrParseError) -> (r: String)
    ensures
        r@ == "invalid IP address syntax"@,
{
    error.to_string()
}

/// Reads a block from text.
pub fn parse_cidr(s: &str) -> (r: Result<CidrBlock, String>)
    ensures
        match cidr_named(s@) {
            Some(block) => r == Ok::<CidrBlock, String>(block) && block.wf(),
            None => r matches Err(message) && message@ == "invalid IP address syntax"@,
        },
{
    match read_cidr(s) {
        Ok(block) => Ok(block),
        Err(error) => Err(describe_cidr_error(&error)),
    }
}

/// `ipnet::IpNet::contains`: an address is in a block if it is of the same family and lies
/// between the block's first and last address, which is to say that it shares the prefix.
#[verifier::external_body]
pub(crate) fn cidr_contains(block: &CidrBlock, ip: &IpAddress) -> (r: bool)
    requires
        block.wf(),
    ensures
        r == block.covers(*ip),
{
    let net = match *block {
        CidrBlock::V4(address, prefix) => {
            ipnet::IpNet::V4(ipnet::Ipv4Net::new_assert(address.into(), prefix))
        },
        CidrBlock::V6(address, prefix) => {
            ipnet::IpNet::V6(ipnet::Ipv6Net::new_assert(address.into(), prefix))
        },
    };
    let host = match *ip {
        IpAddress::V4(n) => ipnet::IpNet::V4(ipnet::Ipv4Net::new_assert(n.into(), 32)).addr(),
        IpAddress::V6(n) => ipnet::IpNet::V6(ipnet::Ipv6Net::new_assert(n.into(), 128)).addr(),
    };
    net.contains(&host)
}

} // verus!
