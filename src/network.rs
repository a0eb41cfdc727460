use vstd::prelude::*;

verus! {

/// The chain a node serves; it fixes the version byte of legacy addresses.
#[derive(Clone, Copy, Debug, PartialEq, Eq, Structural)]
pub enum Network {
    Mainnet,
    Testnet,
    Regnet,
}

impl Network {
    /// The version byte that marks a pay-to-public-key-hash address on this network.
    pub open spec fn spec_version_byte(self) -> u8 {
        match self {
            Network::Mainnet => 0x00,
            _ => 0x6f,
        }
    }

    pub fn version_byte(&self) -> (r: u8)
        ensures
            r == self.spec_version_byte(),
    {
        match self {
            Network::Mainnet => 0x00,
            Network::Testnet => 0x6f,
            Network::Regnet => 0x6f,
        }
    }

    /// The network's name as configuration files write it.
    pub fn to_string(&self) -> (r: String)
        ensures
            r@ == match self {
                Network::Mainnet => "mainnet"@,
                Network::Testnet => "testnet"@,
                Network::Regnet => "regnet"@,
            },
    {
        match self {
            Network::Mainnet => String::from_str("mainnet"),
            Network::Testnet => String::from_str("testnet"),
            Network::Regnet => String::from_str("regnet"),
        }
    }
}

} // verus!
