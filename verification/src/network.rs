//! The bitcoin network an install targets, and the key-prefix rule each
//! network imposes: mainnet keys carry an `xpub` prefix, every test network
//! (testnet, signet, regtest) shares the `tpub` prefix.

use vstd::prelude::*;

verus! {

#[derive(Clone, Copy, Debug, PartialEq, Eq, Structural)]
pub enum Network {
    Main,
    Test,
    Signet,
    Regtest,
}

/// Whether extended public keys for this network carry the mainnet prefix.
pub open spec fn spec_uses_main_prefix(n: Network) -> bool {
    n is Main
}

impl Network {
    pub fn uses_main_prefix(&self) -> (r: bool)
        ensures
            r == spec_uses_main_prefix(*self),
    {
        match self {
            Network::Main => true,
            _ => false,
        }
    }
}

/// The short lower-case name of a network, as written in the configuration
/// artifact.
pub open spec fn spec_network_name(n: Network) -> Seq<u8> {
    match n {
        Network::Main => seq!['m' as u8, 'a' as u8, 'i' as u8, 'n' as u8],
        Network::Test => seq!['t' as u8, 'e' as u8, 's' as u8, 't' as u8],
        Network::Signet => seq![
            's' as u8,
            'i' as u8,
            'g' as u8,
            'n' as u8,
            'e' as u8,
            't' as u8,
        ],
        Network::Regtest => seq![
            'r' as u8,
            'e' as u8,
            'g' as u8,
            't' as u8,
            'e' as u8,
            's' as u8,
            't' as u8,
        ],
    }
}

/// Appends the name of `n` to `out`.
pub fn push_network_name(n: Network, out: &mut Vec<u8>)
    ensures
        final(out)@ == old(out)@ + spec_network_name(n),
{
    match n {
        Network::Main => {
            out.push('m' as u8);
            out.push('a' as u8);
            out.push('i' as u8);
            out.push('n' as u8);
        },
        Network::Test => {
            out.push('t' as u8);
            out.push('e' as u8);
            out.push('s' as u8);
            out.push('t' as u8);
        },
        Network::Signet => {
            out.push('s' as u8);
            out.push('i' as u8);
            out.push('g' as u8);
            out.push('n' as u8);
            out.push('e' as u8);
            out.push('t' as u8);
        },
        Network::Regtest => {
            out.push('r' as u8);
            out.push('e' as u8);
            out.push('g' as u8);
            out.push('t' as u8);
            out.push('e' as u8);
            out.push('s' as u8);
            out.push('t' as u8);
        },
    }
    assert(final(out)@ =~= old(out)@ + spec_network_name(n));
}

} // verus!
