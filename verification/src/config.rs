//! The configuration artifact written at the end of the install: a stable,
//! line-oriented text the operating daemon reads back. Line one names the
//! network, line two holds the descriptor, line three the node address as
//! `host:port`, line four the credential-file path; every further line is
//! the fingerprint, as eight hexadecimal digits, of one device that
//! completed registration. Writing the file to disk happens outside; this
//! module only fixes the bytes.

use vstd::prelude::*;

use crate::bitcoind::{cfg_wf, BitcoindConfig};
use crate::bytes::{dec_render, hex_render, push_all, push_dec, push_hex8};
use crate::descriptor::{spec_render, render, Descriptor};
use crate::network::{push_network_name, spec_network_name, Network};

verus! {

/// One fingerprint line per registered device, in roster order.
pub open spec fn spec_fp_lines(fps: Seq<u32>) -> Seq<u8>
    decreases fps.len(),
{
    if fps.len() == 0 {
        Seq::empty()
    } else {
        spec_fp_lines(fps.drop_last()) + hex_render(fps.last() as nat, 8) + seq!['\n' as u8]
    }
}

/// The whole artifact.
pub open spec fn spec_config(
    net: Network,
    d: Descriptor,
    bitcoind: BitcoindConfig,
    fps: Seq<u32>,
) -> Seq<u8> {
    spec_network_name(net) + seq!['\n' as u8] + spec_render(d) + seq!['\n' as u8] + bitcoind.host@
        + seq![':' as u8] + dec_render(bitcoind.port as nat) + seq!['\n' as u8]
        + bitcoind.cookie_path@ + seq!['\n' as u8] + spec_fp_lines(fps)
}

/// Renders the artifact for the final, validated state. The connection
/// fields must be line-bounded — free of control bytes — or the artifact
/// could not be read back line by line; validation guarantees this before
/// a connection is ever stored.
pub fn render_config(
    net: Network,
    d: &Descriptor,
    bitcoind: &BitcoindConfig,
    fps: &Vec<u32>,
) -> (r: Vec<u8>)
    requires
        cfg_wf(*bitcoind),
    ensures
        r@ == spec_config(net, *d, *bitcoind, fps@),
{
    let mut out: Vec<u8> = Vec::new();
    push_network_name(net, &mut out);
    out.push('\n' as u8);
    let desc = render(d);
    push_all(desc.as_slice(), &mut out);
    out.push('\n' as u8);
    push_all(bitcoind.host.as_slice(), &mut out);
    out.push(':' as u8);
    push_dec(bitcoind.port, &mut out);
    out.push('\n' as u8);
    push_all(bitcoind.cookie_path.as_slice(), &mut out);
    out.push('\n' as u8);
    let ghost head = out@;
    let n = fps.len();
    let mut i: usize = 0;
    while i < n
        invariant
            0 <= i <= n,
            n == fps@.len(),
            out@ == head + spec_fp_lines(fps@.subrange(0, i as int)),
        decreases n - i,
    {
        push_hex8(fps[i], &mut out);
        out.push('\n' as u8);
        proof {
            assert(fps@.subrange(0, i + 1).drop_last() =~= fps@.subrange(0, i as int));
            assert(fps@.subrange(0, i + 1).last() == fps@[i as int]);
            assert(out@ =~= head + spec_fp_lines(fps@.subrange(0, i + 1)));
        }
        i = i + 1;
    }
    proof {
        assert(fps@.subrange(0, n as int) =~= fps@);
        assert(out@ =~= spec_config(net, *d, *bitcoind, fps@));
    }
    out
}

} // verus!
