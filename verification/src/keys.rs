//! Extended public keys as the installer sees them: a fixed-length base58
//! text whose four-byte prefix names the network and tells public from
//! private material. The fingerprint, a 32-bit fold of the text, is the
//! stable identity used to compare keys and match signing devices.

use vstd::prelude::*;

use crate::bytes::{bytes_eq, fold31, fold_bytes};
use crate::network::{spec_uses_main_prefix, Network};

verus! {

/// Length in bytes of an extended public key's textual encoding.
pub const KEY_LEN: usize = 111;

/// The base58 alphabet: digits and letters without `0`, `O`, `I` and `l`.
pub open spec fn is_base58(b: u8) -> bool {
    (('1' as u8) <= b <= ('9' as u8)) || (('A' as u8) <= b <= ('Z' as u8) && b != ('I' as u8) && b
        != ('O' as u8)) || (('a' as u8) <= b <= ('z' as u8) && b != ('l' as u8))
}

pub open spec fn spec_xpub_prefix() -> Seq<u8> {
    seq!['x' as u8, 'p' as u8, 'u' as u8, 'b' as u8]
}

pub open spec fn spec_tpub_prefix() -> Seq<u8> {
    seq!['t' as u8, 'p' as u8, 'u' as u8, 'b' as u8]
}

pub open spec fn spec_xprv_prefix() -> Seq<u8> {
    seq!['x' as u8, 'p' as u8, 'r' as u8, 'v' as u8]
}

pub open spec fn spec_tprv_prefix() -> Seq<u8> {
    seq!['t' as u8, 'p' as u8, 'r' as u8, 'v' as u8]
}

/// The public-key prefix that keys for network `n` must carry.
pub open spec fn spec_pub_prefix(n: Network) -> Seq<u8> {
    if spec_uses_main_prefix(n) {
        spec_xpub_prefix()
    } else {
        spec_tpub_prefix()
    }
}

/// The public-key prefix of the other family of networks.
pub open spec fn spec_wrong_pub_prefix(n: Network) -> Seq<u8> {
    if spec_uses_main_prefix(n) {
        spec_tpub_prefix()
    } else {
        spec_xpub_prefix()
    }
}

/// A well-formed key text for network `n`: right length, right public
/// prefix, and base58 characters throughout the body.
pub open spec fn key_wf(s: Seq<u8>, n: Network) -> bool {
    &&& s.len() == KEY_LEN
    &&& s.subrange(0, 4) == spec_pub_prefix(n)
    &&& forall|i: int| 4 <= i < s.len() ==> is_base58(#[trigger] s[i])
}

/// Why a key text was rejected.
#[derive(Clone, Copy, Debug, PartialEq, Eq, Structural)]
pub enum KeyError {
    /// The text does not have the length of an extended key.
    Length,
    /// The text carries a private-key prefix and must never be accepted.
    PrivateMaterial,
    /// The prefix is a public-key prefix of the other network family.
    NetworkMismatch,
    /// The prefix is not an extended-key prefix at all.
    Prefix,
    /// A byte outside the base58 alphabet appears in the body.
    Character,
}

/// The first reason to reject `s` as a key for network `n`, or `None` when
/// it is well formed. Checks run in a fixed order: length, private
/// material, wrong network, unknown prefix, stray character.
pub open spec fn key_check(s: Seq<u8>, n: Network) -> Option<KeyError> {
    if s.len() != KEY_LEN {
        Some(KeyError::Length)
    } else if s.subrange(0, 4) == spec_xprv_prefix() || s.subrange(0, 4) == spec_tprv_prefix() {
        Some(KeyError::PrivateMaterial)
    } else if s.subrange(0, 4) == spec_wrong_pub_prefix(n) {
        Some(KeyError::NetworkMismatch)
    } else if s.subrange(0, 4) != spec_pub_prefix(n) {
        Some(KeyError::Prefix)
    } else if exists|i: int| 4 <= i < s.len() && !is_base58(#[trigger] s[i]) {
        Some(KeyError::Character)
    } else {
        None
    }
}

/// The four extended-key prefixes are pairwise distinct.
pub proof fn lemma_prefixes_distinct()
    ensures
        spec_xpub_prefix() != spec_tpub_prefix(),
        spec_xpub_prefix() != spec_xprv_prefix(),
        spec_xpub_prefix() != spec_tprv_prefix(),
        spec_tpub_prefix() != spec_xprv_prefix(),
        spec_tpub_prefix() != spec_tprv_prefix(),
        spec_xprv_prefix() != spec_tprv_prefix(),
{
    assert(spec_xpub_prefix()[0] != spec_tpub_prefix()[0]);
    assert(spec_xpub_prefix()[2] != spec_xprv_prefix()[2]);
    assert(spec_xpub_prefix()[0] != spec_tprv_prefix()[0]);
    assert(spec_tpub_prefix()[0] != spec_xprv_prefix()[0]);
    assert(spec_tpub_prefix()[2] != spec_tprv_prefix()[2]);
    assert(spec_xprv_prefix()[0] != spec_tprv_prefix()[0]);
}

/// A key is well formed exactly when no check rejects it.
pub proof fn lemma_key_check_none(s: Seq<u8>, n: Network)
    ensures
        key_check(s, n) is None <==> key_wf(s, n),
{
    if key_wf(s, n) {
        assert(s.subrange(0, 4)[2] == ('u' as u8));
        assert(s.subrange(0, 4) != spec_xprv_prefix());
        assert(s.subrange(0, 4) != spec_tprv_prefix());
        assert(s.subrange(0, 4)[0] != spec_wrong_pub_prefix(n)[0]);
    }
}

/// A key well formed for one family of networks is rejected, as a network
/// mismatch, by every network of the other family.
pub proof fn lemma_network_mismatch(s: Seq<u8>, n: Network, m: Network)
    requires
        key_wf(s, n),
        spec_uses_main_prefix(m) != spec_uses_main_prefix(n),
    ensures
        key_check(s, m) == Some(KeyError::NetworkMismatch),
{
    assert(s.subrange(0, 4)[2] == ('u' as u8));
    assert(s.subrange(0, 4) != spec_xprv_prefix());
    assert(s.subrange(0, 4) != spec_tprv_prefix());
    assert(s.subrange(0, 4) == spec_wrong_pub_prefix(m));
}

/// A validated extended public key: the text is well formed for the
/// network it was checked against.
#[derive(Clone, Debug, PartialEq, Eq)]
pub struct Xpub {
    text: Vec<u8>,
}

impl View for Xpub {
    type V = Seq<u8>;

    closed spec fn view(&self) -> Seq<u8> {
        self.text@
    }
}

impl Xpub {
    /// The key's text, for rendering and for handing to devices.
    pub fn text(&self) -> (r: &Vec<u8>)
        ensures
            r@ == self@,
    {
        &self.text
    }

    /// The 32-bit fingerprint: the fold of the full text. Equal texts have
    /// equal fingerprints, so comparing fingerprints detects an heir key
    /// reused as the owner key.
    pub fn fingerprint(&self) -> (r: u32)
        ensures
            r == fold31(self@),
    {
        fold_bytes(self.text.as_slice())
    }
}

fn prefix_is(s: &[u8], a: u8, b: u8, c: u8, d: u8) -> (r: bool)
    requires
        s@.len() >= 4,
    ensures
        r == (s@.subrange(0, 4) == seq![a, b, c, d]),
{
    let r = *vstd::slice::slice_index_get(s, 0) == a && *vstd::slice::slice_index_get(s, 1) == b
        && *vstd::slice::slice_index_get(s, 2) == c && *vstd::slice::slice_index_get(s, 3) == d;
    proof {
        if r {
            assert(s@.subrange(0, 4) =~= seq![a, b, c, d]);
        } else {
            assert(s@.subrange(0, 4) != seq![a, b, c, d]);
        }
    }
    r
}

/// Checks a raw key text against network `n` and wraps it on success.
/// The outcome is exactly what `key_check` decides.
pub fn parse_key(s: &[u8], n: Network) -> (r: Result<Xpub, KeyError>)
    ensures
        r is Ok <==> key_wf(s@, n),
        (r matches Ok(k) ==> k@ == s@),
        (r matches Err(e) ==> key_check(s@, n) == Some(e)),
{
    proof {
        lemma_key_check_none(s@, n);
        lemma_prefixes_distinct();
    }
    if s.len() != KEY_LEN {
        return Err(KeyError::Length);
    }
    if prefix_is(s, 'x' as u8, 'p' as u8, 'r' as u8, 'v' as u8) || prefix_is(
        s,
        't' as u8,
        'p' as u8,
        'r' as u8,
        'v' as u8,
    ) {
        return Err(KeyError::PrivateMaterial);
    }
    let main = n.uses_main_prefix();
    let has_xpub = prefix_is(s, 'x' as u8, 'p' as u8, 'u' as u8, 'b' as u8);
    let has_tpub = prefix_is(s, 't' as u8, 'p' as u8, 'u' as u8, 'b' as u8);
    if main && has_tpub || !main && has_xpub {
        return Err(KeyError::NetworkMismatch);
    }
    if !(main && has_xpub || !main && has_tpub) {
        return Err(KeyError::Prefix);
    }
    proof {
        assert(s@.subrange(0, 4) == spec_pub_prefix(n));
        assert(s@.subrange(0, 4) != spec_xprv_prefix());
        assert(s@.subrange(0, 4) != spec_tprv_prefix());
        assert(s@.subrange(0, 4) != spec_wrong_pub_prefix(n));
    }
    let mut i: usize = 4;
    while i < KEY_LEN
        invariant
            4 <= i <= KEY_LEN,
            s@.len() == KEY_LEN,
            s@.subrange(0, 4) == spec_pub_prefix(n),
            s@.subrange(0, 4) != spec_xprv_prefix(),
            s@.subrange(0, 4) != spec_tprv_prefix(),
            s@.subrange(0, 4) != spec_wrong_pub_prefix(n),
            forall|j: int| 4 <= j < i ==> is_base58(#[trigger] s@[j]),
        decreases KEY_LEN - i,
    {
        let b = *vstd::slice::slice_index_get(s, i);
        let ok = (('1' as u8) <= b && b <= ('9' as u8)) || (('A' as u8) <= b && b <= ('Z' as u8)
            && b != ('I' as u8) && b != ('O' as u8)) || (('a' as u8) <= b && b <= ('z' as u8) && b
            != ('l' as u8));
        if !ok {
            proof {
                assert(exists|j: int| 4 <= j < s@.len() && !is_base58(#[trigger] s@[j])) by {
                    assert(!is_base58(s@[i as int]));
                }
            }
            return Err(KeyError::Character);
        }
        i = i + 1;
    }
    Ok(Xpub { text: vstd::slice::slice_to_vec(s) })
}

} // verus!
