//! The inheritance descriptor: built from an owner key, an heir key and a
//! relative timelock, rendered as a canonical policy text with a trailing
//! checksum, and parsed back from such a text.
//!
//! The policy reads `wsh(or(pk(OWNER),and(pk(HEIR),older(N))))`: the owner
//! can spend at any time, the heir only once the funding output has `N`
//! confirmations. The render is canonical — one descriptor, one text — and
//! `parse_imported` accepts exactly the canonical renders, so parsing a
//! rendered descriptor gives the descriptor back.

use vstd::prelude::*;

use crate::bytes::{
    all_dec_digits, bytes_eq, dec_render, dec_value, fold31, fold_bytes, hex_render,
    is_dec_digit, lemma_dec_render_len, lemma_dec_render_shape, lemma_dec_value_of_render,
    parse_u16, push_all, push_dec, push_hex8, DecResult,
};
use crate::keys::{key_check, key_wf, lemma_key_check_none, parse_key, KeyError, Xpub, KEY_LEN};
use crate::network::Network;

verus! {

/// Why a timelock field was rejected.
#[derive(Clone, Copy, Debug, PartialEq, Eq, Structural)]
pub enum TimelockError {
    /// The field is not a decimal number at all.
    NotANumber,
    /// The field is zero or negative; a relative timelock must be positive.
    NotPositive,
    /// The number does not fit the sixteen-bit relative-locktime range.
    TooHigh,
}

/// Why descriptor input was rejected.
#[derive(Clone, Copy, Debug, PartialEq, Eq, Structural)]
pub enum ValidationError {
    OwnerKey(KeyError),
    HeirKey(KeyError),
    /// Owner and heir key have the same fingerprint: an heir who is also
    /// the owner defeats the inheritance policy.
    SameKey,
    Timelock(TimelockError),
    /// An imported text does not have the canonical descriptor shape.
    Structure,
    /// An imported text's checksum does not match its body.
    Checksum,
}

/// The first reason to reject a timelock field, or `None` if it holds a
/// positive number within the sixteen-bit range.
pub open spec fn timelock_check(s: Seq<u8>) -> Option<TimelockError> {
    if s.len() >= 2 && s[0] == ('-' as u8) && all_dec_digits(s.subrange(1, s.len() as int)) {
        Some(TimelockError::NotPositive)
    } else if s.len() == 0 || !all_dec_digits(s) {
        Some(TimelockError::NotANumber)
    } else if dec_value(s) == 0 {
        Some(TimelockError::NotPositive)
    } else if dec_value(s) > 65535 {
        Some(TimelockError::TooHigh)
    } else {
        None
    }
}

/// Reads a timelock field. The outcome is exactly what `timelock_check`
/// decides, and an accepted value is the field's decimal value.
pub fn parse_timelock(s: &[u8]) -> (r: Result<u16, TimelockError>)
    ensures
        (r matches Ok(v) ==> timelock_check(s@) is None && v == dec_value(s@) && 1 <= v <= 65535),
        (r matches Err(e) ==> timelock_check(s@) == Some(e)),
        timelock_check(s@) is None ==> r is Ok,
{
    if s.len() >= 2 && *vstd::slice::slice_index_get(s, 0) == ('-' as u8) {
        let rest = vstd::slice::slice_subrange(s, 1, s.len());
        match parse_u16(rest) {
            DecResult::NotDigits => {},
            _ => {
                return Err(TimelockError::NotPositive);
            },
        }
    }
    match parse_u16(s) {
        DecResult::NotDigits => Err(TimelockError::NotANumber),
        DecResult::TooBig => Err(TimelockError::TooHigh),
        DecResult::Value(v) => {
            if v == 0 {
                Err(TimelockError::NotPositive)
            } else {
                Ok(v)
            }
        },
    }
}

/// A validated inheritance descriptor.
#[derive(Clone, Debug, PartialEq, Eq)]
pub struct Descriptor {
    pub network: Network,
    pub owner: Xpub,
    pub heir: Xpub,
    pub timelock: u16,
}

impl Descriptor {
    /// Both keys are well formed for the descriptor's network, their
    /// fingerprints differ, and the timelock is positive.
    pub open spec fn wf(self) -> bool {
        &&& key_wf(self.owner@, self.network)
        &&& key_wf(self.heir@, self.network)
        &&& fold31(self.owner@) != fold31(self.heir@)
        &&& self.timelock >= 1
    }
}

/// Same network, same key texts, same timelock.
pub open spec fn desc_eq(a: Descriptor, b: Descriptor) -> bool {
    &&& a.network == b.network
    &&& a.owner@ == b.owner@
    &&& a.heir@ == b.heir@
    &&& a.timelock == b.timelock
}

/// "wsh(or(pk(" — opens the policy and the owner spend path.
pub open spec fn lit_head() -> Seq<u8> {
    seq![
        'w' as u8,
        's' as u8,
        'h' as u8,
        '(' as u8,
        'o' as u8,
        'r' as u8,
        '(' as u8,
        'p' as u8,
        'k' as u8,
        '(' as u8,
    ]
}

/// "),and(pk(" — closes the owner key, opens the heir spend path.
pub open spec fn lit_mid() -> Seq<u8> {
    seq![
        ')' as u8,
        ',' as u8,
        'a' as u8,
        'n' as u8,
        'd' as u8,
        '(' as u8,
        'p' as u8,
        'k' as u8,
        '(' as u8,
    ]
}

/// "),older(" — closes the heir key, opens the timelock.
pub open spec fn lit_older() -> Seq<u8> {
    seq![
        ')' as u8,
        ',' as u8,
        'o' as u8,
        'l' as u8,
        'd' as u8,
        'e' as u8,
        'r' as u8,
        '(' as u8,
    ]
}

/// "))))" — closes older, and, or and wsh.
pub open spec fn lit_close() -> Seq<u8> {
    seq![')' as u8, ')' as u8, ')' as u8, ')' as u8]
}

/// The checksummed part of the rendering: policy text without the trailing
/// `#` and checksum digits.
pub open spec fn spec_body(d: Descriptor) -> Seq<u8> {
    lit_head() + d.owner@ + lit_mid() + d.heir@ + lit_older() + dec_render(d.timelock as nat)
        + lit_close()
}

/// The full canonical rendering: body, `#`, and the body's checksum as
/// eight hexadecimal digits.
pub open spec fn spec_render(d: Descriptor) -> Seq<u8> {
    spec_body(d) + seq!['#' as u8] + hex_render(fold31(spec_body(d)), 8)
}

/// Where each part of a well-formed descriptor's rendering stands. The
/// offsets are fixed because key texts have a fixed length; only the digit
/// run of the timelock varies, between one and five bytes.
pub proof fn lemma_render_structure(d: Descriptor)
    requires
        d.wf(),
    ensures
        spec_body(d).len() == 253 + dec_render(d.timelock as nat).len(),
        spec_render(d).len() == 262 + dec_render(d.timelock as nat).len(),
        1 <= dec_render(d.timelock as nat).len() <= 5,
        263 <= spec_render(d).len() <= 267,
        spec_render(d).subrange(0, 10) == lit_head(),
        spec_render(d).subrange(10, 121) == d.owner@,
        spec_render(d).subrange(121, 130) == lit_mid(),
        spec_render(d).subrange(130, 241) == d.heir@,
        spec_render(d).subrange(241, 249) == lit_older(),
        ({
            let dn = dec_render(d.timelock as nat).len() as int;
            &&& spec_render(d).subrange(249, 249 + dn) == dec_render(d.timelock as nat)
            &&& spec_render(d).subrange(249 + dn, 253 + dn) == lit_close()
            &&& spec_render(d)[253 + dn] == ('#' as u8)
            &&& spec_render(d).subrange(254 + dn, 262 + dn) == hex_render(
                fold31(spec_body(d)),
                8,
            )
            &&& spec_body(d) == spec_render(d).subrange(0, 253 + dn)
        }),
{
    lemma_dec_render_shape(d.timelock as nat);
    lemma_dec_render_len(d.timelock as nat);
    let dg = dec_render(d.timelock as nat);
    let dn = dg.len() as int;
    let b = spec_body(d);
    let r = spec_render(d);
    assert(hex_render(fold31(b), 8).len() == 8) by {
        lemma_hex_render_len(fold31(b), 8);
    }
    assert(r.subrange(0, 10) =~= lit_head());
    assert(r.subrange(10, 121) =~= d.owner@);
    assert(r.subrange(121, 130) =~= lit_mid());
    assert(r.subrange(130, 241) =~= d.heir@);
    assert(r.subrange(241, 249) =~= lit_older());
    assert(r.subrange(249, 249 + dn) =~= dg);
    assert(r.subrange(249 + dn, 253 + dn) =~= lit_close());
    assert(r.subrange(254 + dn, 262 + dn) =~= hex_render(fold31(b), 8));
    assert(b =~= r.subrange(0, 253 + dn));
}

/// A hexadecimal rendering has exactly as many digits as asked for.
pub proof fn lemma_hex_render_len(v: nat, k: nat)
    ensures
        hex_render(v, k).len() == k,
    decreases k,
{
    if k > 0 {
        lemma_hex_render_len(v / 16, (k - 1) as nat);
    }
}

/// Rendering is a function of the descriptor's fields alone: equal
/// descriptors render to the identical text.
pub proof fn lemma_render_deterministic(a: Descriptor, b: Descriptor)
    requires
        desc_eq(a, b),
    ensures
        spec_render(a) == spec_render(b),
{
    assert(spec_body(a) == spec_body(b));
}

/// The rendering is canonical: two well-formed descriptors with the same
/// text agree on keys and timelock. (The network is determined only up to
/// its key-prefix family, since every test network shares one prefix.)
pub proof fn lemma_render_injective(a: Descriptor, b: Descriptor)
    requires
        a.wf(),
        b.wf(),
        spec_render(a) == spec_render(b),
    ensures
        a.owner@ == b.owner@,
        a.heir@ == b.heir@,
        a.timelock == b.timelock,
{
    lemma_render_structure(a);
    lemma_render_structure(b);
    let da = dec_render(a.timelock as nat);
    let db = dec_render(b.timelock as nat);
    assert(da.len() == db.len());
    assert(da == db);
    lemma_dec_value_of_render(a.timelock as nat);
    lemma_dec_value_of_render(b.timelock as nat);
}

/// Builds a descriptor from raw owner-key, heir-key and timelock fields.
/// Checks run in a fixed order — owner key, heir key, key equality,
/// timelock — and the outcome is exactly what `spec_validate_err` decides.
pub open spec fn spec_validate_err(
    o: Seq<u8>,
    h: Seq<u8>,
    t: Seq<u8>,
    net: Network,
) -> Option<ValidationError> {
    if key_check(o, net) is Some {
        Some(ValidationError::OwnerKey(key_check(o, net).unwrap()))
    } else if key_check(h, net) is Some {
        Some(ValidationError::HeirKey(key_check(h, net).unwrap()))
    } else if fold31(o) == fold31(h) {
        Some(ValidationError::SameKey)
    } else if timelock_check(t) is Some {
        Some(ValidationError::Timelock(timelock_check(t).unwrap()))
    } else {
        None
    }
}

/// Validates the three raw fields against the chosen network and builds
/// the derived descriptor.
pub fn validate(owner: &[u8], heir: &[u8], timelock: &[u8], net: Network) -> (r: Result<
    Descriptor,
    ValidationError,
>)
    ensures
        (r matches Err(e) ==> spec_validate_err(owner@, heir@, timelock@, net) == Some(e)),
        (r matches Ok(d) ==> {
            &&& spec_validate_err(owner@, heir@, timelock@, net) is None
            &&& d.wf()
            &&& d.network == net
            &&& d.owner@ == owner@
            &&& d.heir@ == heir@
            &&& d.timelock == dec_value(timelock@)
        }),
        spec_validate_err(owner@, heir@, timelock@, net) is None ==> r is Ok,
{
    proof {
        lemma_key_check_none(owner@, net);
        lemma_key_check_none(heir@, net);
    }
    let o = match parse_key(owner, net) {
        Ok(k) => k,
        Err(e) => {
            return Err(ValidationError::OwnerKey(e));
        },
    };
    let h = match parse_key(heir, net) {
        Ok(k) => k,
        Err(e) => {
            return Err(ValidationError::HeirKey(e));
        },
    };
    if o.fingerprint() == h.fingerprint() {
        return Err(ValidationError::SameKey);
    }
    let t = match parse_timelock(timelock) {
        Ok(v) => v,
        Err(e) => {
            return Err(ValidationError::Timelock(e));
        },
    };
    Ok(Descriptor { network: net, owner: o, heir: h, timelock: t })
}

/// Whatever the other fields, reusing one key text for owner and heir
/// never validates.
pub proof fn lemma_same_key_rejected(o: Seq<u8>, t: Seq<u8>, net: Network)
    ensures
        spec_validate_err(o, o, t, net) is Some,
{
}

/// A key well formed for the other network family is rejected as a
/// mismatch, whatever the remaining fields hold.
pub proof fn lemma_wrong_network_rejected(
    o: Seq<u8>,
    h: Seq<u8>,
    t: Seq<u8>,
    net: Network,
    wrong: Network,
)
    requires
        key_wf(o, wrong),
        crate::network::spec_uses_main_prefix(wrong) != crate::network::spec_uses_main_prefix(net),
    ensures
        spec_validate_err(o, h, t, net) == Some(ValidationError::OwnerKey(
            KeyError::NetworkMismatch,
        )),
{
    crate::keys::lemma_network_mismatch(o, wrong, net);
}

/// Spend-path satisfiability of the policy at a given confirmation depth:
/// the owner path needs only the owner signature; the heir path needs the
/// heir signature and a matured timelock.
pub open spec fn spendable(
    d: Descriptor,
    owner_sig: bool,
    heir_sig: bool,
    confirmations: nat,
) -> bool {
    owner_sig || (heir_sig && confirmations >= d.timelock)
}

/// Decides whether the descriptor can be satisfied with the signatures at
/// hand at the given confirmation depth.
pub fn can_spend(d: &Descriptor, owner_sig: bool, heir_sig: bool, confirmations: u32) -> (r: bool)
    ensures
        r == spendable(*d, owner_sig, heir_sig, confirmations as nat),
{
    owner_sig || (heir_sig && confirmations >= d.timelock as u32)
}

/// The inheritance policy itself: the owner path is satisfiable from
/// confirmation depth zero onward; the heir path alone is satisfiable
/// exactly from the timelock onward, and never before; no path is
/// satisfiable without a signature.
pub proof fn lemma_inheritance_policy(d: Descriptor, c: nat)
    requires
        d.wf(),
    ensures
        spendable(d, true, false, 0),
        spendable(d, true, false, c),
        c < d.timelock ==> !spendable(d, false, true, c),
        c >= d.timelock ==> spendable(d, false, true, c),
        !spendable(d, false, false, c),
{
}

fn dec_digit_at(s: &[u8], j: usize) -> (r: bool)
    requires
        j < s@.len(),
    ensures
        r == is_dec_digit(s@[j as int]),
{
    let b = *vstd::slice::slice_index_get(s, j);
    ('0' as u8) <= b && b <= ('9' as u8)
}

/// Parses an imported descriptor text against the chosen network.
///
/// Exactly the canonical renders of well-formed descriptors for `net` are
/// accepted: a successful parse is well formed and renders back to the
/// input, and every well-formed descriptor for `net` whose rendering is
/// the input parses successfully. A checksum failure is told apart from a
/// malformed shape; an embedded key rejection keeps its reason, so a text
/// whose keys belong to the other network family fails as a mismatch.
#[verifier::rlimit(100)]
pub fn parse_imported(s: &[u8], net: Network) -> (r: Result<Descriptor, ValidationError>)
    ensures
        (r matches Ok(p) ==> p.wf() && p.network == net && spec_render(p) == s@),
        forall|d: Descriptor|
            d.wf() && d.network == net && spec_render(d) == s@ ==> r is Ok,
{
    let n = s.len();
    if n < 263 || n > 267 {
        proof {
            assert forall|d: Descriptor|
                d.wf() && d.network == net && spec_render(d) == s@ implies false by {
                lemma_render_structure(d);
            }
        }
        return Err(ValidationError::Structure);
    }
    if !bytes_eq(vstd::slice::slice_subrange(s, 0, 10), lit_head_vec().as_slice()) {
        proof {
            assert forall|d: Descriptor|
                d.wf() && d.network == net && spec_render(d) == s@ implies false by {
                lemma_render_structure(d);
            }
        }
        return Err(ValidationError::Structure);
    }
    let o = match parse_key(vstd::slice::slice_subrange(s, 10, 121), net) {
        Ok(k) => k,
        Err(e) => {
            proof {
                assert forall|d: Descriptor|
                    d.wf() && d.network == net && spec_render(d) == s@ implies false by {
                    lemma_render_structure(d);
                }
            }
            return Err(ValidationError::OwnerKey(e));
        },
    };
    if !bytes_eq(vstd::slice::slice_subrange(s, 121, 130), lit_mid_vec().as_slice()) {
        proof {
            assert forall|d: Descriptor|
                d.wf() && d.network == net && spec_render(d) == s@ implies false by {
                lemma_render_structure(d);
            }
        }
        return Err(ValidationError::Structure);
    }
    let h = match parse_key(vstd::slice::slice_subrange(s, 130, 241), net) {
        Ok(k) => k,
        Err(e) => {
            proof {
                assert forall|d: Descriptor|
                    d.wf() && d.network == net && spec_render(d) == s@ implies false by {
                    lemma_render_structure(d);
                }
            }
            return Err(ValidationError::HeirKey(e));
        },
    };
    if !bytes_eq(vstd::slice::slice_subrange(s, 241, 249), lit_older_vec().as_slice()) {
        proof {
            assert forall|d: Descriptor|
                d.wf() && d.network == net && spec_render(d) == s@ implies false by {
                lemma_render_structure(d);
            }
        }
        return Err(ValidationError::Structure);
    }
    let mut j: usize = 249;
    while j < n && j < 255 && dec_digit_at(s, j)
        invariant
            249 <= j <= 255,
            j <= n,
            n == s@.len(),
            263 <= n <= 267,
            forall|k: int| 249 <= k < j ==> is_dec_digit(#[trigger] s@[k]),
        decreases n - j,
    {
        j = j + 1;
    }
    let dl = j - 249;
    if dl == 0 || dl > 5 {
        proof {
            assert forall|d: Descriptor|
                d.wf() && d.network == net && spec_render(d) == s@ implies false by {
                lemma_render_structure(d);
                lemma_dec_render_shape(d.timelock as nat);
                let dn = dec_render(d.timelock as nat).len() as int;
                if dl == 0 {
                    assert(s@[249] == dec_render(d.timelock as nat)[0]);
                    assert(is_dec_digit(s@[249]));
                } else {
                    assert(s@[249 + dn] == lit_close()[0]);
                    assert(is_dec_digit(s@[249 + dn]));
                }
            }
        }
        return Err(ValidationError::Structure);
    }
    proof {
        assert forall|d: Descriptor|
            d.wf() && d.network == net && spec_render(d) == s@ implies dec_render(
            d.timelock as nat,
        ).len() == dl as int by {
            lemma_render_structure(d);
            lemma_dec_render_shape(d.timelock as nat);
            let dn = dec_render(d.timelock as nat).len() as int;
            if dn > dl as int {
                assert(s@[249 + dl] == dec_render(d.timelock as nat)[dl as int]);
                assert(is_dec_digit(s@[249 + dl]));
            } else if dn < dl as int {
                assert(s@[249 + dn] == lit_close()[0]);
                assert(is_dec_digit(s@[249 + dn]));
            }
        }
    }
    if dl > 1 && *vstd::slice::slice_index_get(s, 249) == ('0' as u8) {
        proof {
            assert forall|d: Descriptor|
                d.wf() && d.network == net && spec_render(d) == s@ implies false by {
                lemma_render_structure(d);
                lemma_dec_render_shape(d.timelock as nat);
                assert(s@[249] == dec_render(d.timelock as nat)[0]);
            }
        }
        return Err(ValidationError::Structure);
    }
    let digits = vstd::slice::slice_subrange(s, 249, j);
    let v = match parse_u16(digits) {
        DecResult::Value(x) => x,
        DecResult::NotDigits => {
            proof {
                assert(all_dec_digits(digits@));
                assert(false);
            }
            return Err(ValidationError::Structure);
        },
        DecResult::TooBig => {
            proof {
                assert forall|d: Descriptor|
                    d.wf() && d.network == net && spec_render(d) == s@ implies false by {
                    lemma_render_structure(d);
                    lemma_dec_value_of_render(d.timelock as nat);
                    assert(digits@ == dec_render(d.timelock as nat));
                }
            }
            return Err(ValidationError::Timelock(TimelockError::TooHigh));
        },
    };
    if v == 0 {
        proof {
            assert forall|d: Descriptor|
                d.wf() && d.network == net && spec_render(d) == s@ implies false by {
                lemma_render_structure(d);
                lemma_dec_value_of_render(d.timelock as nat);
                assert(digits@ == dec_render(d.timelock as nat));
            }
        }
        return Err(ValidationError::Timelock(TimelockError::NotPositive));
    }
    proof {
        crate::bytes::lemma_canonical_digits(digits@);
        assert(dec_render(v as nat) == digits@);
    }
    if !bytes_eq(vstd::slice::slice_subrange(s, j, j + 4), lit_close_vec().as_slice()) || *
    vstd::slice::slice_index_get(s, j + 4) != ('#' as u8) {
        proof {
            assert forall|d: Descriptor|
                d.wf() && d.network == net && spec_render(d) == s@ implies false by {
                lemma_render_structure(d);
                let dn = dec_render(d.timelock as nat).len() as int;
                assert(s@.subrange(249 + dn, 253 + dn) == lit_close());
                assert(s@.subrange(j as int, j + 4) =~= s@.subrange(249 + dn, 253 + dn));
            }
        }
        return Err(ValidationError::Structure);
    }
    if n != 262 + dl {
        proof {
            assert forall|d: Descriptor|
                d.wf() && d.network == net && spec_render(d) == s@ implies false by {
                lemma_render_structure(d);
            }
        }
        return Err(ValidationError::Structure);
    }
    let c = fold_bytes(vstd::slice::slice_subrange(s, 0, j + 4));
    let mut expect: Vec<u8> = Vec::new();
    push_hex8(c, &mut expect);
    if !bytes_eq(vstd::slice::slice_subrange(s, j + 5, n), expect.as_slice()) {
        proof {
            assert forall|d: Descriptor|
                d.wf() && d.network == net && spec_render(d) == s@ implies false by {
                lemma_render_structure(d);
                let dn = dec_render(d.timelock as nat).len() as int;
                assert(spec_body(d) == s@.subrange(0, 253 + dn));
                assert(s@.subrange(254 + dn, 262 + dn) == hex_render(fold31(spec_body(d)), 8));
                assert(s@.subrange(j + 5, n as int) =~= s@.subrange(254 + dn, 262 + dn));
            }
        }
        return Err(ValidationError::Checksum);
    }
    if o.fingerprint() == h.fingerprint() {
        proof {
            assert forall|d: Descriptor|
                d.wf() && d.network == net && spec_render(d) == s@ implies false by {
                lemma_render_structure(d);
                assert(d.owner@ == o@);
                assert(d.heir@ == h@);
            }
        }
        return Err(ValidationError::SameKey);
    }
    let p = Descriptor { network: net, owner: o, heir: h, timelock: v };
    proof {
        assert(key_wf(p.owner@, net));
        assert(key_wf(p.heir@, net));
        assert(p.wf());
        let dli = dl as int;
        assert(lit_head().len() == 10);
        assert(lit_mid().len() == 9);
        assert(lit_older().len() == 8);
        assert(lit_close().len() == 4);
        assert(p.owner@.len() == 111);
        assert(p.heir@.len() == 111);
        assert(dec_render(p.timelock as nat).len() == dli);
        assert(spec_body(p) =~= s@.subrange(0, 253 + dli)) by {
            assert(p.owner@ == s@.subrange(10, 121));
            assert(p.heir@ == s@.subrange(130, 241));
            assert(dec_render(p.timelock as nat) == s@.subrange(249, 249 + dli));
            assert(s@.subrange(0, 10) == lit_head());
            assert(s@.subrange(121, 130) == lit_mid());
            assert(s@.subrange(241, 249) == lit_older());
            assert(s@.subrange(j as int, j + 4) == lit_close());
            assert forall|i: int| 0 <= i < 253 + dli implies spec_body(p)[i] == s@.subrange(
                0,
                253 + dli,
            )[i] by {
                if i < 10 {
                    assert(spec_body(p)[i] == lit_head()[i]);
                    assert(s@.subrange(0, 10)[i] == s@[i]);
                } else if i < 121 {
                    assert(spec_body(p)[i] == p.owner@[i - 10]);
                    assert(s@.subrange(10, 121)[i - 10] == s@[i]);
                } else if i < 130 {
                    assert(spec_body(p)[i] == lit_mid()[i - 121]);
                    assert(s@.subrange(121, 130)[i - 121] == s@[i]);
                } else if i < 241 {
                    assert(spec_body(p)[i] == p.heir@[i - 130]);
                    assert(s@.subrange(130, 241)[i - 130] == s@[i]);
                } else if i < 249 {
                    assert(spec_body(p)[i] == lit_older()[i - 241]);
                    assert(s@.subrange(241, 249)[i - 241] == s@[i]);
                } else if i < 249 + dli {
                    assert(spec_body(p)[i] == dec_render(p.timelock as nat)[i - 249]);
                    assert(s@.subrange(249, 249 + dli)[i - 249] == s@[i]);
                } else {
                    assert(spec_body(p)[i] == lit_close()[i - 249 - dli]);
                    assert(s@.subrange(j as int, j + 4)[i - 249 - dli] == s@[i]);
                }
            }
        }
        assert(fold31(spec_body(p)) == c);
        assert(s@.subrange(j + 5, n as int) == hex_render(c as nat, 8));
        assert(spec_render(p) =~= s@) by {
            crate::bytes::lemma_fold31_bound(spec_body(p));
            lemma_hex_render_len(fold31(spec_body(p)), 8);
            assert forall|i: int| 0 <= i < 262 + dli implies spec_render(p)[i] == s@[i] by {
                if i < 253 + dli {
                    assert(spec_render(p)[i] == spec_body(p)[i]);
                    assert(spec_body(p)[i] == s@.subrange(0, 253 + dli)[i]);
                } else if i == 253 + dli {
                    assert(spec_render(p)[i] == ('#' as u8));
                } else {
                    assert(spec_render(p)[i] == hex_render(fold31(spec_body(p)), 8)[i - 254
                        - dli]);
                    assert(s@.subrange(j + 5, n as int)[i - 254 - dli] == s@[i]);
                }
            }
        }
    }
    Ok(p)
}

/// Round trip: a well-formed descriptor, rendered and imported back under
/// its own network, is recovered unchanged.
pub fn reparse(d: &Descriptor) -> (r: Descriptor)
    requires
        d.wf(),
    ensures
        desc_eq(r, *d),
{
    let text = render(d);
    let parsed = parse_imported(text.as_slice(), d.network);
    match parsed {
        Ok(p) => {
            proof {
                lemma_render_injective(p, *d);
            }
            p
        },
        Err(_) => {
            proof {
                assert(false);
            }
            Descriptor {
                network: d.network,
                owner: d.owner.clone(),
                heir: d.heir.clone(),
                timelock: d.timelock,
            }
        },
    }
}

fn lit_head_vec() -> (r: Vec<u8>)
    ensures
        r@ == lit_head(),
{
    let mut v: Vec<u8> = Vec::new();
    v.push('w' as u8);
    v.push('s' as u8);
    v.push('h' as u8);
    v.push('(' as u8);
    v.push('o' as u8);
    v.push('r' as u8);
    v.push('(' as u8);
    v.push('p' as u8);
    v.push('k' as u8);
    v.push('(' as u8);
    assert(v@ =~= lit_head());
    v
}

fn lit_mid_vec() -> (r: Vec<u8>)
    ensures
        r@ == lit_mid(),
{
    let mut v: Vec<u8> = Vec::new();
    v.push(')' as u8);
    v.push(',' as u8);
    v.push('a' as u8);
    v.push('n' as u8);
    v.push('d' as u8);
    v.push('(' as u8);
    v.push('p' as u8);
    v.push('k' as u8);
    v.push('(' as u8);
    assert(v@ =~= lit_mid());
    v
}

fn lit_older_vec() -> (r: Vec<u8>)
    ensures
        r@ == lit_older(),
{
    let mut v: Vec<u8> = Vec::new();
    v.push(')' as u8);
    v.push(',' as u8);
    v.push('o' as u8);
    v.push('l' as u8);
    v.push('d' as u8);
    v.push('e' as u8);
    v.push('r' as u8);
    v.push('(' as u8);
    assert(v@ =~= lit_older());
    v
}

fn lit_close_vec() -> (r: Vec<u8>)
    ensures
        r@ == lit_close(),
{
    let mut v: Vec<u8> = Vec::new();
    v.push(')' as u8);
    v.push(')' as u8);
    v.push(')' as u8);
    v.push(')' as u8);
    assert(v@ =~= lit_close());
    v
}

/// Renders a descriptor into its canonical text.
pub fn render(d: &Descriptor) -> (r: Vec<u8>)
    ensures
        r@ == spec_render(*d),
{
    let mut out: Vec<u8> = Vec::new();
    push_all(lit_head_vec().as_slice(), &mut out);
    push_all(d.owner.text().as_slice(), &mut out);
    push_all(lit_mid_vec().as_slice(), &mut out);
    push_all(d.heir.text().as_slice(), &mut out);
    push_all(lit_older_vec().as_slice(), &mut out);
    push_dec(d.timelock, &mut out);
    push_all(lit_close_vec().as_slice(), &mut out);
    assert(out@ =~= spec_body(*d));
    let c = fold_bytes(out.as_slice());
    out.push('#' as u8);
    push_hex8(c, &mut out);
    assert(out@ =~= spec_render(*d));
    out
}

} // verus!
