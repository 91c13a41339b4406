//! Node-connection input. The address is checked here, as `host:port`
//! with a sixteen-bit decimal port; whether the credential cookie is
//! readable and whether the node answers is probed outside, and the
//! outcome comes back to the state machine as a completion event.

use vstd::prelude::*;

use crate::bytes::{
    all_dec_digits, copy_range, dec_value, has_control, is_control, is_dec_digit, parse_u16,
    DecResult,
};

verus! {

/// Why a node connection attempt was rejected.
#[derive(Clone, Copy, Debug, PartialEq, Eq, Structural)]
pub enum ConnectionError {
    /// The address field is not `host:port` with a valid port.
    AddressUnparseable,
    /// The credential file cannot be read.
    CookieUnreadable,
    /// The node refused the connection.
    ConnectionRefused,
    /// No answer within the bounded probe window.
    Timeout,
}

/// A validated node connection: host, port, and the credential-file path
/// to present at connection time.
#[derive(Clone, Debug)]
pub struct BitcoindConfig {
    pub host: Vec<u8>,
    pub port: u16,
    pub cookie_path: Vec<u8>,
}

/// Position `i` splits `s` into a valid address: a nonempty host free of
/// control bytes, one colon, then only decimal digits whose value fits a
/// port. Because everything after the colon must be a digit, at most one
/// position can qualify.
pub open spec fn addr_ok(s: Seq<u8>, i: int) -> bool {
    &&& 1 <= i
    &&& i + 1 < s.len()
    &&& s[i] == (':' as u8)
    &&& (forall|j: int| 0 <= j < i ==> !is_control(#[trigger] s[j]))
    &&& (forall|j: int| i < j < s.len() ==> is_dec_digit(#[trigger] s[j]))
    &&& dec_value(s.subrange(i + 1, s.len() as int)) <= 65535
}

/// A host that can stand as one line-bounded field of the artifact.
pub open spec fn host_ok(s: Seq<u8>) -> bool {
    s.len() > 0 && (forall|j: int| 0 <= j < s.len() ==> !is_control(#[trigger] s[j]))
}

/// A credential path that can stand as one line-bounded field of the
/// artifact.
pub open spec fn path_ok(s: Seq<u8>) -> bool {
    s.len() > 0 && (forall|j: int| 0 <= j < s.len() ==> !is_control(#[trigger] s[j]))
}

/// Whether `s` is acceptable as the credential-file path.
pub fn path_is_ok(s: &[u8]) -> (r: bool)
    ensures
        r == path_ok(s@),
{
    s.len() > 0 && !has_control(s)
}

/// A node connection whose fields survive the line-oriented artifact.
pub open spec fn cfg_wf(c: BitcoindConfig) -> bool {
    host_ok(c.host@) && path_ok(c.cookie_path@)
}

/// Splits an address field into host and port. Accepts exactly the fields
/// some position splits validly, and returns that split.
pub fn parse_addr(s: &[u8]) -> (r: Option<(Vec<u8>, u16)>)
    ensures
        (r matches Some(hp) ==> {
            &&& addr_ok(s@, hp.0@.len() as int)
            &&& hp.0@ == s@.subrange(0, hp.0@.len() as int)
            &&& hp.1 == dec_value(s@.subrange(hp.0@.len() as int + 1, s@.len() as int))
        }),
        r is None ==> (forall|i: int| !addr_ok(s@, i)),
{
    let n = s.len();
    let mut last_colon: usize = 0;
    let mut found = false;
    let mut k: usize = 0;
    while k < n
        invariant
            0 <= k <= n,
            n == s@.len(),
            found ==> last_colon < k && s@[last_colon as int] == (':' as u8),
            forall|j: int| 0 <= j < k && s@[j] == (':' as u8) ==> found && j <= last_colon,
        decreases n - k,
    {
        if *vstd::slice::slice_index_get(s, k) == (':' as u8) {
            last_colon = k;
            found = true;
        }
        k = k + 1;
    }
    if !found {
        proof {
            assert forall|i: int| !addr_ok(s@, i) by {
                if 0 <= i < n {
                    assert(s@[i] != (':' as u8));
                }
            }
        }
        return None;
    }
    let ci = last_colon;
    if ci == 0 || ci + 1 >= n {
        proof {
            assert forall|i: int| !addr_ok(s@, i) by {
                if addr_ok(s@, i) {
                    assert(s@[i] == (':' as u8));
                    assert(i <= ci);
                    if i < ci {
                        assert(is_dec_digit(s@[ci as int]));
                    }
                }
            }
        }
        return None;
    }
    let digits = vstd::slice::slice_subrange(s, ci + 1, n);
    match parse_u16(digits) {
        DecResult::Value(p) => {
            if has_control(vstd::slice::slice_subrange(s, 0, ci)) {
                proof {
                    let pos = choose|j: int|
                        0 <= j < ci && is_control(#[trigger] s@.subrange(0, ci as int)[j]);
                    assert(is_control(s@[pos]));
                    assert forall|i: int| !addr_ok(s@, i) by {
                        if addr_ok(s@, i) {
                            assert(s@[i] == (':' as u8));
                            assert(i <= ci);
                            if i <= pos {
                                assert(i < ci);
                                assert(is_dec_digit(s@[ci as int]));
                            } else {
                                assert(!is_control(s@[pos]));
                            }
                        }
                    }
                }
                return None;
            }
            let host = copy_range(s, 0, ci);
            proof {
                assert forall|j: int| ci < j < n implies is_dec_digit(#[trigger] s@[j]) by {
                    assert(digits@[j - ci - 1] == s@[j]);
                }
                assert forall|j: int| 0 <= j < ci implies !is_control(#[trigger] s@[j]) by {
                    assert(s@.subrange(0, ci as int)[j] == s@[j]);
                }
            }
            Some((host, p))
        },
        _ => {
            proof {
                assert forall|i: int| !addr_ok(s@, i) by {
                    if addr_ok(s@, i) {
                        assert(s@[i] == (':' as u8));
                        assert(i <= ci);
                        if i < ci {
                            assert(is_dec_digit(s@[ci as int]));
                        } else {
                            assert(all_dec_digits(digits@)) by {
                                assert(forall|j: int|
                                    0 <= j < digits@.len() ==> digits@[j] == s@[ci + 1 + j]);
                            }
                            assert(digits@.len() > 0);
                            assert(digits@ =~= s@.subrange(i + 1, n as int));
                        }
                    }
                }
            }
            None
        },
    }
}

} // verus!
