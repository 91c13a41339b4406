//! Byte-level building blocks shared by the descriptor codec and the
//! configuration emitter: decimal digit strings, hexadecimal rendering,
//! a 32-bit folding hash, and byte-sequence comparison.

use vstd::prelude::*;

verus! {

/// True for the bytes `'0'` through `'9'`.
pub open spec fn is_dec_digit(b: u8) -> bool {
    ('0' as u8) <= b <= ('9' as u8)
}

pub open spec fn all_dec_digits(s: Seq<u8>) -> bool {
    forall|i: int| 0 <= i < s.len() ==> is_dec_digit(#[trigger] s[i])
}

/// Numeric value of one decimal digit byte.
pub open spec fn dec_digit_val(b: u8) -> nat {
    if b >= ('0' as u8) {
        (b - ('0' as u8)) as nat
    } else {
        0
    }
}

/// Value of a decimal digit string, most significant digit first.
pub open spec fn dec_value(s: Seq<u8>) -> nat
    decreases s.len(),
{
    if s.len() == 0 {
        0
    } else {
        dec_value(s.drop_last()) * 10 + dec_digit_val(s.last())
    }
}

/// Canonical decimal rendering of a number: no leading zeros.
pub open spec fn dec_render(n: nat) -> Seq<u8>
    decreases n,
{
    if n < 10 {
        seq![(('0' as u8) + n) as u8]
    } else {
        dec_render(n / 10).push((('0' as u8) + n % 10) as u8)
    }
}

pub proof fn lemma_dec_render_shape(n: nat)
    ensures
        dec_render(n).len() >= 1,
        all_dec_digits(dec_render(n)),
        n > 0 ==> dec_render(n)[0] != ('0' as u8),
    decreases n,
{
    if n >= 10 {
        lemma_dec_render_shape(n / 10);
        assert forall|i: int| 0 <= i < dec_render(n).len() implies is_dec_digit(
            #[trigger] dec_render(n)[i],
        ) by {
            if i < dec_render(n / 10).len() {
                assert(dec_render(n)[i] == dec_render(n / 10)[i]);
            }
        }
    }
}

/// Parsing the canonical rendering gives the number back.
pub proof fn lemma_dec_value_of_render(n: nat)
    ensures
        dec_value(dec_render(n)) == n,
    decreases n,
{
    if n < 10 {
        assert(dec_render(n).drop_last() =~= Seq::<u8>::empty());
        assert(dec_value(Seq::<u8>::empty()) == 0);
        assert(dec_render(n).last() == (('0' as u8) + n) as u8);
        assert(dec_digit_val((('0' as u8) + n) as u8) == n);
        assert(dec_value(dec_render(n)) == 0 * 10 + dec_digit_val(dec_render(n).last()));
    } else {
        lemma_dec_value_of_render(n / 10);
        assert(dec_render(n).drop_last() =~= dec_render(n / 10));
        assert(dec_digit_val((('0' as u8) + n % 10) as u8) == n % 10);
        assert(dec_value(dec_render(n)) == (n / 10) * 10 + n % 10);
        assert((n / 10) * 10 + n % 10 == n) by {
            vstd::arithmetic::div_mod::lemma_fundamental_div_mod(n as int, 10);
        };
    }
}

/// A rendering of a number below 100000 takes at most five digits.
pub proof fn lemma_dec_render_len(n: nat)
    ensures
        n < 10 ==> dec_render(n).len() == 1,
        n < 100 ==> dec_render(n).len() <= 2,
        n < 1000 ==> dec_render(n).len() <= 3,
        n < 10000 ==> dec_render(n).len() <= 4,
        n < 100000 ==> dec_render(n).len() <= 5,
    decreases n,
{
    if n >= 10 {
        lemma_dec_render_len(n / 10);
    }
}

/// The value of a digit string is at least the value of any of its prefixes.
pub proof fn lemma_dec_value_prefix(s: Seq<u8>, i: int)
    requires
        0 <= i <= s.len(),
    ensures
        dec_value(s.subrange(0, i)) <= dec_value(s),
    decreases s.len() - i,
{
    if i == s.len() {
        assert(s.subrange(0, i) =~= s);
    } else {
        lemma_dec_value_prefix(s, i + 1);
        assert(s.subrange(0, i + 1).drop_last() =~= s.subrange(0, i));
        assert(dec_value(s.subrange(0, i)) <= dec_value(s.subrange(0, i + 1)));
    }
}

/// A digit string with no leading zero is at least one, and at least ten
/// when it has two or more digits.
pub proof fn lemma_dec_value_lower(q: Seq<u8>)
    requires
        all_dec_digits(q),
        q.len() >= 1,
        q[0] != ('0' as u8),
    ensures
        dec_value(q) >= 1,
        q.len() >= 2 ==> dec_value(q) >= 10,
    decreases q.len(),
{
    if q.len() == 1 {
        assert(q.drop_last() =~= Seq::<u8>::empty());
        assert(is_dec_digit(q[0]));
        assert(dec_digit_val(q.last()) >= 1);
    } else {
        let q2 = q.drop_last();
        assert(q2[0] == q[0]);
        assert(all_dec_digits(q2)) by {
            assert(forall|i: int| 0 <= i < q2.len() ==> q2[i] == q[i]);
        }
        lemma_dec_value_lower(q2);
    }
}

/// A digit string in canonical form — no leading zero unless it is the
/// single digit zero — is the rendering of its own value.
pub proof fn lemma_canonical_digits(q: Seq<u8>)
    requires
        all_dec_digits(q),
        q.len() >= 1,
        q.len() >= 2 ==> q[0] != ('0' as u8),
    ensures
        dec_render(dec_value(q)) == q,
    decreases q.len(),
{
    if q.len() == 1 {
        assert(q.drop_last() =~= Seq::<u8>::empty());
        assert(is_dec_digit(q[0]));
        assert(dec_value(Seq::<u8>::empty()) == 0);
        assert(q.last() == q[0]);
        assert(dec_value(q) == 0 * 10 + dec_digit_val(q.last()));
        assert(dec_value(q) == dec_digit_val(q[0]));
        assert(dec_render(dec_value(q)) =~= q);
    } else {
        let q2 = q.drop_last();
        assert(q2[0] == q[0]);
        assert(all_dec_digits(q2)) by {
            assert(forall|i: int| 0 <= i < q2.len() ==> q2[i] == q[i]);
        }
        lemma_canonical_digits(q2);
        lemma_dec_value_lower(q);
        let v = dec_value(q);
        let v2 = dec_value(q2);
        let dl = dec_digit_val(q.last());
        assert(is_dec_digit(q.last()));
        assert(v == v2 * 10 + dl);
        assert(v >= 10);
        vstd::arithmetic::div_mod::lemma_fundamental_div_mod_converse(
            v as int,
            10,
            v2 as int,
            dl as int,
        );
        assert(dec_render(v) == dec_render(v2).push((('0' as u8) + v % 10) as u8));
        assert((('0' as u8) + v % 10) as u8 == q.last());
        assert(dec_render(v) =~= q);
    }
}

/// Outcome of reading a decimal field that must fit in sixteen bits.
#[derive(Clone, Copy, Debug, PartialEq, Eq, Structural)]
pub enum DecResult {
    Value(u16),
    NotDigits,
    TooBig,
}

/// Reads a decimal digit string into a sixteen-bit number, telling a
/// malformed field apart from one that is merely out of range.
pub fn parse_u16(s: &[u8]) -> (r: DecResult)
    ensures
        (r == DecResult::NotDigits) <==> (s@.len() == 0 || !all_dec_digits(s@)),
        (r == DecResult::TooBig) <==> (s@.len() > 0 && all_dec_digits(s@) && dec_value(s@)
            > 65535),
        (r matches DecResult::Value(v) ==> s@.len() > 0 && all_dec_digits(s@) && v == dec_value(
            s@,
        )),
{
    let n = s.len();
    if n == 0 {
        return DecResult::NotDigits;
    }
    let mut i: usize = 0;
    while i < n
        invariant
            0 <= i <= n,
            n == s@.len(),
            forall|j: int| 0 <= j < i ==> is_dec_digit(#[trigger] s@[j]),
        decreases n - i,
    {
        let b = *vstd::slice::slice_index_get(s, i);
        if b < ('0' as u8) || b > ('9' as u8) {
            return DecResult::NotDigits;
        }
        i = i + 1;
    }
    let mut acc: u32 = 0;
    let mut k: usize = 0;
    while k < n
        invariant
            0 <= k <= n,
            n == s@.len(),
            all_dec_digits(s@),
            acc <= 65535,
            acc == dec_value(s@.subrange(0, k as int)),
        decreases n - k,
    {
        let b = *vstd::slice::slice_index_get(s, k);
        let next: u32 = acc * 10 + (b - ('0' as u8)) as u32;
        proof {
            assert(s@.subrange(0, k + 1).drop_last() =~= s@.subrange(0, k as int));
            assert(dec_value(s@.subrange(0, k + 1)) == next);
        }
        if next > 65535 {
            proof {
                lemma_dec_value_prefix(s@, k + 1);
            }
            return DecResult::TooBig;
        }
        acc = next;
        k = k + 1;
    }
    proof {
        assert(s@.subrange(0, n as int) =~= s@);
    }
    DecResult::Value(acc as u16)
}

/// Appends the canonical decimal rendering of `n` to `out`.
pub fn push_dec(n: u16, out: &mut Vec<u8>)
    ensures
        final(out)@ == old(out)@ + dec_render(n as nat),
    decreases n,
{
    if n < 10 {
        out.push(('0' as u8) + n as u8);
        assert(final(out)@ =~= old(out)@ + dec_render(n as nat));
    } else {
        push_dec(n / 10, out);
        out.push(('0' as u8) + (n % 10) as u8);
        assert(final(out)@ =~= old(out)@ + dec_render(n as nat));
    }
}

/// Hexadecimal digit for a value below sixteen, lower case.
pub open spec fn hex_digit(n: nat) -> u8 {
    if n < 10 {
        (('0' as u8) + n) as u8
    } else {
        (('a' as u8) + (n - 10)) as u8
    }
}

/// The low `k` hexadecimal digits of `v`, most significant first.
pub open spec fn hex_render(v: nat, k: nat) -> Seq<u8>
    decreases k,
{
    if k == 0 {
        Seq::empty()
    } else {
        hex_render(v / 16, (k - 1) as nat).push(hex_digit(v % 16))
    }
}

fn push_hex_rec(v: u32, k: u8, out: &mut Vec<u8>)
    requires
        k <= 8,
    ensures
        final(out)@ == old(out)@ + hex_render(v as nat, k as nat),
    decreases k,
{
    if k == 0 {
        assert(final(out)@ =~= old(out)@ + hex_render(v as nat, 0));
    } else {
        push_hex_rec(v / 16, k - 1, out);
        let d = (v % 16) as u8;
        if d < 10 {
            out.push(('0' as u8) + d);
        } else {
            out.push(('a' as u8) + (d - 10));
        }
        assert(final(out)@ =~= old(out)@ + hex_render(v as nat, k as nat));
    }
}

/// Appends the eight-digit hexadecimal rendering of `v` to `out`.
pub fn push_hex8(v: u32, out: &mut Vec<u8>)
    ensures
        final(out)@ == old(out)@ + hex_render(v as nat, 8),
{
    push_hex_rec(v, 8, out);
}

/// A 32-bit fold of a byte string: the accumulator is multiplied by 31 and
/// the next byte added, modulo two to the thirty-second. Used both as the
/// key fingerprint and as the descriptor checksum.
pub open spec fn fold31(s: Seq<u8>) -> nat
    decreases s.len(),
{
    if s.len() == 0 {
        0
    } else {
        ((fold31(s.drop_last()) * 31 + s.last()) % 0x1_0000_0000) as nat
    }
}

pub proof fn lemma_fold31_bound(s: Seq<u8>)
    ensures
        fold31(s) < 0x1_0000_0000,
    decreases s.len(),
{
    if s.len() > 0 {
        lemma_fold31_bound(s.drop_last());
    }
}

/// Computes the 32-bit fold of a byte slice.
pub fn fold_bytes(s: &[u8]) -> (r: u32)
    ensures
        r == fold31(s@),
{
    let n = s.len();
    let mut acc: u32 = 0;
    let mut i: usize = 0;
    proof {
        assert(s@.subrange(0, 0) =~= Seq::<u8>::empty());
    }
    while i < n
        invariant
            0 <= i <= n,
            n == s@.len(),
            acc == fold31(s@.subrange(0, i as int)),
        decreases n - i,
    {
        let b = *vstd::slice::slice_index_get(s, i);
        proof {
            assert(s@.subrange(0, i + 1).drop_last() =~= s@.subrange(0, i as int));
            lemma_fold31_bound(s@.subrange(0, i as int));
        }
        let wide: u64 = (acc as u64) * 31 + (b as u64);
        acc = (wide % 0x1_0000_0000) as u32;
        i = i + 1;
    }
    proof {
        assert(s@.subrange(0, n as int) =~= s@);
    }
    acc
}

/// Byte-for-byte equality of two slices.
pub fn bytes_eq(a: &[u8], b: &[u8]) -> (r: bool)
    ensures
        r == (a@ == b@),
{
    let n = a.len();
    if n != b.len() {
        proof {
            assert(a@ != b@) by {
                assert(a@.len() != b@.len());
            }
        }
        return false;
    }
    let mut i: usize = 0;
    while i < n
        invariant
            0 <= i <= n,
            n == a@.len(),
            n == b@.len(),
            forall|j: int| 0 <= j < i ==> a@[j] == b@[j],
        decreases n - i,
    {
        let x = *vstd::slice::slice_index_get(a, i);
        let y = *vstd::slice::slice_index_get(b, i);
        if x != y {
            return false;
        }
        i = i + 1;
    }
    proof {
        assert(a@ =~= b@);
    }
    true
}

/// Copies the bytes of `s` between `i` and `j` into a fresh vector.
pub fn copy_range(s: &[u8], i: usize, j: usize) -> (r: Vec<u8>)
    requires
        0 <= i <= j <= s@.len(),
    ensures
        r@ == s@.subrange(i as int, j as int),
{
    vstd::slice::slice_to_vec(vstd::slice::slice_subrange(s, i, j))
}

/// An ASCII control byte. Fields that end up as lines of the
/// configuration artifact must not contain one, or the artifact could not
/// be read back unambiguously.
pub open spec fn is_control(b: u8) -> bool {
    b < 32 || b == 127
}

/// Whether any byte of `s` is a control byte.
pub fn has_control(s: &[u8]) -> (r: bool)
    ensures
        r == (exists|j: int| 0 <= j < s@.len() && is_control(#[trigger] s@[j])),
{
    let n = s.len();
    let mut i: usize = 0;
    while i < n
        invariant
            0 <= i <= n,
            n == s@.len(),
            forall|j: int| 0 <= j < i ==> !is_control(#[trigger] s@[j]),
        decreases n - i,
    {
        let b = *vstd::slice::slice_index_get(s, i);
        if b < 32 || b == 127 {
            proof {
                assert(is_control(s@[i as int]));
            }
            return true;
        }
        i = i + 1;
    }
    false
}

/// A fresh vector with the same bytes.
pub fn copy_vec(v: &Vec<u8>) -> (r: Vec<u8>)
    ensures
        r@ == v@,
{
    let r = copy_range(v.as_slice(), 0, v.len());
    proof {
        assert(v@.subrange(0, v@.len() as int) =~= v@);
    }
    r
}

/// Appends every byte of `s` to `out`.
pub fn push_all(s: &[u8], out: &mut Vec<u8>)
    ensures
        final(out)@ == old(out)@ + s@,
{
    let n = s.len();
    let mut i: usize = 0;
    while i < n
        invariant
            0 <= i <= n,
            n == s@.len(),
            out@ == old(out)@ + s@.subrange(0, i as int),
        decreases n - i,
    {
        let b = *vstd::slice::slice_index_get(s, i);
        out.push(b);
        proof {
            assert(out@ =~= old(out)@ + s@.subrange(0, i + 1));
        }
        i = i + 1;
    }
    proof {
        assert(s@.subrange(0, n as int) =~= s@);
    }
}

} // verus!
