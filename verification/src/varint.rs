//! Base-128 variable-length integers, the integer primitive of the binary
//! envelope encoding: seven value bits per byte, least-significant group
//! first, the high bit of every byte but the last set.
use vstd::prelude::*;

use vstd::arithmetic::div_mod::lemma_fundamental_div_mod;
use vstd::arithmetic::div_mod::lemma_div_is_ordered;
use vstd::arithmetic::mul::lemma_mul_inequality;

verus! {

/// The variable-length encoding of `n`.
pub open spec fn venc(n: u64) -> Seq<u8>
    decreases n,
{
    if n < 0x80 {
        seq![n as u8]
    } else {
        seq![(0x80 + n % 0x80) as u8] + venc(n / 0x80)
    }
}

/// Parses a variable-length integer at offset `i` of `b`: the value and the
/// offset just after it, or `None` when the bytes run out or the value would
/// not fit in 64 bits.
pub open spec fn vdec(b: Seq<u8>, i: int) -> Option<(u64, int)>
    decreases b.len() - i,
{
    if i < 0 || i >= b.len() {
        None
    } else if b[i] < 0x80 {
        Some((b[i] as u64, i + 1))
    } else {
        match vdec(b, i + 1) {
            None => None,
            Some((v, j)) => if v <= (u64::MAX - ((b[i] - 0x80) as u64)) / 0x80 {
                Some((((b[i] - 0x80) + 0x80 * v) as u64, j))
            } else {
                None
            },
        }
    }
}

/// Parsing an encoded value out of any byte sequence that carries it at
/// offset `i` yields that value back, consuming exactly its encoding.
pub proof fn lemma_vdec_venc(n: u64, b: Seq<u8>, i: int)
    requires
        0 <= i,
        i + venc(n).len() <= b.len(),
        b.subrange(i, i + venc(n).len()) == venc(n),
    ensures
        vdec(b, i) == Some((n, i + venc(n).len())),
    decreases n,
{
    assert(b[i] == venc(n)[0]);
    if n < 0x80 {
    } else {
        let low = n % 0x80;
        let rest = n / 0x80;
        assert(b[i] == (0x80 + low) as u8);
        assert(b.subrange(i + 1, i + 1 + venc(rest).len()) =~= venc(rest)) by {
            assert(forall|k: int|
                0 <= k < venc(rest).len() ==> b[i + 1 + k] == #[trigger] venc(rest)[k]) by {
                assert(forall|k: int|
                    0 <= k < venc(rest).len() ==> venc(n)[1 + k] == #[trigger] venc(rest)[k]);
                assert(forall|k: int|
                    0 <= k < venc(rest).len() ==> b[i + 1 + k] == #[trigger] venc(n)[1 + k]);
            }
        }
        lemma_vdec_venc(rest, b, i + 1);
        lemma_fundamental_div_mod(n as int, 0x80);
        assert(rest <= (u64::MAX - low) / 0x80) by {
            lemma_fundamental_div_mod(n as int, 0x80);
            lemma_div_is_ordered(0x80 * rest, u64::MAX - low, 0x80);
            vstd::arithmetic::div_mod::lemma_div_multiples_vanish_fancy(rest as int, 0, 0x80);
        }
    }
}

/// Appends the variable-length encoding of `n` to `out`.
pub fn venc_push(out: &mut Vec<u8>, n: u64)
    ensures
        final(out)@ == old(out)@ + venc(n),
{
    let mut m = n;
    while m >= 0x80
        invariant
            out@ + venc(m) == old(out)@ + venc(n),
        decreases m,
    {
        out.push(0x80 + (m % 0x80) as u8);
        proof {
            assert(out@ + venc(m / 0x80) =~= old(out)@ + venc(n));
        }
        m = m / 0x80;
    }
    out.push(m as u8);
    proof {
        assert(out@ =~= old(out)@ + venc(n));
    }
}

/// Parses a variable-length integer at offset `i` of `b`, exactly as
/// [`vdec`] describes.
pub fn vdec_read(b: &Vec<u8>, i: usize) -> (r: Option<(u64, usize)>)
    ensures
        match r {
            Some((v, j)) => vdec(b@, i as int) == Some((v, j as int)) && i < j <= b@.len(),
            None => vdec(b@, i as int) is None,
        },
    decreases b@.len() - i,
{
    if i >= b.len() {
        return None;
    }
    let x = b[i];
    if x < 0x80 {
        return Some((x as u64, i + 1));
    }
    match vdec_read(b, i + 1) {
        None => None,
        Some((v, j)) => {
            let low = (x - 0x80) as u64;
            if v <= (u64::MAX - low) / 0x80 {
                proof {
                    lemma_mul_inequality(v as int, ((u64::MAX - low) / 0x80) as int, 0x80);
                    lemma_fundamental_div_mod((u64::MAX - low) as int, 0x80);
                }
                Some((low + 0x80 * v, j))
            } else {
                None
            }
        },
    }
}

} // verus!
