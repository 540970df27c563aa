use vstd::prelude::*;
use crate::bytes::{dec_digits, u64_to_dec};
use crate::json::{hex_lower, hex_lower_digit};

verus! {

/// The bytes a terminal line needs for `s[i..]`: each line feed preceded by a carriage
/// return.
pub open spec fn crlf_from(s: Seq<u8>, i: int) -> Seq<u8>
    decreases s.len() - i,
{
    if i < 0 || i >= s.len() {
        Seq::empty()
    } else if s[i] == 10 {
        seq![13u8, 10u8] + crlf_from(s, i + 1)
    } else {
        seq![s[i]] + crlf_from(s, i + 1)
    }
}

/// Queues text for the serial port, turning each `\n` into `\r\n`.
pub fn write_str(tx: &mut Vec<u8>, s: &[u8])
    ensures
        final(tx)@ == old(tx)@ + crlf_from(s@, 0),
{
    let mut i = 0usize;
    while i < s.len()
        invariant
            i <= s.len(),
            tx@ + crlf_from(s@, i as int) == old(tx)@ + crlf_from(s@, 0),
        decreases s.len() - i,
    {
        let ghost before = tx@;
        if s[i] == 10u8 {
            tx.push(13u8);
        }
        tx.push(s[i]);
        proof {
            if s@[i as int] == 10 {
                assert(tx@ =~= before + seq![13u8, 10u8]);
            } else {
                assert(tx@ =~= before + seq![s@[i as int]]);
            }
            assert(tx@ + crlf_from(s@, i + 1) =~= before + crlf_from(s@, i as int));
        }
        i += 1;
    }
    assert(tx@ + Seq::<u8>::empty() =~= tx@);
}

/// Queues raw bytes for the serial port.
pub fn write_bytes(tx: &mut Vec<u8>, bytes: &[u8])
    ensures
        final(tx)@ == old(tx)@ + bytes@,
{
    let mut i = 0usize;
    while i < bytes.len()
        invariant
            i <= bytes.len(),
            tx@ == old(tx)@ + bytes@.take(i as int),
        decreases bytes.len() - i,
    {
        tx.push(bytes[i]);
        i += 1;
        assert(bytes@.take(i as int) =~= bytes@.take(i - 1).push(bytes@[i - 1]));
    }
    assert(bytes@.take(bytes.len() as int) =~= bytes@);
}

/// Queues the decimal form of `n`.
pub fn write_u64_dec(tx: &mut Vec<u8>, n: u64)
    ensures
        final(tx)@ == old(tx)@ + dec_digits(n as nat),
{
    let digits = u64_to_dec(n);
    write_bytes(tx, digits.as_slice());
}

/// Sixteen lower-case hexadecimal digits of `n`, most significant first.
pub open spec fn hex16(n: u64) -> Seq<u8> {
    Seq::new(16, |i: int| hex_lower_digit(((n >> ((15 - i) * 4) as u64) & 0xf) as u8))
}

/// Queues `n` as sixteen lower-case hexadecimal digits.
pub fn write_u64_hex(tx: &mut Vec<u8>, n: u64)
    ensures
        final(tx)@ == old(tx)@ + hex16(n),
{
    let mut i = 0usize;
    while i < 16
        invariant
            i <= 16,
            tx@ == old(tx)@ + hex16(n).take(i as int),
        decreases 16 - i,
    {
        let shift = ((15 - i) * 4) as u64;
        let digit = ((n >> shift) & 0xf) as u8;
        assert(((n >> shift) & 0xf) < 16) by (bit_vector);
        tx.push(hex_lower(digit));
        i += 1;
        assert(hex16(n).take(i as int) =~= hex16(n).take(i - 1).push(hex16(n)[i - 1]));
    }
    assert(hex16(n).take(16) =~= hex16(n));
}

} // verus!
