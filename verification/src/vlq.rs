//! Variable-length quantities: seven bits per byte, least significant first,
//! the high bit set on every byte but the last.
use vstd::prelude::*;
use crate::serialization::SigmaParsingError;

verus! {

/// Encoding of a number.
pub open spec fn vlq(n: nat) -> Seq<u8>
    decreases n,
{
    if n < 128 {
        seq![n as u8]
    } else {
        seq![(128 + n % 128) as u8] + vlq(n / 128)
    }
}

/// Number at the start of `s`, encoded in at most `k` bytes, and how many
/// bytes it takes.
pub open spec fn vlq_read(s: Seq<u8>, k: nat) -> Result<(nat, nat), SigmaParsingError>
    decreases k,
{
    if k == 0 {
        Err(SigmaParsingError::VlqDecodingFailed)
    } else if s.len() == 0 {
        Err(SigmaParsingError::UnexpectedEof)
    } else if s[0] < 128 {
        Ok((s[0] as nat, 1))
    } else {
        match vlq_read(s.drop_first(), (k - 1) as nat) {
            Ok((n, len)) => Ok(((s[0] - 128 + 128 * n) as nat, len + 1)),
            Err(e) => Err(e),
        }
    }
}

/// Most bytes that a number may have.
pub const MAX_BYTES: usize = 10;

/// 64-bit number at the start of `s`. Bits from the 64th on are dropped.
pub open spec fn read_u64(s: Seq<u8>) -> Result<(u64, nat), SigmaParsingError> {
    match vlq_read(s, MAX_BYTES as nat) {
        Ok((n, len)) => Ok(((n % 0x1_0000_0000_0000_0000) as u64, len)),
        Err(e) => Err(e),
    }
}

/// 32-bit number at the start of `s`.
pub open spec fn read_u32(s: Seq<u8>) -> Result<(u32, nat), SigmaParsingError> {
    match read_u64(s) {
        Ok((n, len)) => if n <= u32::MAX {
            Ok((n as u32, len))
        } else {
            Err(SigmaParsingError::TryFrom)
        },
        Err(e) => Err(e),
    }
}

/// 16-bit number at the start of `s`.
pub open spec fn read_u16(s: Seq<u8>) -> Result<(u16, nat), SigmaParsingError> {
    match read_u64(s) {
        Ok((n, len)) => if n <= u16::MAX {
            Ok((n as u16, len))
        } else {
            Err(SigmaParsingError::TryFrom)
        },
        Err(e) => Err(e),
    }
}

/// Appends the encoding of a number.
pub fn put_u64(w: &mut Vec<u8>, v: u64)
    ensures
        final(w)@ == old(w)@ + vlq(v as nat),
{
    let mut rest: u64 = v;
    while rest >= 128
        invariant
            old(w)@ + vlq(v as nat) == w@ + vlq(rest as nat),
        decreases rest,
    {
        let ghost before = w@;
        w.push((128 + rest % 128) as u8);
        assert(before + vlq(rest as nat) =~= w@ + vlq((rest / 128) as nat));
        rest = rest / 128;
    }
    let ghost before = w@;
    w.push(rest as u8);
    assert(w@ =~= before + vlq(rest as nat));
}

/// Appends the encoding of a 32-bit number.
pub fn put_u32(w: &mut Vec<u8>, v: u32)
    ensures
        final(w)@ == old(w)@ + vlq(v as nat),
{
    put_u64(w, v as u64);
}

/// Appends the encoding of a 16-bit number.
pub fn put_u16(w: &mut Vec<u8>, v: u16)
    ensures
        final(w)@ == old(w)@ + vlq(v as nat),
{
    put_u64(w, v as u64);
}

/// `128^i`
spec fn weight(i: nat) -> nat
    decreases i,
{
    if i == 0 {
        1
    } else {
        128 * weight((i - 1) as nat)
    }
}

proof fn lemma_weights(i: nat)
    requires
        i <= 9,
    ensures
        1 <= weight(i) <= 0x8000_0000_0000_0000,
        i < 9 ==> weight(i) <= 0x0100_0000_0000_0000,
        i == 9 ==> weight(i) == 0x8000_0000_0000_0000,
{
    reveal_with_fuel(weight, 10);
}

proof fn lemma_read_step(low: nat, w: nat, digit: nat, n: nat)
    ensures
        low + w * (digit + 128 * n) == (low + w * digit) + (128 * w) * n,
{
    assert(w * (digit + 128 * n) == w * digit + (128 * w) * n) by (nonlinear_arith);
}

/// Reads the number that starts at `pos`: the number, or the error, and the
/// position after the last byte that was looked at.
pub fn get_u64(data: &[u8], pos: usize) -> (r: (Result<u64, SigmaParsingError>, usize))
    requires
        pos <= data@.len(),
    ensures
        pos <= r.1 <= data@.len(),
        match r.0 {
            Ok(v) => read_u64(data@.skip(pos as int)) == Ok::<(u64, nat), SigmaParsingError>(
                (v, (r.1 - pos) as nat),
            ),
            Err(e) => read_u64(data@.skip(pos as int)) == Err::<(u64, nat), SigmaParsingError>(e),
        },
{
    let mut value: u64 = 0;
    let mut unit: u64 = 1;
    let mut i: usize = 0;
    let len: usize = data.len();
    let ghost input = data@.skip(pos as int);
    assert(input.skip(0) =~= input);
    while i < MAX_BYTES
        invariant
            pos + i <= len,
            len == data@.len(),
            i <= MAX_BYTES,
            input == data@.skip(pos as int),
            i < MAX_BYTES ==> unit == weight(i as nat) && value < unit,
            match vlq_read(input.skip(i as int), (MAX_BYTES - i) as nat) {
                Ok((n, len)) => vlq_read(input, MAX_BYTES as nat) == Ok::<(nat, nat), SigmaParsingError>(
                    ((value + weight(i as nat) * n) as nat, (i + len) as nat),
                ),
                Err(e) => vlq_read(input, MAX_BYTES as nat) == Err::<(nat, nat), SigmaParsingError>(e),
            },
        decreases MAX_BYTES - i,
    {
        let ghost rest = input.skip(i as int);
        let ghost w = weight(i as nat);
        proof {
            lemma_weights(i as nat);
        }
        if pos + i == len {
            return (Err(SigmaParsingError::UnexpectedEof), pos + i);
        }
        let b: u8 = data[pos + i];
        assert(b == rest[0]);
        let d: u64 = (b % 128) as u64;
        proof {
            assert(w * d <= 0x8000_0000_0000_0000 * 128) by (nonlinear_arith)
                requires
                    0 <= w <= 0x8000_0000_0000_0000,
                    0 <= d <= 128,
            ;
            assert(i < 9 ==> unit * d <= 0x0100_0000_0000_0000 * 127) by (nonlinear_arith)
                requires
                    i < 9 ==> 0 <= unit <= 0x0100_0000_0000_0000,
                    0 <= d <= 127,
            ;
            assert(value + unit * d < 128 * unit) by (nonlinear_arith)
                requires
                    value < unit,
                    0 <= d <= 127,
            ;
        }
        if b < 128 {
            let total: u64 = if i < 9 {
                value + unit * d
            } else {
                assert(unit * (d % 2) <= 0x8000_0000_0000_0000) by (nonlinear_arith)
                    requires
                        unit == 0x8000_0000_0000_0000,
                ;
                value + unit * (d % 2)
            };
            proof {
                if i == 9 {
                    let kept = value + unit * (d % 2);
                    assert(value + unit * d == 0x1_0000_0000_0000_0000 * (d / 2) + kept)
                        by (nonlinear_arith)
                        requires
                            unit == 0x8000_0000_0000_0000,
                            kept == value + unit * (d % 2),
                    ;
                    vstd::arithmetic::div_mod::lemma_mod_multiples_vanish(
                        (d / 2) as int,
                        kept,
                        0x1_0000_0000_0000_0000,
                    );
                } else {
                    assert((value + unit * d) % 0x1_0000_0000_0000_0000 == value + unit * d);
                }
            }
            return (Ok(total), pos + i + 1);
        }
        proof {
            let n_rest = vlq_read(rest.drop_first(), (MAX_BYTES - i - 1) as nat);
            assert(rest.drop_first() =~= input.skip(i + 1));
            if n_rest is Ok {
                lemma_read_step(value as nat, w, d as nat, n_rest->Ok_0.0);
            }
        }
        if i < 9 {
            value = value + unit * d;
            unit = unit * 128;
        }
        i += 1;
    }
    (Err(SigmaParsingError::VlqDecodingFailed), pos + i)
}

/// A number reads back from its encoding, whatever follows.
pub proof fn lemma_vlq_roundtrip(n: nat, rest: Seq<u8>, k: nat)
    requires
        vlq(n).len() <= k,
    ensures
        vlq_read(vlq(n) + rest, k) == Ok::<(nat, nat), SigmaParsingError>((n, vlq(n).len())),
    decreases n,
{
    lemma_vlq_len(n);
    if n >= 128 {
        assert((vlq(n) + rest).drop_first() =~= vlq(n / 128) + rest);
        lemma_vlq_roundtrip(n / 128, rest, (k - 1) as nat);
    }
}

pub proof fn lemma_vlq_len(n: nat)
    ensures
        vlq(n).len() >= 1,
        n < 128 ==> vlq(n).len() == 1,
        128 <= n < 0x4000 ==> vlq(n).len() == 2,
        0x4000 <= n < 0x20_0000 ==> vlq(n).len() == 3,
{
    reveal_with_fuel(vlq, 4);
}

/// A 16-bit number reads back from its encoding, whatever follows.
pub proof fn law_u16_roundtrip(n: u16, rest: Seq<u8>)
    ensures
        read_u16(vlq(n as nat) + rest) == Ok::<(u16, nat), SigmaParsingError>(
            (n, vlq(n as nat).len()),
        ),
{
    lemma_vlq_len(n as nat);
    lemma_vlq_roundtrip(n as nat, rest, MAX_BYTES as nat);
}

/// A number is read from its own bytes alone: the same number comes from any
/// input that starts with them.
pub proof fn lemma_vlq_prefix(s: Seq<u8>, t: Seq<u8>, k: nat)
    requires
        vlq_read(s, k) is Ok,
        vlq_read(s, k)->Ok_0.1 <= t.len(),
        t.take(vlq_read(s, k)->Ok_0.1 as int) == s.take(vlq_read(s, k)->Ok_0.1 as int),
    ensures
        vlq_read(s, k)->Ok_0.1 <= s.len(),
        vlq_read(t, k) == vlq_read(s, k),
    decreases k,
{
    let n = vlq_read(s, k)->Ok_0.1 as int;
    if s[0] < 128 {
        assert(t.take(1)[0] == s.take(1)[0]);
    } else {
        let m = vlq_read(s.drop_first(), (k - 1) as nat)->Ok_0.1 as int;
        assert(n == m + 1);
        assert(t.drop_first().take(m) =~= t.take(n).drop_first());
        if s.len() >= n {
            assert(s.drop_first().take(m) =~= s.take(n).drop_first());
            lemma_vlq_prefix(s.drop_first(), t.drop_first(), (k - 1) as nat);
            assert(t.take(n)[0] == s.take(n)[0]);
        } else {
            lemma_vlq_fits(s, k);
        }
    }
    lemma_vlq_fits(s, k);
}

/// A number takes at least one byte, and no more than there are.
pub proof fn lemma_vlq_fits(s: Seq<u8>, k: nat)
    ensures
        vlq_read(s, k) matches Ok((_, n)) ==> 1 <= n <= s.len(),
    decreases k,
{
    if k > 0 && s.len() > 0 && s[0] >= 128 {
        lemma_vlq_fits(s.drop_first(), (k - 1) as nat);
    }
}

/// A number below 128 is one byte. Any other is a byte with its seven lowest
/// bits and a mark, followed by the encoding of the rest.
pub proof fn law_bytes_of_a_number(n: nat)
    ensures
        n < 128 ==> vlq(n).len() == 1 && vlq(n)[0] == n,
        n >= 128 ==> vlq(n).len() == vlq(n / 128).len() + 1 && vlq(n)[0] == 128 + n % 128
            && vlq(n).skip(1) == vlq(n / 128),
{
    if n >= 128 {
        assert(vlq(n).skip(1) =~= vlq(n / 128));
    }
}

/// Only the last byte of an encoding is without the mark, and it is not zero
/// unless it is the only one.
pub proof fn law_last_byte_has_no_mark(n: nat)
    ensures
        vlq(n).len() >= 1,
        vlq(n).last() < 128,
        vlq(n).len() > 1 ==> vlq(n).last() > 0,
        forall|i: int| 0 <= i < vlq(n).len() - 1 ==> #[trigger] vlq(n)[i] >= 128,
    decreases n,
{
    if n >= 128 {
        law_last_byte_has_no_mark(n / 128);
        assert forall|i: int| 0 <= i < vlq(n).len() - 1 implies #[trigger] vlq(n)[i] >= 128 by {
            if i > 0 {
                assert(vlq(n)[i] == vlq(n / 128)[i - 1]);
            }
        }
    }
}

/// What bytes are read as: a byte without the mark is a number; a byte with it
/// adds seven bits below the number that follows. Input that ends before a
/// byte without the mark, and a number of more bytes than are allowed, is an
/// error.
pub proof fn law_number_of_bytes(s: Seq<u8>, k: nat)
    ensures
        k == 0 ==> vlq_read(s, k) == Err::<(nat, nat), SigmaParsingError>(
            SigmaParsingError::VlqDecodingFailed,
        ),
        k > 0 && s.len() == 0 ==> vlq_read(s, k) == Err::<(nat, nat), SigmaParsingError>(
            SigmaParsingError::UnexpectedEof,
        ),
        k > 0 && s.len() > 0 && s[0] < 128 ==> vlq_read(s, k) == Ok::<
            (nat, nat),
            SigmaParsingError,
        >((s[0] as nat, 1)),
        k > 0 && s.len() > 0 && s[0] >= 128 ==> match vlq_read(s.skip(1), (k - 1) as nat) {
            Ok((n, len)) => vlq_read(s, k) == Ok::<(nat, nat), SigmaParsingError>(
                ((s[0] - 128 + 128 * n) as nat, (len + 1) as nat),
            ),
            Err(e) => vlq_read(s, k) == Err::<(nat, nat), SigmaParsingError>(e),
        },
{
    if s.len() > 0 {
        assert(s.drop_first() =~= s.skip(1));
    }
}

/// A number has ten bytes at most: ten bytes with the mark are refused, however
/// the input goes on.
pub proof fn law_ten_bytes_at_most(s: Seq<u8>)
    requires
        s.len() >= 10,
        forall|i: int| 0 <= i < 10 ==> #[trigger] s[i] >= 128,
    ensures
        read_u64(s) == Err::<(u64, nat), SigmaParsingError>(SigmaParsingError::VlqDecodingFailed),
        read_u32(s) == Err::<(u32, nat), SigmaParsingError>(SigmaParsingError::VlqDecodingFailed),
        read_u16(s) == Err::<(u16, nat), SigmaParsingError>(SigmaParsingError::VlqDecodingFailed),
{
    lemma_marks_are_refused(s, 10);
}

proof fn lemma_marks_are_refused(s: Seq<u8>, k: nat)
    requires
        s.len() >= k,
        forall|i: int| 0 <= i < k ==> #[trigger] s[i] >= 128,
    ensures
        vlq_read(s, k) == Err::<(nat, nat), SigmaParsingError>(
            SigmaParsingError::VlqDecodingFailed,
        ),
    decreases k,
{
    if k > 0 {
        lemma_marks_are_refused(s.drop_first(), (k - 1) as nat);
    }
}

/// Input that ends after fewer than ten bytes with the mark is cut off.
pub proof fn law_cut_off_numbers(s: Seq<u8>)
    requires
        s.len() < 10,
        forall|i: int| 0 <= i < s.len() ==> #[trigger] s[i] >= 128,
    ensures
        read_u64(s) == Err::<(u64, nat), SigmaParsingError>(SigmaParsingError::UnexpectedEof),
        read_u32(s) == Err::<(u32, nat), SigmaParsingError>(SigmaParsingError::UnexpectedEof),
        read_u16(s) == Err::<(u16, nat), SigmaParsingError>(SigmaParsingError::UnexpectedEof),
{
    lemma_cut_off(s, 10);
}

proof fn lemma_cut_off(s: Seq<u8>, k: nat)
    requires
        s.len() < k,
        forall|i: int| 0 <= i < s.len() ==> #[trigger] s[i] >= 128,
    ensures
        vlq_read(s, k) == Err::<(nat, nat), SigmaParsingError>(SigmaParsingError::UnexpectedEof),
    decreases k,
{
    if s.len() > 0 {
        lemma_cut_off(s.drop_first(), (k - 1) as nat);
    }
}

/// Numbers of 32 and of 16 bits are those of 64 bits that fit; the others are
/// errors of their own. A number of 64 bits is what up to ten bytes are, less
/// the bits that do not fit.
pub proof fn law_numbers_of_fewer_bits(s: Seq<u8>)
    ensures
        match vlq_read(s, 10) {
            Ok((n, len)) => read_u64(s) is Ok && read_u64(s)->Ok_0.1 == len && read_u64(s)->Ok_0.0
                == n % 0x1_0000_0000_0000_0000,
            Err(e) => read_u64(s) == Err::<(u64, nat), SigmaParsingError>(e),
        },
        match read_u64(s) {
            Ok((n, len)) => {
                &&& n <= 0xffff_ffff ==> read_u32(s) is Ok && read_u32(s)->Ok_0.0 == n && read_u32(
                    s,
                )->Ok_0.1 == len
                &&& n > 0xffff_ffff ==> read_u32(s) == Err::<(u32, nat), SigmaParsingError>(
                    SigmaParsingError::TryFrom,
                )
                &&& n <= 0xffff ==> read_u16(s) is Ok && read_u16(s)->Ok_0.0 == n && read_u16(
                    s,
                )->Ok_0.1 == len
                &&& n > 0xffff ==> read_u16(s) == Err::<(u16, nat), SigmaParsingError>(
                    SigmaParsingError::TryFrom,
                )
            },
            Err(e) => read_u32(s) == Err::<(u32, nat), SigmaParsingError>(e) && read_u16(s)
                == Err::<(u16, nat), SigmaParsingError>(e),
        },
{
}

proof fn lemma_length_under(n: nat, k: nat)
    requires
        k >= 1,
        n < weight(k),
    ensures
        vlq(n).len() <= k,
    decreases n,
{
    if n >= 128 {
        assert(k >= 2) by {
            reveal_with_fuel(weight, 2);
        }
        assert(n / 128 < weight((k - 1) as nat)) by {
            assert(weight(k) == 128 * weight((k - 1) as nat));
        }
        lemma_length_under(n / 128, (k - 1) as nat);
    }
}

/// A number of 64 or of 32 bits reads back from its encoding, whatever follows.
pub proof fn law_number_reads_back(n: u64, rest: Seq<u8>)
    ensures
        vlq(n as nat).len() <= 10,
        read_u64(vlq(n as nat) + rest) == Ok::<(u64, nat), SigmaParsingError>(
            (n, vlq(n as nat).len()),
        ),
        n <= 0xffff_ffff ==> read_u32(vlq(n as nat) + rest) == Ok::<(u32, nat), SigmaParsingError>(
            (n as u32, vlq(n as nat).len()),
        ),
{
    assert(weight(10) == 128 * weight(9));
    lemma_weights(9);
    lemma_length_under(n as nat, 10);
    lemma_vlq_roundtrip(n as nat, rest, 10);
}

} // verus!
