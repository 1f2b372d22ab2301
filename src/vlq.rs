//! Variable-length quantities of Standard MIDI Files: 7 bits per byte, most
//! significant group first, the top bit set on every byte but the last.
use vstd::prelude::*;

verus! {

/// The largest value a variable-length quantity can carry (four bytes).
pub const VLQ_MAX: u32 = 0x0FFF_FFFF;

/// The value of the 7-bit groups in `b`, most significant first.
pub open spec fn vlq_value(b: Seq<u8>) -> nat
    decreases b.len(),
{
    if b.len() == 0 {
        0
    } else {
        vlq_value(b.drop_last()) * 128 + (b.last() % 128) as nat
    }
}

/// The encoding of `n` (meaningful for `n <= VLQ_MAX`).
pub open spec fn vlq_bytes(n: nat) -> Seq<u8> {
    if n < 0x80 {
        seq![n as u8]
    } else if n < 0x4000 {
        seq![(n / 0x80 + 0x80) as u8, (n % 0x80) as u8]
    } else if n < 0x20_0000 {
        seq![(n / 0x4000 + 0x80) as u8, ((n / 0x80) % 0x80 + 0x80) as u8, (n % 0x80) as u8]
    } else {
        seq![
            (n / 0x20_0000 + 0x80) as u8,
            ((n / 0x4000) % 0x80 + 0x80) as u8,
            ((n / 0x80) % 0x80 + 0x80) as u8,
            (n % 0x80) as u8,
        ]
    }
}

/// The length of the quantity that starts `b`: up to and including the
/// first byte below 0x80, if that lies within the first four bytes.
pub open spec fn vlq_prefix_len(b: Seq<u8>) -> Option<int> {
    if b.len() >= 1 && b[0] < 0x80 {
        Some(1)
    } else if b.len() >= 2 && b[0] >= 0x80 && b[1] < 0x80 {
        Some(2)
    } else if b.len() >= 3 && b[0] >= 0x80 && b[1] >= 0x80 && b[2] < 0x80 {
        Some(3)
    } else if b.len() >= 4 && b[0] >= 0x80 && b[1] >= 0x80 && b[2] >= 0x80 && b[3] < 0x80 {
        Some(4)
    } else {
        None
    }
}

/// What the decoder accepts: one to four bytes, the last below 0x80.
pub open spec fn vlq_accepts(b: Seq<u8>) -> bool {
    1 <= b.len() <= 4 && b.last() < 0x80
}

/// Encodes `value` as a variable-length quantity.
pub fn to_var_length_bytes(value: u32) -> (r: Result<Vec<u8>, String>)
    ensures
        r is Ok <==> value <= VLQ_MAX,
        r matches Ok(v) ==> v@ == vlq_bytes(value as nat),
{
    if value < 0x80 {
        return Ok(vec![value as u8]);
    }
    if value > VLQ_MAX {
        return Err(
            "Value exceeds the largest number allowed (0x0FFFFFFF) for a variable-length quantity".to_string(),
        );
    }
    let mut bytes: Vec<u8> = Vec::new();
    if value >= 0x20_0000 {
        bytes.push((value / 0x20_0000 + 0x80) as u8);
    }
    if value >= 0x4000 {
        bytes.push(((value / 0x4000) % 0x80 + 0x80) as u8);
    }
    bytes.push(((value / 0x80) % 0x80 + 0x80) as u8);
    bytes.push((value % 0x80) as u8);
    proof {
        if value < 0x4000 {
            assert(value / 0x80 < 0x80);
        } else if value < 0x20_0000 {
            assert(value / 0x4000 < 0x80);
        }
        assert(bytes@ =~= vlq_bytes(value as nat));
    }
    Ok(bytes)
}

/// Decodes a whole slice as one variable-length quantity.
pub fn from_var_length_bytes(bytes: &[u8]) -> (r: Result<u32, String>)
    ensures
        r is Ok <==> vlq_accepts(bytes@),
        r matches Ok(v) ==> v as nat == vlq_value(bytes@) && v <= VLQ_MAX,
{
    if bytes.len() == 0 {
        return Err("Input byte slice is empty".to_string());
    }
    if bytes.len() > 4 {
        return Err("Input byte slice exceeds maximum length of 4 bytes".to_string());
    }
    if bytes[bytes.len() - 1] > 0x7F {
        return Err("Last byte must not have the MSB set".to_string());
    }
    let mut value: u32 = 0;
    let mut i: usize = 0;
    while i < bytes.len()
        invariant
            i <= bytes@.len() <= 4,
            value as nat == vlq_value(bytes@.subrange(0, i as int)),
            i == 0 ==> value == 0,
            i == 1 ==> value < 0x80,
            i == 2 ==> value < 0x4000,
            i == 3 ==> value < 0x20_0000,
            i == 4 ==> value < 0x1000_0000,
        decreases bytes@.len() - i,
    {
        assert(bytes@.subrange(0, i + 1).drop_last() == bytes@.subrange(0, i as int));
        value = value * 128 + (bytes[i] % 128) as u32;
        i += 1;
    }
    assert(bytes@.subrange(0, i as int) == bytes@);
    Ok(value)
}

/// The number of bytes of the quantity that starts `bytes`.
pub fn get_var_length_bytes_length(bytes: &[u8]) -> (r: Result<usize, String>)
    ensures
        r is Ok <==> vlq_prefix_len(bytes@) is Some,
        r matches Ok(n) ==> vlq_prefix_len(bytes@) == Some(n as int),
{
    let mut i: usize = 0;
    while i < bytes.len() && i < 4
        invariant
            i <= 4,
            i <= bytes@.len(),
            forall|j: int| 0 <= j < i ==> bytes@[j] >= 0x80,
        decreases bytes@.len() - i,
    {
        if bytes[i] < 0x80 {
            return Ok(i + 1);
        }
        i += 1;
    }
    if i == 4 {
        Err("Variable-length bytes exceed maximum length of 4 bytes".to_string())
    } else {
        Err("No valid variable-length bytes found".to_string())
    }
}

/// The quantity at the start of `b + rest` is found within `b`.
pub proof fn lemma_vlq_prefix_len_append(b: Seq<u8>, rest: Seq<u8>)
    requires
        vlq_prefix_len(b) == Some(b.len() as int),
    ensures
        vlq_prefix_len(b + rest) == Some(b.len() as int),
        (b + rest).subrange(0, b.len() as int) == b,
{
    assert((b + rest).subrange(0, b.len() as int) =~= b);
}

/// Every quantity up to `VLQ_MAX` decodes to itself and takes one to four
/// bytes, the last below 0x80 and the others at or above it.
pub proof fn lemma_vlq_round_trip(n: nat)
    requires
        n <= VLQ_MAX,
    ensures
        1 <= vlq_bytes(n).len() <= 4,
        vlq_bytes(n).last() < 0x80,
        forall|j: int| 0 <= j < vlq_bytes(n).len() - 1 ==> vlq_bytes(n)[j] >= 0x80,
        vlq_accepts(vlq_bytes(n)),
        vlq_prefix_len(vlq_bytes(n)) == Some(vlq_bytes(n).len() as int),
        vlq_value(vlq_bytes(n)) == n,
{
    let b = vlq_bytes(n);
    reveal_with_fuel(vlq_value, 5);
    let x = n / 0x80;
    let y = x / 0x80;
    let z = y / 0x80;
    lemma_div_128(n);
    lemma_div_128(x);
    lemma_div_128(y);
    assert(n / 0x4000 == y) by {
        vstd::arithmetic::div_mod::lemma_div_denominator(n as int, 0x80, 0x80);
    }
    assert(n / 0x20_0000 == z) by {
        vstd::arithmetic::div_mod::lemma_div_denominator(n as int, 0x4000, 0x80);
    }
    if n < 0x80 {
        assert(b.drop_last() =~= Seq::<u8>::empty());
    } else if n < 0x4000 {
        assert(b.drop_last().drop_last() =~= Seq::<u8>::empty());
        assert(b.drop_last() =~= seq![b[0]]);
    } else if n < 0x20_0000 {
        assert(b.drop_last().drop_last().drop_last() =~= Seq::<u8>::empty());
        assert(b.drop_last().drop_last() =~= seq![b[0]]);
        assert(b.drop_last() =~= seq![b[0], b[1]]);
    } else {
        assert(b.drop_last().drop_last().drop_last().drop_last() =~= Seq::<u8>::empty());
        assert(b.drop_last().drop_last().drop_last() =~= seq![b[0]]);
        assert(b.drop_last().drop_last() =~= seq![b[0], b[1]]);
        assert(b.drop_last() =~= seq![b[0], b[1], b[2]]);
    }
}

proof fn lemma_div_128(n: nat)
    ensures
        (n / 0x80) * 0x80 + n % 0x80 == n,
        n % 0x80 < 0x80,
{
}

} // verus!
