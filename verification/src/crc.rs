use vstd::prelude::*;

verus! {

/// One bit step of the reflected CRC-16 with polynomial 0x8005 (0xA001 reflected).
pub open spec fn crc16_shift(crc: u16) -> u16 {
    if crc & 1 != 0 {
        (crc >> 1) ^ 0xA001
    } else {
        crc >> 1
    }
}

/// `n` bit steps applied one after another.
pub open spec fn crc16_shifts(crc: u16, n: nat) -> u16
    decreases n,
{
    if n == 0 {
        crc
    } else {
        crc16_shift(crc16_shifts(crc, (n - 1) as nat))
    }
}

/// Folds one byte into the running register: xor it into the low byte, then eight bit steps.
pub open spec fn crc16_byte(crc: u16, b: u8) -> u16 {
    crc16_shifts(crc ^ (b as u16), 8)
}

/// Folds every byte of `data`, first to last, into the register `crc`.
pub open spec fn crc16_update(crc: u16, data: Seq<u8>) -> u16
    decreases data.len(),
{
    if data.len() == 0 {
        crc
    } else {
        crc16_byte(crc16_update(crc, data.drop_last()), data.last())
    }
}

/// CRC-16/MODBUS: initial register 0xFFFF, reflected input and output, no final xor.
pub open spec fn crc16_modbus_spec(data: Seq<u8>) -> u16 {
    crc16_update(0xFFFF, data)
}

/// Checksumming two pieces one after the other is checksumming their concatenation:
/// the register after `a` is the starting register for `b`.
pub proof fn lemma_crc16_update_concat(crc: u16, a: Seq<u8>, b: Seq<u8>)
    ensures
        crc16_update(crc, a + b) == crc16_update(crc16_update(crc, a), b),
    decreases b.len(),
{
    if b.len() == 0 {
        assert(a + b =~= a);
    } else {
        assert((a + b).drop_last() =~= a + b.drop_last());
        assert((a + b).last() == b.last());
        lemma_crc16_update_concat(crc, a, b.drop_last());
    }
}

spec fn crc16_shift8(x: u16) -> u16 {
    crc16_shift(crc16_shift(crc16_shift(crc16_shift(
        crc16_shift(crc16_shift(crc16_shift(crc16_shift(x)))),
    ))))
}

proof fn lemma_crc16_shifts_eight(x: u16)
    ensures
        crc16_shifts(x, 8) == crc16_shift8(x),
{
    reveal_with_fuel(crc16_shifts, 9);
}

/// Appending a register's value, low byte first, drives that register to zero: a message
/// followed by its own CRC-16/MODBUS checksums to 0.
pub proof fn lemma_crc16_residue(crc: u16)
    ensures
        crc16_update(crc, seq![(crc % 256) as u8, (crc / 256) as u8]) == 0,
{
    let lo = (crc % 256) as u8;
    let hi = (crc / 256) as u8;
    let s = seq![lo, hi];
    assert(s.drop_last().drop_last() =~= Seq::<u8>::empty());
    assert(s.drop_last() =~= seq![lo]);
    reveal_with_fuel(crc16_update, 3);
    let x0: u16 = crc ^ (lo as u16);
    let x1: u16 = crc16_shift(x0);
    let x2: u16 = crc16_shift(x1);
    let x3: u16 = crc16_shift(x2);
    let x4: u16 = crc16_shift(x3);
    let x5: u16 = crc16_shift(x4);
    let x6: u16 = crc16_shift(x5);
    let x7: u16 = crc16_shift(x6);
    let x8: u16 = crc16_shift(x7);
    let y0: u16 = x8 ^ (hi as u16);
    let y1: u16 = crc16_shift(y0);
    let y2: u16 = crc16_shift(y1);
    let y3: u16 = crc16_shift(y2);
    let y4: u16 = crc16_shift(y3);
    let y5: u16 = crc16_shift(y4);
    let y6: u16 = crc16_shift(y5);
    let y7: u16 = crc16_shift(y6);
    let y8: u16 = crc16_shift(y7);
    lemma_crc16_shifts_eight(x0);
    lemma_crc16_shifts_eight(y0);
    assert(y8 == 0) by (bit_vector)
        requires
            lo == (crc % 256) as u8,
            hi == (crc / 256) as u8,
            x0 == crc ^ (lo as u16),
            x1 == crc16_shift(x0),
            x2 == crc16_shift(x1),
            x3 == crc16_shift(x2),
            x4 == crc16_shift(x3),
            x5 == crc16_shift(x4),
            x6 == crc16_shift(x5),
            x7 == crc16_shift(x6),
            x8 == crc16_shift(x7),
            y0 == x8 ^ (hi as u16),
            y1 == crc16_shift(y0),
            y2 == crc16_shift(y1),
            y3 == crc16_shift(y2),
            y4 == crc16_shift(y3),
            y5 == crc16_shift(y4),
            y6 == crc16_shift(y5),
            y7 == crc16_shift(y6),
            y8 == crc16_shift(y7),
    ;
}

/// Checksumming `data` followed by its own CRC-16/MODBUS, low byte first, gives 0.
pub proof fn lemma_crc16_modbus_check(data: Seq<u8>)
    ensures
        ({
            let c = crc16_modbus_spec(data);
            crc16_modbus_spec(data + seq![(c % 256) as u8, (c / 256) as u8]) == 0
        }),
{
    let c = crc16_modbus_spec(data);
    lemma_crc16_update_concat(0xFFFF, data, seq![(c % 256) as u8, (c / 256) as u8]);
    lemma_crc16_residue(c);
}

/// The CRC-16/MODBUS of `data`.
pub fn crc16_modbus(data: &[u8]) -> (crc: u16)
    ensures
        crc == crc16_modbus_spec(data@),
{
    let mut crc: u16 = 0xFFFF;
    let mut i: usize = 0;
    while i < data.len()
        invariant
            i <= data.len(),
            crc == crc16_update(0xFFFF, data@.take(i as int)),
        decreases data.len() - i,
    {
        let b = data[i];
        let ghost start: u16 = crc ^ (b as u16);
        crc = crc ^ (b as u16);
        let mut k: u32 = 0;
        while k < 8
            invariant
                k <= 8,
                crc == crc16_shifts(start, k as nat),
            decreases 8 - k,
        {
            crc = if crc & 1 != 0 {
                (crc >> 1) ^ 0xA001
            } else {
                crc >> 1
            };
            k = k + 1;
        }
        assert(data@.take(i + 1).drop_last() =~= data@.take(i as int));
        i = i + 1;
    }
    assert(data@.take(data.len() as int) =~= data@);
    crc
}

} // verus!
