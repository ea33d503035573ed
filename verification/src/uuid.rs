//! Random ids in the shape of a version 4 UUID.

use vstd::prelude::*;

verus! {

/// The number that an id is made of: a point in time in nanoseconds, how many ids
/// were made before, and the process that makes it.
pub open spec fn uuid_seed(nanos: u128, counter: u64, pid: u32) -> u128 {
    nanos ^ ((counter as u128) << 64) ^ ((pid as u128) << 96)
}

/// A byte of a number, the lowest one first.
pub open spec fn byte_at(x: u128, i: int) -> u8 {
    ((x >> ((8 * i) as u128)) & 0xff) as u8
}

/// The bytes of an id: those of the number, with the bits of the version and the
/// variant put in.
pub open spec fn uuid_bytes(x: u128) -> Seq<u8> {
    Seq::new(
        16,
        |i: int|
            if i == 6 {
                (byte_at(x, i) & 0x0f) | 0x40
            } else if i == 8 {
                (byte_at(x, i) & 0x3f) | 0x80
            } else {
                byte_at(x, i)
            },
    )
}

/// The character of a digit to the base 16.
pub open spec fn hex_char(d: u8) -> char {
    if d < 10 {
        (48 + d) as char
    } else {
        (87 + d) as char
    }
}

/// Whether a dash stands before the byte with this index.
pub open spec fn dashed(i: int) -> bool {
    i == 4 || i == 6 || i == 8 || i == 10
}

/// The first `n` bytes in digits to the base 16, in groups.
pub open spec fn grouped(bytes: Seq<u8>, n: nat) -> Seq<char>
    decreases n,
{
    if n == 0 {
        Seq::empty()
    } else {
        let i = n - 1;
        let before = grouped(bytes, i as nat);
        let led = if dashed(i) {
            before.push('-')
        } else {
            before
        };
        led.push(hex_char(bytes[i] / 16)).push(hex_char(bytes[i] % 16))
    }
}

/// The text of an id.
pub open spec fn uuid_text(x: u128) -> Seq<char> {
    grouped(uuid_bytes(x), 16)
}

fn hex(d: u8) -> (r: char)
    requires
        d < 16,
    ensures
        r == hex_char(d),
{
    if d < 10 {
        (48u8 + d) as char
    } else {
        (87u8 + d) as char
    }
}

/// An id, made from a point in time, a count and a process.
pub fn uuid_v4(nanos: u128, counter: u64, pid: u32) -> (r: String)
    ensures
        r@ == uuid_text(uuid_seed(nanos, counter, pid)),
{
    let seed: u128 = nanos ^ ((counter as u128) << 64) ^ ((pid as u128) << 96);
    let mut x: u128 = seed;
    let mut out = String::new();
    let mut i: usize = 0;
    proof {
        assert(seed >> 0u128 == seed) by (bit_vector);
    }
    while i < 16
        invariant
            i <= 16,
            x == seed >> ((8 * i) as u128),
            out@ == grouped(uuid_bytes(seed), i as nat),
        decreases 16 - i,
    {
        let raw: u8 = (x & 0xff) as u8;
        let b: u8 = if i == 6 {
            (raw & 0x0f) | 0x40
        } else if i == 8 {
            (raw & 0x3f) | 0x80
        } else {
            raw
        };
        if i == 4 || i == 6 || i == 8 || i == 10 {
            out.push('-');
        }
        out.push(hex(b / 16));
        out.push(hex(b % 16));
        proof {
            let k: u128 = (8 * i) as u128;
            assert((seed >> k) >> 8u128 == seed >> ((k + 8) as u128)) by (bit_vector)
                requires
                    k <= 120,
            ;
        }
        x = x >> 8;
        i += 1;
    }
    out
}

/// An id has the shape of a version 4 UUID: 36 characters, dashes in four places,
/// the version, and one of the four digits that the variant allows.
pub proof fn law_uuid_shape(x: u128)
    ensures
        ({
            let t = uuid_text(x);
            &&& t.len() == 36
            &&& t[8] == '-' && t[13] == '-' && t[18] == '-' && t[23] == '-'
            &&& t[14] == '4'
            &&& t[19] == '8' || t[19] == '9' || t[19] == 'a' || t[19] == 'b'
            &&& forall|i: int|
                0 <= i < 36 && i != 8 && i != 13 && i != 18 && i != 23 ==> {
                    let c = #[trigger] t[i];
                    '0' <= c <= '9' || 'a' <= c <= 'f'
                }
        }),
{
    let b = uuid_bytes(x);
    reveal_with_fuel(grouped, 17);
    let v = byte_at(x, 6);
    let w = byte_at(x, 8);
    assert(((v & 0x0f) | 0x40) / 16 == 4) by (bit_vector);
    assert(8 <= ((w & 0x3f) | 0x80) / 16 < 12) by (bit_vector);
}

} // verus!
