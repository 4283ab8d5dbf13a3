//! The colour of a frame: a hash of its name picks a hue, a saturation and a
//! lightness from the cool part of the colour wheel, which are then turned
//! into red, green and blue.

use vstd::prelude::*;
use vstd::string::StringSliceAdditionalSpecFns;
use vstd::utf8::encode_utf8;

verus! {

/// The hash of a name: over its bytes, from 0, each step multiplies by 31
/// and adds the byte, keeping the low 32 bits.
pub open spec fn name_hash(bytes: Seq<u8>) -> u32
    decreases bytes.len(),
{
    if bytes.len() == 0 {
        0
    } else {
        ((name_hash(bytes.drop_last()) * 31 + bytes.last()) % 0x1_0000_0000) as u32
    }
}

/// The hue that a hash picks, in degrees: from 180 up to 299.
pub open spec fn hue_of(hash: u32) -> int {
    hash % 120 + 180
}

/// The saturation that a hash picks, in percent: from 65 up to 89.
pub open spec fn saturation_of(hash: u32) -> int {
    65 + (hash / 0x100) % 25
}

/// The lightness that a hash picks, in percent: from 38 up to 49.
pub open spec fn lightness_of(hash: u32) -> int {
    38 + (hash / 0x1_0000) % 12
}

/// The chroma of a colour, in units of one ten-thousandth.
pub open spec fn chroma(saturation: int, lightness: int) -> int {
    let spread = if 2 * lightness >= 100 {
        2 * lightness - 100
    } else {
        100 - 2 * lightness
    };
    (100 - spread) * saturation
}

/// How far the hue stands from the nearest primary colour, in sixtieths of
/// the way to the next secondary one.
pub open spec fn hue_weight(hue: int) -> int {
    let within = hue % 120;
    if within >= 60 {
        120 - within
    } else {
        within
    }
}

/// The strongest of the three channels, from 0 to 255: the whole chroma on
/// top of the common base, rounded down.
pub open spec fn strong_channel(saturation: int, lightness: int) -> int {
    255 * (chroma(saturation, lightness) + 200 * lightness) / 20000
}

/// The middle channel, from 0 to 255: the share of the chroma that the hue
/// gives it on top of the common base, rounded down.
pub open spec fn middle_channel(hue: int, saturation: int, lightness: int) -> int {
    let c = chroma(saturation, lightness);
    255 * (c * hue_weight(hue) + 6000 * lightness - 30 * c) / 600000
}

/// The weakest channel, from 0 to 255: the common base alone, rounded down.
pub open spec fn weak_channel(saturation: int, lightness: int) -> int {
    255 * (200 * lightness - chroma(saturation, lightness)) / 20000
}

/// Red, green and blue of a colour given by hue in degrees and by
/// saturation and lightness in percent. The sixth of the colour wheel in
/// which the hue lies says which channel is strong, which in the middle and
/// which weak.
pub open spec fn rgb_of(hue: int, saturation: int, lightness: int) -> (int, int, int) {
    let c = strong_channel(saturation, lightness);
    let x = middle_channel(hue, saturation, lightness);
    let m = weak_channel(saturation, lightness);
    let sector = hue / 60;
    if sector == 0 {
        (c, x, m)
    } else if sector == 1 {
        (x, c, m)
    } else if sector == 2 {
        (m, c, x)
    } else if sector == 3 {
        (m, x, c)
    } else if sector == 4 {
        (x, m, c)
    } else {
        (c, m, x)
    }
}

/// The colour of a frame by its name: indigo for the empty name of the root,
/// and else what the hash of the name's bytes in UTF-8 picks.
pub open spec fn color_of(name: Seq<char>) -> (int, int, int) {
    if name.len() == 0 {
        (99, 102, 241)
    } else {
        let hash = name_hash(encode_utf8(name));
        rgb_of(hue_of(hash), saturation_of(hash), lightness_of(hash))
    }
}

/// Hashes the bytes of a name.
pub fn hash_name(bytes: &[u8]) -> (hash: u32)
    ensures
        hash == name_hash(bytes@),
{
    let mut hash: u32 = 0;
    let mut i: usize = 0;
    proof {
        assert(bytes@.take(0) =~= Seq::<u8>::empty());
    }
    while i < bytes.len()
        invariant
            i <= bytes@.len(),
            hash == name_hash(bytes@.take(i as int)),
        decreases bytes@.len() - i,
    {
        proof {
            assert(bytes@.take(i + 1).drop_last() =~= bytes@.take(i as int));
        }
        hash = hash.wrapping_mul(31).wrapping_add(bytes[i] as u32);
        i += 1;
    }
    proof {
        assert(bytes@.take(i as int) =~= bytes@);
    }
    hash
}

/// Turns hue, saturation and lightness into red, green and blue.
pub fn hsl_to_rgb(hue: u32, saturation: u32, lightness: u32) -> (rgb: (u8, u8, u8))
    requires
        hue < 360,
        saturation <= 100,
        lightness <= 100,
    ensures
        (rgb.0 as int, rgb.1 as int, rgb.2 as int) == rgb_of(
            hue as int,
            saturation as int,
            lightness as int,
        ),
{
    let spread: u32 = if 2 * lightness >= 100 {
        2 * lightness - 100
    } else {
        100 - 2 * lightness
    };
    assert((100 - spread) * saturation <= 100 * (100 - spread)) by (nonlinear_arith)
        requires
            0 <= saturation <= 100,
            0 <= spread <= 100,
    ;
    let c: u32 = (100 - spread) * saturation;
    let within: u32 = hue % 120;
    let weight: u32 = if within >= 60 {
        120 - within
    } else {
        within
    };
    assert(c <= 10000 && c <= 200 * lightness && c * weight <= 600000 && c * weight <= 60 * c && 30
        * c <= c * weight + 6000 * lightness) by (nonlinear_arith)
        requires
            c == (100 - spread) * saturation,
            c <= 100 * (100 - spread),
            0 <= saturation <= 100,
            0 <= spread <= 100,
            100 - spread <= 2 * lightness,
            0 <= weight <= 60,
            0 <= lightness <= 100,
    ;
    let strong: u32 = 255 * (c + 200 * lightness) / 20000;
    let middle: u32 = 255 * (c * weight + 6000 * lightness - 30 * c) / 600000;
    let weak: u32 = 255 * (200 * lightness - c) / 20000;
    assert(strong <= 255 && middle <= 255 && weak <= 255) by (nonlinear_arith)
        requires
            strong == 255 * (c + 200 * lightness) / 20000,
            middle == 255 * (c * weight + 6000 * lightness - 30 * c) / 600000,
            weak == 255 * (200 * lightness - c) / 20000,
            c <= 10000,
            c <= 200 * lightness,
            c + 200 * lightness <= 20000,
            c * weight <= 60 * c,
            0 <= weight <= 60,
            0 <= lightness <= 100,
            0 <= c,
    ;
    let strong = strong as u8;
    let middle = middle as u8;
    let weak = weak as u8;
    let sector = hue / 60;
    if sector == 0 {
        (strong, middle, weak)
    } else if sector == 1 {
        (middle, strong, weak)
    } else if sector == 2 {
        (weak, strong, middle)
    } else if sector == 3 {
        (weak, middle, strong)
    } else if sector == 4 {
        (middle, weak, strong)
    } else {
        (strong, weak, middle)
    }
}

/// The colour of a frame: indigo for the root, whose name is empty, and for
/// every other frame a colour that its name alone decides.
pub fn color_for_name(name: &str) -> (rgb: (u8, u8, u8))
    ensures
        (rgb.0 as int, rgb.1 as int, rgb.2 as int) == color_of(name@),
{
    if name.is_empty() {
        return (99, 102, 241);
    }
    let hash = hash_name(name.as_bytes());
    assert(hash >> 8 == hash / 0x100) by (bit_vector);
    assert(hash >> 16 == hash / 0x1_0000) by (bit_vector);
    let hue = hash % 120 + 180;
    let saturation = 65 + (hash >> 8) % 25;
    let lightness = 38 + (hash >> 16) % 12;
    hsl_to_rgb(hue, saturation, lightness)
}

} // verus!
