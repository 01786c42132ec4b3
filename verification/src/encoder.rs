//! Bit-pattern encoding: turning an ordered RGB pixel sequence into the raw
//! byte buffer that the serial peripheral clocks out.
//!
//! The strip's protocol distinguishes a logical 0 from a logical 1 by the
//! width of the high pulse inside one fixed bit period. One transmitted byte
//! stands for one logical bit: at the configured serial clock, the byte
//! `0b1111_0000` yields the long high pulse of a 1 and `0b1000_0000` the
//! short high pulse of a 0. Every pixel contributes 24 such bytes (channel
//! order green, red, blue; most significant bit first), and the frame ends in
//! a run of all-zero bytes that forms the idle reset gap the strip requires
//! between frames.

use vstd::prelude::*;

use crate::pixel::Pixel;

verus! {

/// Output byte standing for a logical 1: high for half the byte period.
pub const SPI_BYTE_ONE: u8 = 0b1111_0000;

/// Output byte standing for a logical 0: high for one eighth of the byte
/// period.
pub const SPI_BYTE_ZERO: u8 = 0b1000_0000;

/// Output bytes per pixel: 8 per channel, 3 channels.
pub const BITS_PER_LED: usize = 24;

/// Trailing all-zero bytes forming the reset gap between frames.
pub const RESET_BITS: usize = 20;

/// Length of the encoded frame for a strip of `led_count` pixels.
pub open spec fn frame_len(led_count: nat) -> nat {
    (BITS_PER_LED as nat) * led_count + (RESET_BITS as nat)
}

/// The output byte that stands for one logical bit on the wire.
pub open spec fn spi_byte(bit: bool) -> u8 {
    if bit {
        SPI_BYTE_ONE
    } else {
        SPI_BYTE_ZERO
    }
}

/// Bit `i` of a channel byte, most significant bit first.
pub open spec fn channel_bit(byte: u8, i: int) -> bool {
    byte & (0x80u8 >> i) != 0u8
}

/// The 8 output bytes of one channel byte, most significant bit first.
pub open spec fn channel_bytes(byte: u8) -> Seq<u8> {
    Seq::new(8, |i: int| spi_byte(channel_bit(byte, i)))
}

/// The 24 output bytes of one pixel, in the wire's channel order:
/// green, then red, then blue.
pub open spec fn pixel_bytes(p: Pixel) -> Seq<u8> {
    channel_bytes(p.g) + channel_bytes(p.r) + channel_bytes(p.b)
}

/// The output bytes of a whole strip, pixels in strip order.
pub open spec fn strip_bytes(s: Seq<Pixel>) -> Seq<u8>
    decreases s.len(),
{
    if s.len() == 0 {
        Seq::empty()
    } else {
        strip_bytes(s.drop_last()) + pixel_bytes(s.last())
    }
}

/// One complete transmittable frame: the strip's output bytes followed by
/// the all-zero reset gap.
pub open spec fn frame_bytes(s: Seq<Pixel>) -> Seq<u8> {
    strip_bytes(s) + Seq::new(RESET_BITS as nat, |i: int| 0u8)
}

/// A strip of `n` pixels encodes to exactly `24 * n` data bytes.
pub proof fn lemma_strip_bytes_len(s: Seq<Pixel>)
    ensures
        strip_bytes(s).len() == 24 * s.len(),
    decreases s.len(),
{
    if s.len() > 0 {
        lemma_strip_bytes_len(s.drop_last());
    }
}

/// Every strip of `n` pixels encodes to a frame of exactly
/// `24 * n + RESET_BITS` bytes.
pub proof fn lemma_frame_bytes_len(s: Seq<Pixel>)
    ensures
        frame_bytes(s).len() == frame_len(s.len()),
{
    lemma_strip_bytes_len(s);
}

/// The trailing `RESET_BITS` bytes of every encoded frame are zero,
/// whatever the strip holds.
pub proof fn lemma_frame_reset_gap(s: Seq<Pixel>)
    ensures
        frame_bytes(s).len() == frame_len(s.len()),
        forall|k: int|
            24 * s.len() <= k < frame_bytes(s).len() ==> frame_bytes(s)[k] == 0u8,
{
    lemma_strip_bytes_len(s);
}

/// Channel `c` of a pixel in the wire's transmission order:
/// green first, then red, then blue.
pub open spec fn channel_at(p: Pixel, c: int) -> u8 {
    if c == 0 {
        p.g
    } else if c == 1 {
        p.r
    } else {
        p.b
    }
}

/// Each channel byte of each pixel maps deterministically to 8 output
/// bytes: bit `i` (most significant first) of channel `c` of pixel `j`
/// stands at frame position `24 * j + 8 * c + i` and is `SPI_BYTE_ONE`
/// exactly when the bit is set, else `SPI_BYTE_ZERO`.
pub proof fn lemma_frame_bit_encoding(s: Seq<Pixel>, j: int, c: int, i: int)
    requires
        0 <= j < s.len(),
        0 <= c < 3,
        0 <= i < 8,
    ensures
        frame_bytes(s)[24 * j + 8 * c + i] == spi_byte(channel_bit(channel_at(s[j], c), i)),
    decreases s.len(),
{
    lemma_strip_bytes_len(s);
    lemma_strip_bytes_len(s.drop_last());
    let k = 24 * j + 8 * c + i;
    assert(frame_bytes(s)[k] == strip_bytes(s)[k]);
    if j == s.len() - 1 {
        assert(strip_bytes(s)[k] == pixel_bytes(s.last())[8 * c + i]);
        assert(pixel_bytes(s[j])[8 * c + i] == spi_byte(channel_bit(channel_at(s[j], c), i)));
    } else {
        lemma_frame_bit_encoding(s.drop_last(), j, c, i);
        assert(frame_bytes(s.drop_last())[k] == strip_bytes(s.drop_last())[k]);
        assert(s.drop_last()[j] == s[j]);
    }
}

/// Extending an encoded prefix by one pixel appends that pixel's 24 bytes.
proof fn lemma_strip_bytes_take_succ(s: Seq<Pixel>, j: int)
    requires
        0 <= j < s.len(),
    ensures
        strip_bytes(s.take(j + 1)) == strip_bytes(s.take(j)) + pixel_bytes(s[j]),
{
    assert(s.take(j + 1).drop_last() =~= s.take(j));
    assert(s.take(j + 1).last() == s[j]);
}

/// Write the single output byte standing for the logical bit `value` at
/// `target[index]`.
pub fn set_spi_byte(value: bool, target: &mut Vec<u8>, index: usize)
    requires
        index < old(target)@.len(),
    ensures
        final(target)@ == old(target)@.update(index as int, spi_byte(value)),
{
    let byte: u8 = match value {
        false => SPI_BYTE_ZERO,
        true => SPI_BYTE_ONE,
    };
    target.set(index, byte);
}

/// Expand one channel byte into its 8 output bytes at
/// `target[offset .. offset + 8]`, most significant bit first.
/// Bytes outside that window keep their previous values.
pub fn set_from_byte(byte: u8, target: &mut Vec<u8>, offset: usize)
    requires
        offset + 8 <= old(target)@.len(),
    ensures
        final(target)@.len() == old(target)@.len(),
        forall|k: int|
            offset <= k < offset + 8 ==> final(target)@[k] == spi_byte(
                channel_bit(byte, k - offset),
            ),
        forall|k: int|
            0 <= k < final(target)@.len() && !(offset <= k < offset + 8) ==> final(target)@[k]
                == old(target)@[k],
{
    let ghost orig: Seq<u8> = target@;
    let n: usize = target.len();
    let mut i: usize = 0;
    while i < 8
        invariant
            i <= 8,
            n == orig.len(),
            offset + 8 <= orig.len(),
            target@.len() == orig.len(),
            forall|k: int|
                offset <= k < offset + i ==> target@[k] == spi_byte(channel_bit(byte, k - offset)),
            forall|k: int|
                0 <= k < target@.len() && !(offset <= k < offset + i) ==> target@[k] == orig[k],
        decreases 8 - i,
    {
        let mask: u8 = 0x80u8 >> i;
        let bit: bool = byte & mask == mask;
        proof {
            assert((byte & mask == mask) == (byte & mask != 0u8)) by (bit_vector)
                requires
                    mask == 0x80u8 >> i,
                    i < 8usize,
            ;
        }
        set_spi_byte(bit, target, offset + i);
        i = i + 1;
    }
}

/// Encode a whole strip into `output`: first every byte is reset to zero
/// (clearing any residue from a previous frame, reset gap included), then
/// each pixel's channels are written in wire order green, red, blue. The
/// result depends on the pixels alone, never on what `output` held before.
pub fn led_spi_bit_pattern(leds: &Vec<Pixel>, output: &mut Vec<u8>)
    requires
        old(output)@.len() == frame_len(leds@.len()),
    ensures
        final(output)@ == frame_bytes(leds@),
{
    proof {
        lemma_frame_bytes_len(leds@);
    }
    let n: usize = output.len();
    // Set all output bytes to 0
    let mut z: usize = 0;
    while z < n
        invariant
            z <= n,
            n == output@.len(),
            forall|k: int| 0 <= k < z ==> output@[k] == 0u8,
        decreases n - z,
    {
        output.set(z, 0u8);
        z = z + 1;
    }
    let mut j: usize = 0;
    while j < leds.len()
        invariant
            j <= leds@.len(),
            output@.len() == frame_len(leds@.len()),
            output@.len() == n,
            output@.subrange(0, 24 * j as int) == strip_bytes(leds@.take(j as int)),
            forall|k: int| 24 * (j as int) <= k < output@.len() ==> output@[k] == 0u8,
        decreases leds@.len() - j,
    {
        let offset: usize = 24 * j;
        let led = leds[j];
        let ghost before: Seq<u8> = output@;
        set_from_byte(led.g, output, offset);
        set_from_byte(led.r, output, offset + 8);
        set_from_byte(led.b, output, offset + 16);
        proof {
            lemma_strip_bytes_take_succ(leds@, j as int);
            lemma_strip_bytes_len(leds@.take(j as int));
            lemma_strip_bytes_len(leds@.take(j as int + 1));
            assert forall|k: int| 0 <= k < 24 * (j as int) + 24 implies output@[k] == strip_bytes(
                leds@.take(j as int + 1),
            )[k] by {
                if k < 24 * (j as int) {
                    assert(output@[k] == before[k]);
                    assert(before[k] == strip_bytes(leds@.take(j as int))[k]);
                } else {
                    let d = k - 24 * (j as int);
                    assert(strip_bytes(leds@.take(j as int + 1))[k] == pixel_bytes(leds@[j as int])[d]);
                    if d < 8 {
                        assert(output@[k] == spi_byte(channel_bit(led.g, d)));
                        assert(pixel_bytes(leds@[j as int])[d] == channel_bytes(led.g)[d]);
                    } else if d < 16 {
                        assert(output@[k] == spi_byte(channel_bit(led.r, d - 8)));
                        assert(pixel_bytes(leds@[j as int])[d] == channel_bytes(led.r)[d - 8]);
                    } else {
                        assert(output@[k] == spi_byte(channel_bit(led.b, d - 16)));
                        assert(pixel_bytes(leds@[j as int])[d] == channel_bytes(led.b)[d - 16]);
                    }
                }
            }
            assert(output@.subrange(0, 24 * (j as int + 1)) =~= strip_bytes(
                leds@.take(j as int + 1),
            ));
        }
        j = j + 1;
    }
    proof {
        assert(leds@.take(leds@.len() as int) =~= leds@);
        assert(output@ =~= frame_bytes(leds@));
    }
}

} // verus!
