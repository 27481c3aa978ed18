//! Encoding of an RGB colour into the SPI byte stream that drives WS2812B ("NeoPixel") LEDs.
//!
//! Each colour bit becomes a nibble on the SPI bus (`0b1000` for 0, `0b1110` for 1), so one
//! byte on the bus carries two colour bits and one colour channel takes four bytes. The LEDs
//! expect the channels in green, red, blue order. A frame starts and ends with a zero byte.

use vstd::prelude::*;

verus! {

/// Bit `pos` of `val`, as 0 or 1.
pub open spec fn spec_bit(val: u8, pos: u8) -> u8 {
    (val >> pos) & 1
}

/// The SPI byte that encodes bits `7 - 2 * j` and `6 - 2 * j` of a channel value.
pub open spec fn encode_pair(val: u8, j: int) -> int {
    0x88 + 0x60 * spec_bit(val, (7 - 2 * j) as u8) + 0x06 * spec_bit(val, (6 - 2 * j) as u8)
}

/// The channel value that goes to the bus at position `c` (0, 1 or 2) of an LED block:
/// green first, then red, then blue.
pub open spec fn channel(color: (u8, u8, u8), c: int) -> u8 {
    if c == 0 {
        color.1
    } else if c == 1 {
        color.0
    } else {
        color.2
    }
}

/// Byte `k` (0 <= k < 12) of the block that drives one LED with `color`.
pub open spec fn led_byte(color: (u8, u8, u8), k: int) -> int {
    encode_pair(channel(color, k / 4), k % 4)
}

/// Number of bytes of a frame for `num_leds` LEDs.
pub open spec fn spec_buffer_size(num_leds: int) -> int {
    12 * num_leds + 2
}

/// The whole frame that lights `num_leds` LEDs with `color`: a zero byte, one block of
/// twelve bytes per LED, and a closing zero byte.
pub open spec fn encoded_frame(num_leds: nat, color: (u8, u8, u8)) -> Seq<u8> {
    Seq::new(
        (12 * num_leds + 2) as nat,
        |i: int|
            if i == 0 || i == 12 * num_leds + 1 {
                0u8
            } else {
                led_byte(color, (i - 1) % 12) as u8
            },
    )
}

/// Bit `pos` of `val`, as 0 or 1.
pub fn bit(val: u8, pos: u8) -> (r: u8)
    requires
        pos < 8,
    ensures
        r == spec_bit(val, pos),
        r <= 1,
{
    assert((val >> pos) & 1 <= 1) by (bit_vector);
    (val >> pos) & 1
}

/// Size of the buffer needed to drive `num_leds` LEDs.
pub fn buffer_size(num_leds: usize) -> (r: usize)
    requires
        12 * num_leds + 2 <= usize::MAX,
    ensures
        r == spec_buffer_size(num_leds as int),
{
    12 * num_leds + 2
}

proof fn lemma_block_position(led: int, c: int, j: int)
    requires
        0 <= led,
        0 <= c < 3,
        0 <= j < 4,
    ensures
        (12 * led + 4 * c + j) % 12 == 4 * c + j,
        (4 * c + j) / 4 == c,
        (4 * c + j) % 4 == j,
{
    assert((12 * led + 4 * c + j) % 12 == 4 * c + j) by (nonlinear_arith)
        requires
            0 <= led,
            0 <= 4 * c + j < 12,
    ;
}

/// Writes the frame that lights every LED that fits into `data` with `color`, and returns
/// the part of `data` that holds the frame. `data` fits `(data.len() - 2) / 12` LEDs; a
/// buffer of fewer than two bytes fits no frame at all and is left untouched.
pub fn fill_with_color(data: &mut [u8], color: (u8, u8, u8)) -> (r: &[u8])
    ensures
        old(data)@.len() < 2 ==> r@ == Seq::<u8>::empty() && final(data)@ == old(data)@,
        old(data)@.len() >= 2 ==> {
            let n = ((old(data)@.len() - 2) / 12) as nat;
            &&& r@ == encoded_frame(n, color)
            &&& final(data)@ == encoded_frame(n, color) + old(data)@.subrange(
                (12 * n + 2) as int,
                old(data)@.len() as int,
            )
        },
{
    let len = data.len();
    if len < 2 {
        return &data[0..0];
    }
    let num_leds = (len - 2) / 12;
    let size = buffer_size(num_leds);
    let ghost n = num_leds as nat;
    let ghost frame = encoded_frame(n, color);
    let ghost orig = data@;

    let mut i: usize = 0;
    while i < size
        invariant
            size == 12 * n + 2 <= len,
            data@.len() == len,
            orig.len() == len,
            i <= size,
            forall|k: int| 0 <= k < i ==> data@[k] == 0,
            forall|k: int| size <= k < len ==> data@[k] == orig[k],
        decreases size - i,
    {
        data[i] = 0;
        i += 1;
    }

    let channels: [u8; 3] = [color.1, color.0, color.2];
    let mut led_id: usize = 0;
    let mut base: usize = 1;
    while led_id < num_leds
        invariant
            size == 12 * n + 2 <= len,
            num_leds == n,
            frame == encoded_frame(n, color),
            channels@ == seq![color.1, color.0, color.2],
            data@.len() == len,
            orig.len() == len,
            led_id <= num_leds,
            base == 12 * led_id + 1,
            forall|k: int| 0 <= k < base ==> data@[k] == frame[k],
            forall|k: int| base <= k < size ==> data@[k] == 0,
            forall|k: int| size <= k < len ==> data@[k] == orig[k],
        decreases num_leds - led_id,
    {
        let mut color_pos: usize = 0;
        let mut start: usize = base;
        while color_pos < 3
            invariant
                size == 12 * n + 2 <= len,
                num_leds == n,
                frame == encoded_frame(n, color),
                channels@ == seq![color.1, color.0, color.2],
                data@.len() == len,
                orig.len() == len,
                led_id < num_leds,
                base == 12 * led_id + 1,
                color_pos <= 3,
                start == base + 4 * color_pos,
                forall|k: int| 0 <= k < start ==> data@[k] == frame[k],
                forall|k: int| start <= k < size ==> data@[k] == 0,
                forall|k: int| size <= k < len ==> data@[k] == orig[k],
            decreases 3 - color_pos,
        {
            let color_val = channels[color_pos];
            assert(color_val == channel(color, color_pos as int));
            proof {
                lemma_block_position(led_id as int, color_pos as int, 0);
                lemma_block_position(led_id as int, color_pos as int, 1);
                lemma_block_position(led_id as int, color_pos as int, 2);
                lemma_block_position(led_id as int, color_pos as int, 3);
            }
            data[start] = 0x88 + 0x60 * bit(color_val, 7) + 0x06 * bit(color_val, 6);
            data[start + 1] = 0x88 + 0x60 * bit(color_val, 5) + 0x06 * bit(color_val, 4);
            data[start + 2] = 0x88 + 0x60 * bit(color_val, 3) + 0x06 * bit(color_val, 2);
            data[start + 3] = 0x88 + 0x60 * bit(color_val, 1) + 0x06 * bit(color_val, 0);
            assert forall|k: int| start <= k < start + 4 implies data@[k] == frame[k] by {
                assert((k - 1) % 12 == 4 * color_pos + (k - start));
            }
            color_pos += 1;
            start += 4;
        }
        led_id += 1;
        base += 12;
    }
    assert(data@ =~= frame + orig.subrange(size as int, len as int));
    let r = &data[0..size];
    assert(r@ =~= frame);
    r
}


/// The two colour bits carried by one SPI byte, as a number from 0 to 3: the middle bits of
/// the high nibble carry the first bit, those of the low nibble the second.
pub open spec fn decode_pair(b: u8) -> int {
    (if b & 0x60 == 0x60 {
        2u8
    } else {
        0u8
    }) + (if b & 0x06 == 0x06 {
        1u8
    } else {
        0u8
    })
}

/// The channel value carried by the four bytes of `frame` from `start` on.
pub open spec fn decode_channel(frame: Seq<u8>, start: int) -> int {
    64 * decode_pair(frame[start]) + 16 * decode_pair(frame[start + 1]) + 4 * decode_pair(
        frame[start + 2],
    ) + decode_pair(frame[start + 3])
}

/// The colour (red, green, blue) that LED number `led` of `frame` is driven with.
pub open spec fn decode_led(frame: Seq<u8>, led: int) -> (int, int, int) {
    let start = 12 * led + 1;
    (decode_channel(frame, start + 4), decode_channel(frame, start), decode_channel(frame, start + 8))
}

proof fn lemma_pairs_decode(v: u8)
    ensures
        64 * decode_pair(encode_pair(v, 0) as u8) + 16 * decode_pair(encode_pair(v, 1) as u8) + 4
            * decode_pair(encode_pair(v, 2) as u8) + decode_pair(encode_pair(v, 3) as u8) == v,
{
    let b0 = (0x88 + 0x60 * ((v >> 7u8) & 1) + 0x06 * ((v >> 6u8) & 1)) as u8;
    let b1 = (0x88 + 0x60 * ((v >> 5u8) & 1) + 0x06 * ((v >> 4u8) & 1)) as u8;
    let b2 = (0x88 + 0x60 * ((v >> 3u8) & 1) + 0x06 * ((v >> 2u8) & 1)) as u8;
    let b3 = (0x88 + 0x60 * ((v >> 1u8) & 1) + 0x06 * ((v >> 0u8) & 1)) as u8;
    assert(encode_pair(v, 0) as u8 == b0);
    assert(encode_pair(v, 1) as u8 == b1);
    assert(encode_pair(v, 2) as u8 == b2);
    assert(encode_pair(v, 3) as u8 == b3);
    assert(64 * decode_pair(b0) + 16 * decode_pair(b1) + 4 * decode_pair(b2) + decode_pair(b3)
        == v) by (bit_vector)
        requires
            b0 == (0x88 + 0x60 * ((v >> 7u8) & 1) + 0x06 * ((v >> 6u8) & 1)) as u8,
            b1 == (0x88 + 0x60 * ((v >> 5u8) & 1) + 0x06 * ((v >> 4u8) & 1)) as u8,
            b2 == (0x88 + 0x60 * ((v >> 3u8) & 1) + 0x06 * ((v >> 2u8) & 1)) as u8,
            b3 == (0x88 + 0x60 * ((v >> 1u8) & 1) + 0x06 * ((v >> 0u8) & 1)) as u8,
    ;
}

/// Each byte of an LED block is one of the four symbols 0x88, 0x8e, 0xe8 and 0xee.
pub proof fn lemma_led_byte_symbols(color: (u8, u8, u8), k: int)
    requires
        0 <= k < 12,
    ensures
        ({
            let b = led_byte(color, k);
            b == 0x88 || b == 0x8e || b == 0xe8 || b == 0xee
        }),
{
    let v = channel(color, k / 4);
    let j = k % 4;
    let hi = (7 - 2 * j) as u8;
    let lo = (6 - 2 * j) as u8;
    assert((v >> hi) & 1 <= 1 && (v >> lo) & 1 <= 1) by (bit_vector);
}

/// Decoding the frame gives back the colour at every LED: the frame drives each of its
/// LEDs with exactly the colour it was made for.
pub proof fn lemma_frame_decodes(num_leds: nat, color: (u8, u8, u8), led: int)
    requires
        0 <= led < num_leds,
    ensures
        decode_led(encoded_frame(num_leds, color), led) == (
            color.0 as int,
            color.1 as int,
            color.2 as int,
        ),
{
    let frame = encoded_frame(num_leds, color);
    let start = 12 * led + 1;
    assert(12 * led + 12 < 12 * num_leds + 1) by (nonlinear_arith)
        requires
            0 <= led < num_leds,
    ;
    assert forall|c: int, j: int| 0 <= c < 3 && 0 <= j < 4 implies #[trigger] frame[start + 4 * c
        + j] == encode_pair(channel(color, c), j) as u8 by {
        lemma_block_position(led, c, j);
    }
    assert(frame[start] == encode_pair(channel(color, 0), 0) as u8);
    assert(frame[start + 1] == encode_pair(channel(color, 0), 1) as u8);
    assert(frame[start + 2] == encode_pair(channel(color, 0), 2) as u8);
    assert(frame[start + 3] == encode_pair(channel(color, 0), 3) as u8);
    assert(frame[start + 4] == encode_pair(channel(color, 1), 0) as u8);
    assert(frame[start + 4 + 1] == encode_pair(channel(color, 1), 1) as u8);
    assert(frame[start + 4 + 2] == encode_pair(channel(color, 1), 2) as u8);
    assert(frame[start + 4 + 3] == encode_pair(channel(color, 1), 3) as u8);
    assert(frame[start + 8] == encode_pair(channel(color, 2), 0) as u8);
    assert(frame[start + 8 + 1] == encode_pair(channel(color, 2), 1) as u8);
    assert(frame[start + 8 + 2] == encode_pair(channel(color, 2), 2) as u8);
    assert(frame[start + 8 + 3] == encode_pair(channel(color, 2), 3) as u8);
    lemma_pairs_decode(color.0);
    lemma_pairs_decode(color.1);
    lemma_pairs_decode(color.2);
}

/// A frame starts and ends with a zero byte, and every byte between is one of the four
/// symbols 0x88, 0x8e, 0xe8 and 0xee.
pub proof fn lemma_frame_symbols(num_leds: nat, color: (u8, u8, u8), i: int)
    requires
        0 <= i < 12 * num_leds + 2,
    ensures
        ({
            let b = encoded_frame(num_leds, color)[i];
            &&& (i == 0 || i == 12 * num_leds + 1) ==> b == 0
            &&& (0 < i < 12 * num_leds + 1) ==> (b == 0x88 || b == 0x8e || b == 0xe8 || b == 0xee)
        }),
{
    if 0 < i < 12 * num_leds + 1 {
        lemma_led_byte_symbols(color, (i - 1) % 12);
    }
}

} // verus!
