//! The transmission engine: two long-lived transfer buffers, exchanged
//! between a software role (free for encoding) and a hardware role (in
//! flight on the DMA path), so that the CPU never rewrites memory that a
//! transfer is still reading.
//!
//! The blocking wait for transfer completion is the one point where the
//! engine depends on the peripheral, so a transmission is split there:
//! [`RgbDriver::begin_transmit`] encodes into the free buffer and hands it
//! out for the hardware transfer, and [`RgbDriver::complete_transmit`] takes
//! it back once the transfer is done. The caller that owns the peripheral
//! runs the transfer between the two calls; the contracts admit a second
//! transmission only after the first buffer has come back.

use vstd::prelude::*;

use crate::encoder::frame_bytes;
use crate::encoder::frame_len;
use crate::encoder::led_spi_bit_pattern;
use crate::encoder::lemma_frame_bytes_len;
use crate::encoder::BITS_PER_LED;
use crate::encoder::RESET_BITS;
use crate::pixel::Pixel;

verus! {

/// One of the two transfer buffers, tagged with its identity so that the
/// hand-off discipline can be stated and checked: `id` is 0 or 1 and never
/// changes after allocation.
pub struct FrameBuffer {
    /// Which of the two long-lived buffers this is: 0 or 1.
    pub id: u8,
    /// The encoded bitstream this buffer holds.
    pub data: Vec<u8>,
}

impl FrameBuffer {
    /// A buffer fit for a strip of `led_count` pixels: one of the two
    /// identities, sized to exactly one encoded frame.
    pub open spec fn valid(&self, led_count: nat) -> bool {
        &&& self.id <= 1
        &&& self.data@.len() == frame_len(led_count)
    }

    /// Allocate one all-zero transfer buffer for a strip of `led_count`
    /// pixels. Buffers are allocated once, at initialization, and reused
    /// for every later frame.
    pub fn new(id: u8, led_count: usize) -> (b: FrameBuffer)
        requires
            id <= 1,
            frame_len(led_count as nat) <= usize::MAX,
        ensures
            b.valid(led_count as nat),
            b.id == id,
            forall|k: int| 0 <= k < b.data@.len() ==> b.data@[k] == 0u8,
    {
        let n: usize = led_count * BITS_PER_LED + RESET_BITS;
        let mut data: Vec<u8> = Vec::new();
        while data.len() < n
            invariant
                data@.len() <= n,
                forall|k: int| 0 <= k < data@.len() ==> data@[k] == 0u8,
            decreases n - data@.len(),
        {
            data.push(0u8);
        }
        FrameBuffer { id, data }
    }
}

/// A driver for an addressable RGB LED strip.
///
/// A transmission has two phases around the hardware transfer:
/// `begin_transmit` yields the encoded buffer, the caller runs the transfer
/// to completion, and `complete_transmit` returns the buffer to the engine.
pub trait RgbDriver: Sized {
    /// The pixel sequence the next frame will encode, in strip order.
    spec fn colors(&self) -> Seq<Pixel>;

    /// True when no transfer is under way: both buffers are with the engine.
    spec fn idle(&self) -> bool;

    /// Identity of the buffer the next transmission will encode into.
    spec fn next_flight_id(&self) -> u8;

    /// Identity of the buffer now on the hardware path. Meaningful only
    /// while not idle.
    spec fn inflight_id(&self) -> u8;

    /// The double-buffer invariant: the engine always holds a free buffer of
    /// the right size, and the other buffer — standing by or in flight —
    /// always carries the other identity.
    spec fn wf(&self) -> bool;

    /// Prepare to set the color of the LED at `index` for the next frame.
    /// An out-of-range index is a programmer error, rejected here before it
    /// can reach the encoder.
    fn prepare_color(&mut self, index: usize, color: Pixel)
        requires
            old(self).wf(),
            index < old(self).colors().len(),
        ensures
            final(self).wf(),
            final(self).colors() == old(self).colors().update(index as int, color),
            final(self).idle() == old(self).idle(),
            final(self).next_flight_id() == old(self).next_flight_id(),
            final(self).inflight_id() == old(self).inflight_id(),
    ;

    /// Take the free buffer, encode the prepared colors into it, and hand it
    /// out for the hardware transfer. The buffer that comes back from the
    /// previous transfer becomes the free one, so consecutive transmissions
    /// never fly the same buffer twice in a row: the engine's new
    /// `next_flight_id` differs from the identity just handed out.
    fn begin_transmit(&mut self) -> (frame: FrameBuffer)
        requires
            old(self).wf(),
            old(self).idle(),
        ensures
            final(self).wf(),
            !final(self).idle(),
            final(self).colors() == old(self).colors(),
            frame.data@ == frame_bytes(old(self).colors()),
            frame.id == old(self).next_flight_id(),
            frame.id <= 1,
            final(self).inflight_id() == frame.id,
            final(self).next_flight_id() != frame.id,
    ;

    /// Reclaim ownership of the buffer once the hardware transfer is done.
    /// Only the buffer that is actually in flight can come back; the engine
    /// is idle again afterwards.
    fn complete_transmit(&mut self, frame: FrameBuffer)
        requires
            old(self).wf(),
            !old(self).idle(),
            frame.id == old(self).inflight_id(),
            frame.data@.len() == frame_len(old(self).colors().len()),
        ensures
            final(self).wf(),
            final(self).idle(),
            final(self).colors() == old(self).colors(),
            final(self).next_flight_id() == old(self).next_flight_id(),
    ;
}

/// Across consecutive transmissions no buffer flies twice in a row. One
/// call's `begin_transmit` flies `next_flight_id` and, by its contract,
/// leaves a different `next_flight_id` behind; `complete_transmit` and
/// `prepare_color` preserve it; so the buffer the next call flies is never
/// the buffer just returned to free status. The hypotheses are exactly what
/// those contracts ensure between any two consecutive transmissions.
pub proof fn lemma_consecutive_flights_differ<D: RgbDriver>(
    before_k: D,
    after_k: D,
    before_next: D,
    flown_k: u8,
    flown_next: u8,
)
    requires
        flown_k == before_k.next_flight_id(),
        after_k.next_flight_id() != flown_k,
        before_next.next_flight_id() == after_k.next_flight_id(),
        flown_next == before_next.next_flight_id(),
    ensures
        flown_next != flown_k,
{
}

/// The WS2812 transmission engine: the prepared pixel values and the two
/// transfer buffers. `free` always holds the buffer the CPU may encode
/// into; `standby` holds the other buffer while no transfer runs, and is
/// empty exactly while one is in flight, with `flying` recording which
/// identity is out.
pub struct Ws2812Driver {
    led_data: Vec<Pixel>,
    free: Option<FrameBuffer>,
    standby: Option<FrameBuffer>,
    flying: u8,
}

impl Ws2812Driver {
    /// Set up a driver for a strip of `led_count` pixels, all channels off,
    /// with both transfer buffers allocated and the engine idle. The length
    /// bound is the machine limit on one frame's byte count.
    pub fn new(led_count: usize) -> (d: Ws2812Driver)
        requires
            frame_len(led_count as nat) <= usize::MAX,
        ensures
            d.wf(),
            d.idle(),
            d.colors().len() == led_count,
            forall|i: int|
                0 <= i < led_count ==> d.colors()[i] == (Pixel { r: 0u8, g: 0u8, b: 0u8 }),
            d.next_flight_id() == 0u8,
    {
        let mut led_data: Vec<Pixel> = Vec::new();
        while led_data.len() < led_count
            invariant
                led_data@.len() <= led_count,
                forall|i: int|
                    0 <= i < led_data@.len() ==> led_data@[i] == (Pixel { r: 0u8, g: 0u8, b: 0u8 }),
            decreases led_count - led_data@.len(),
        {
            led_data.push(Pixel::black());
        }
        Ws2812Driver {
            led_data,
            free: Some(FrameBuffer::new(0, led_count)),
            standby: Some(FrameBuffer::new(1, led_count)),
            flying: 0,
        }
    }

    /// Number of LEDs on the strip, fixed at initialization.
    pub fn led_count(&self) -> (n: usize)
        ensures
            n == self.colors().len(),
    {
        self.led_data.len()
    }

    /// True when no transfer is under way.
    pub fn is_idle(&self) -> (r: bool)
        ensures
            r == self.idle(),
    {
        self.standby.is_some()
    }
}

impl RgbDriver for Ws2812Driver {
    closed spec fn colors(&self) -> Seq<Pixel> {
        self.led_data@
    }

    closed spec fn idle(&self) -> bool {
        self.standby is Some
    }

    closed spec fn next_flight_id(&self) -> u8 {
        self.free->0.id
    }

    closed spec fn inflight_id(&self) -> u8 {
        self.flying
    }

    closed spec fn wf(&self) -> bool {
        &&& self.free is Some
        &&& self.free->0.valid(self.led_data@.len())
        &&& match self.standby {
            Some(sb) => sb.valid(self.led_data@.len()) && sb.id != self.free->0.id,
            None => self.flying <= 1 && self.flying != self.free->0.id,
        }
    }

    fn prepare_color(&mut self, index: usize, color: Pixel) {
        self.led_data.set(index, color);
    }

    fn begin_transmit(&mut self) -> (frame: FrameBuffer) {
        let mut bits = self.free.take().unwrap();
        led_spi_bit_pattern(&self.led_data, &mut bits.data);
        proof {
            lemma_frame_bytes_len(self.led_data@);
        }
        let sb = self.standby.take().unwrap();
        self.free = Some(sb);
        self.flying = bits.id;
        bits
    }

    fn complete_transmit(&mut self, frame: FrameBuffer) {
        self.standby = Some(frame);
    }
}

} // verus!
