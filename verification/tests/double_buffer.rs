use ws2812_dma::driver::RgbDriver;
use ws2812_dma::driver::Ws2812Driver;
use ws2812_dma::encoder::led_spi_bit_pattern;
use ws2812_dma::pixel::Pixel;

#[test]
fn fresh_driver_is_idle_and_dark() {
    let mut d = Ws2812Driver::new(2);
    assert_eq!(d.led_count(), 2);
    assert!(d.is_idle());
    let frame = d.begin_transmit();
    assert!(!d.is_idle());
    // all channels off: every data bit is a zero bit, then the reset gap
    let mut expected = vec![0x80u8; 48];
    expected.extend([0x00; 20]);
    assert_eq!(frame.data, expected);
    d.complete_transmit(frame);
    assert!(d.is_idle());
}

#[test]
fn transmit_flies_prepared_colors() {
    let mut d = Ws2812Driver::new(2);
    d.prepare_color(0, Pixel::new(0xFF, 0x00, 0x00));
    d.prepare_color(1, Pixel::new(0x00, 0xFF, 0x00));
    let frame = d.begin_transmit();
    let leds = vec![Pixel::new(0xFF, 0x00, 0x00), Pixel::new(0x00, 0xFF, 0x00)];
    let mut expected = vec![0u8; 68];
    led_spi_bit_pattern(&leds, &mut expected);
    assert_eq!(frame.data, expected);
    d.complete_transmit(frame);
}

#[test]
fn buffers_alternate_across_transmissions() {
    let mut d = Ws2812Driver::new(3);
    let mut previous_id: Option<u8> = None;
    for step in 0..6 {
        d.prepare_color(step % 3, Pixel::new(step as u8, 0, 0));
        let frame = d.begin_transmit();
        // the buffer freed by call k is never the one in flight for call k+1
        if let Some(p) = previous_id {
            assert_ne!(frame.id, p, "a buffer flew twice in a row");
        }
        assert!(frame.id <= 1);
        previous_id = Some(frame.id);
        d.complete_transmit(frame);
    }
    // with two buffers the flights are exactly 0, 1, 0, 1, ...
    assert_eq!(previous_id, Some(1));
}

#[test]
fn reused_buffer_holds_fresh_frame() {
    // after a full exchange, the buffer coming back around carries the new
    // colors with no residue of the frame it held before
    let mut d = Ws2812Driver::new(1);
    d.prepare_color(0, Pixel::new(0xFF, 0xFF, 0xFF));
    let f0 = d.begin_transmit();
    d.complete_transmit(f0);
    let f1 = d.begin_transmit();
    d.complete_transmit(f1);
    // third transmission reuses the first buffer (id 0) with new colors
    d.prepare_color(0, Pixel::new(0x00, 0x00, 0x00));
    let f2 = d.begin_transmit();
    assert_eq!(f2.id, 0);
    let mut expected = vec![0x80u8; 24];
    expected.extend([0x00; 20]);
    assert_eq!(f2.data, expected);
    d.complete_transmit(f2);
}
