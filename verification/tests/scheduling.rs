use ws2812_dma::pixel::wheel;
use ws2812_dma::pixel::Pixel;
use ws2812_dma::scheduler::Scheduler;

#[test]
fn rearm_is_drift_free() {
    // the next activation is one period after the prior *scheduled* time;
    // rearm takes no completion time, so a slow frame cannot shift the phase
    let mut s = Scheduler::new(1_000, 100_000);
    s.rearm();
    assert_eq!(s.scheduled, 101_000);
    s.rearm();
    assert_eq!(s.scheduled, 201_000);
    assert_eq!(s.period, 100_000);
}

#[test]
fn frame_colors_follow_the_wheel() {
    let s = Scheduler::new(0, 100_000);
    let colors = s.frame_colors(3);
    assert_eq!(colors.len(), 3);
    assert_eq!(colors[0], wheel(0));
    assert_eq!(colors[1], wheel(1));
    assert_eq!(colors[2], wheel(2));
}

#[test]
fn advance_shifts_the_animation() {
    let mut s = Scheduler::new(0, 100_000);
    s.advance();
    s.advance();
    let colors = s.frame_colors(2);
    assert_eq!(colors[0], wheel(2));
    assert_eq!(colors[1], wheel(3));
}

#[test]
fn hue_wraps_as_a_byte() {
    let mut s = Scheduler::new(0, 7);
    s.hue = 255;
    let colors = s.frame_colors(3);
    assert_eq!(colors[0], wheel(255));
    assert_eq!(colors[1], wheel(0));
    assert_eq!(colors[2], wheel(1));
    s.advance();
    assert_eq!(s.hue, 0);
}

#[test]
fn wheel_transitions_red_green_blue() {
    assert_eq!(wheel(0), Pixel::new(255, 0, 0));
    assert_eq!(wheel(255), Pixel::new(255, 0, 0));
    assert_eq!(wheel(170), Pixel::new(0, 0, 255));
    // inside the first source branch: pos = 255 - 200 = 55
    assert_eq!(wheel(200), Pixel::new(255 - 55 * 3, 0, 55 * 3));
    // inside the middle branch: pos = 255 - 100 = 155, q = 70
    assert_eq!(wheel(100), Pixel::new(0, 70 * 3, 255 - 70 * 3));
    // inside the last branch: pos = 255 - 50 = 205, q = 35
    assert_eq!(wheel(50), Pixel::new(35 * 3, 255 - 35 * 3, 0));
}
