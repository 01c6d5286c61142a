use card25::drivers::buttons::{Button, Buttons, Event, Group, Sample, FILT_LEN};
use card25::drivers::flash::ScoreFlasher;
use card25::drivers::matrix::{frame_duration, Framebuffer, Matrix, DEBUG_BRIGHTNESS, HEIGHT, ROWS, WIDTH};
use card25::drivers::timer::{AltGroup, GroupSetup, TimeDriver, TimerDriver, CYCLES};
use card25::drivers::usb::{
    endpoint_reply, get_descriptor_info, keyboard_report, make_string, CONFIG_DESCRIPTOR, DEVICE_DESCRIPTOR,
    KBD_DESC_LEN, KEY_LEFT, KEY_RIGHT, STR_PROD,
};
use card25::drivers::ws2812::{spi_frame, Color, BITQUARTETS, LEDS};

#[test]
fn framebuffer_store_and_load() {
    let mut fb = Framebuffer::new();
    assert_eq!(fb.load(7, 8), 0);
    fb.store(7, 8, 42);
    assert_eq!(fb.load(7, 8), 42);
    assert_eq!(fb.try_load(7, 8), Some(42));
    assert_eq!(fb.try_load(8, 0), None);
    assert_eq!(fb.try_load(0, 9), None);
    fb.set_all(3);
    assert_eq!(fb.load(5, 5), 3);
    fb.clear_all();
    assert_eq!(fb.load(5, 5), 0);
    let filled = Framebuffer::new_filled(9);
    assert_eq!(filled.load(0, 0), 9);
    let m = Matrix::new();
    assert_eq!(m.fb().load(1, 1), 0);
    assert_eq!(frame_duration().as_ticks(), 2 * HEIGHT as u32);
    assert_eq!(WIDTH, 8);
}

#[test]
fn framebuffer_debug_rows() {
    let mut fb = Framebuffer::new();
    fb.show_u8(2, 0b1000_0001);
    assert_eq!(fb.load(0, 2), DEBUG_BRIGHTNESS);
    assert_eq!(fb.load(1, 2), 0);
    assert_eq!(fb.load(7, 2), DEBUG_BRIGHTNESS);
    fb.show_u16(4, 0x0102);
    assert_eq!(fb.load(7, 4), DEBUG_BRIGHTNESS);
    assert_eq!(fb.load(6, 5), DEBUG_BRIGHTNESS);
    assert_eq!(fb.load(7, 5), 0);
}

#[test]
fn pwm_values_follow_gamma() {
    let mut fb = Framebuffer::new();
    assert_eq!(fb.get_pwm(0, 0, CYCLES), CYCLES);
    fb.store(4, 1, 20);
    fb.store(2, 1, 21);
    // While row 1 is lit, lines after it show the pixel left of them.
    assert_eq!(fb.get_pwm(5, 1, CYCLES), CYCLES - 15);
    assert_eq!(fb.get_pwm(3, 1, CYCLES), CYCLES - 17);
    assert_eq!(fb.get_pwm(1, 1, CYCLES), CYCLES);
    fb.store(7, 0, 255);
    assert!(fb.get_pwm(8, 0, CYCLES) < CYCLES);
}

#[test]
fn button_channels() {
    assert_eq!(Button::Select.index(), 0);
    assert_eq!(Button::R.index(), 1);
    assert_eq!(Button::L.index(), 2);
    assert_eq!(Button::Start.index(), 3);
    assert_eq!(Button::try_from(2), Ok(Button::L));
    assert_eq!(Button::try_from(4), Err(()));
    let mut g = Group([1u8, 2, 3, 4]);
    assert_eq!(*g.get(Button::Start), 4);
    g._set(Button::R, 9);
    assert_eq!(g.0, [1, 9, 3, 4]);
    g._set(Button::R, 2);
    assert_eq!(g.map(|v| v * 2).0, [2, 4, 6, 8]);
}

fn sample(r_level: u16) -> Sample {
    Sample { start_cnt: 100, btn_cnt: Group([110, 100 + r_level, 110, 110]), ccif: [true, true, true, true] }
}

#[test]
fn debounce_reports_press_after_filter() {
    let mut buttons = Buttons::new();
    let mut fcount = Group([0u8; 4]);
    for _ in 0..FILT_LEN {
        card25::drivers::buttons::process_samples(&mut buttons, sample(200), &mut fcount);
        assert!(!buttons.get(Button::R));
        assert_eq!(buttons.signal, 0);
    }
    card25::drivers::buttons::process_samples(&mut buttons, sample(200), &mut fcount);
    assert!(buttons.get(Button::R));
    assert_eq!(buttons.signal, 128 + 4 + 1);
    assert_eq!(buttons.event(), Some(Event { button: Button::R, pressed: true }));
    assert_eq!(buttons.event(), None);
}

#[test]
fn debounce_ignores_short_glitches() {
    let mut buttons = Buttons::new();
    let mut fcount = Group([0u8; 4]);
    for _ in 0..10 {
        card25::drivers::buttons::process_samples(&mut buttons, sample(200), &mut fcount);
    }
    card25::drivers::buttons::process_samples(&mut buttons, sample(5), &mut fcount);
    assert_eq!(fcount.0[1], 0);
    for _ in 0..10 {
        card25::drivers::buttons::process_samples(&mut buttons, sample(200), &mut fcount);
    }
    assert!(!buttons.get(Button::R));
}

#[test]
fn event_roundtrip_law() {
    for (ch, btn) in [(0usize, Button::Select), (1, Button::R), (2, Button::L), (3, Button::Start)] {
        for pressed in [false, true] {
            let mut b = Buttons::new();
            b.signal = 128 + if pressed { 4 } else { 0 } + ch as u8;
            assert_eq!(b.event(), Some(Event { button: btn, pressed }));
        }
    }
    let mut b = Buttons::new();
    b.signal = 133;
    b.discard_events();
    assert_eq!(b.event(), None);
}

#[test]
fn capture_before_start_wraps_around() {
    let mut buttons = Buttons::new();
    let mut fcount = Group([0u8; 4]);
    // A capture one count before the start is a level of 65535: a long
    // discharge, read as a press.
    let early = Sample { start_cnt: 100, btn_cnt: Group([110, 99, 110, 110]), ccif: [true, true, true, true] };
    card25::drivers::buttons::process_samples(&mut buttons, early, &mut fcount);
    assert_eq!(fcount.0, [0, 1, 0, 0]);
    let wrapped = Sample { start_cnt: 65530, btn_cnt: Group([10, 3, 10, 10]), ccif: [true, true, true, true] };
    card25::drivers::buttons::process_samples(&mut buttons, wrapped, &mut fcount);
    assert_eq!(fcount.0, [0, 0, 0, 0]);
}

#[test]
fn colour_encoding() {
    let c = Color::new(0xff, 0x12, 0x00);
    assert_eq!((c.r(), c.g(), c.b()), (0xff, 0x12, 0x00));
    let mut buf = [0u16; 6];
    c.gen_grb_data(&mut buf);
    assert_eq!(buf, [BITQUARTETS[1], BITQUARTETS[2], BITQUARTETS[15], BITQUARTETS[15], BITQUARTETS[0], BITQUARTETS[0]]);
    assert_eq!(BITQUARTETS[0b1010], 0b1110_1000_1110_1000);
    let colors = [c; LEDS];
    let frame = spi_frame(&colors);
    assert_eq!(frame[0], [0; 6]);
    assert_eq!(frame[2], buf);
    assert_eq!(frame[8], [0; 6]);
}

#[test]
fn colour_fading_converges_law() {
    let target = Color::new(255, 0, 17);
    let mut c = Color::new(0, 255, 17);
    let mut c2 = c;
    c2.set_r(1);
    c2.set_g(2);
    c2.set_b(3);
    assert_eq!(c2, Color::new(1, 2, 3));
    for _ in 0..255 {
        c.transition(&target);
    }
    assert_eq!(c, target);
    c.transition(&target);
    assert_eq!(c, target);
}

#[test]
fn high_scores() {
    let mut f = ScoreFlasher::new([u32::MAX, 50]);
    assert_eq!(f.new_high_score(0, 10), 0);
    assert!(!f.poll());
    let mut page = [0u32; 16];
    page[0] = 10;
    page[1] = 50;
    assert_eq!(f.page_to_write(), Some(page));
    f.mark_written();
    assert!(f.poll());
    assert_eq!(f.new_high_score(1, 20), 50);
    assert!(f.poll());
    assert_eq!(f.page_to_write(), None);
    assert_eq!(f.new_high_score(1, 51), 50);
    assert_eq!(f.scores, [10, 51]);
}

#[test]
fn high_score_monotone_law() {
    for score in [0u32, 5, 50, 1000] {
        let mut f = ScoreFlasher::new([u32::MAX, 50]);
        let before = f.new_high_score(1, 0);
        let mut g = ScoreFlasher::new([u32::MAX, 50]);
        g.new_high_score(1, score);
        let after = g.new_high_score(1, 0);
        assert!(after >= before);
        assert!(after >= score);
        assert_eq!(g.scores[0], u32::MAX);
        f.mark_written();
    }
}

#[test]
fn keyboard_reports() {
    let mut b = Buttons::new();
    assert_eq!(keyboard_report(&b), [0; 8]);
    b.state.0[Button::L.index()] = true;
    assert_eq!(keyboard_report(&b), [0, 0, KEY_LEFT, 0, 0, 0, 0, 0]);
    b.state.0[Button::R.index()] = true;
    assert_eq!(keyboard_report(&b), [0, 0, KEY_RIGHT, KEY_LEFT, 0, 0, 0, 0]);
    assert_eq!(endpoint_reply(1, &b), Some([0, 0, KEY_RIGHT, KEY_LEFT, 0, 0, 0, 0]));
    assert_eq!(endpoint_reply(0, &b), None);
}

#[test]
fn timer_driver_alternates_halves() {
    let mut fb = Framebuffer::new();
    fb.store(4, 1, 20);
    let mut t = TimerDriver::new();
    assert_eq!(t.next_group, AltGroup::PosIn);
    match t.setup_next_group(&fb) {
        GroupSetup::PosIn(v) => assert_eq!(v, [CYCLES - 15, CYCLES, CYCLES]),
        GroupSetup::NegOut(..) => panic!("expected the positive half"),
    }
    assert_eq!(t.row, 1);
    assert_eq!(t.next_group, AltGroup::NegOut);
    match t.setup_next_group(&fb) {
        GroupSetup::NegOut(a, b) => {
            assert_eq!(a, [CYCLES, CYCLES]);
            assert_eq!(b, [CYCLES, CYCLES, CYCLES, CYCLES]);
        },
        GroupSetup::PosIn(_) => panic!("expected the negative half"),
    }
    assert_eq!(t.row, 1);
    for _ in 0..16 {
        t.setup_next_group(&fb);
    }
    assert_eq!(t.row, 0);
    t.record_start_cnt(100);
    let s = t.sample(Group([110, 300, 110, 110]), [true, true, true, true]);
    assert_eq!(s.start_cnt, 100);
    let mut buttons = Buttons::new();
    t.process(&mut buttons, s);
    assert_eq!(t.fcount.0, [0, 1, 0, 0]);
}

#[test]
fn time_driver_counts_and_wraps() {
    let mut d = TimeDriver::new();
    d.advance();
    assert_eq!(d.now().as_ticks(), 1);
    d.now = i32::MAX;
    d.advance();
    assert_eq!(d.now().as_ticks(), i32::MIN);
}

#[test]
fn string_descriptors() {
    assert_eq!(make_string(&[]), vec![2, 3]);
    assert_eq!(make_string(&[0x0409]), vec![4, 3, 0x09, 0x04]);
    assert_eq!(make_string(&STR_PROD), vec![14, 3, b'C', 0, b'a', 0, b'r', 0, b'd', 0, b'2', 0, b'5', 0]);
}

#[test]
fn descriptor_lookup() {
    let report = [0x05u8; KBD_DESC_LEN];
    assert_eq!(get_descriptor_info(0x100, &report), DEVICE_DESCRIPTOR.to_vec());
    assert_eq!(get_descriptor_info(0x200, &report), CONFIG_DESCRIPTOR.to_vec());
    assert_eq!(get_descriptor_info(0x2200, &report), report.to_vec());
    assert_eq!(get_descriptor_info(0x300, &report), vec![4, 3, 0x09, 0x04]);
    assert_eq!(get_descriptor_info(0x0409_0301, &report), make_string(&[0x46, 0x53, 0x2d, 0x45, 0x49]));
    assert_eq!(get_descriptor_info(0x0409_0302, &report), make_string(&STR_PROD));
    assert_eq!(get_descriptor_info(0x0409_0302, &report[..10]), vec![4, 3, b'E', 0]);
    assert_eq!(get_descriptor_info(0x0409_0303, &report), vec![2, 3]);
    assert_eq!(get_descriptor_info(0x0409_0304, &report), Vec::<u8>::new());
    assert_eq!(CONFIG_DESCRIPTOR[25] as usize, KBD_DESC_LEN);
}

#[test]
fn filter_count_is_run_length_law() {
    let mut buttons = Buttons::new();
    let mut fcount = Group([0u8; 4]);
    for k in 1..=FILT_LEN {
        card25::drivers::buttons::process_samples(&mut buttons, sample(200), &mut fcount);
        assert_eq!(fcount.0[1], k);
    }
    card25::drivers::buttons::process_samples(&mut buttons, sample(5), &mut fcount);
    assert_eq!(fcount.0[1], 0);
    card25::drivers::buttons::process_samples(&mut buttons, sample(200), &mut fcount);
    assert_eq!(fcount.0[1], 1);
    assert!(!buttons.get(Button::R));
}

#[test]
fn multiplex_cycle_law() {
    let fb = Framebuffer::new();
    let mut t = TimerDriver::new();
    t.row = 4;
    for k in 0..ROWS {
        assert_eq!(t.row, (4 + k) % ROWS);
        assert_eq!(t.next_group, AltGroup::PosIn);
        t.setup_next_group(&fb);
        t.setup_next_group(&fb);
    }
    assert_eq!(t.row, 4);
    assert_eq!(t.next_group, AltGroup::PosIn);
}
