use card25::drivers::matrix::Framebuffer;
use card25::drivers::ws2812::Color;
use card25::util::itoa::utoa10;
use card25::util::rand::WhiteNoiseGenerator;
use card25::util::sync::{Event, Signal};
use card25::util::text::font::Letter;
use card25::util::text::{move_left, text_duration, TextScroller, TEXT_BRIGHTNESS};
use card25::util::ws2812::{FilteredWs2812, Tables};

#[test]
fn lfsr_bytes_from_start() {
    let mut g = WhiteNoiseGenerator::new();
    assert_eq!(g.lfsr, 1);
    let bytes: Vec<u8> = (0..4).map(|_| g.rand8()).collect();
    assert_eq!(bytes, vec![182, 219, 104, 163]);
    assert_eq!(g.lfsr, 0xb6db68a3);
}

#[test]
fn lfsr_state_nonzero_law() {
    let mut g = WhiteNoiseGenerator::new();
    for _ in 0..10_000 {
        g.rand8();
        assert_ne!(g.lfsr, 0);
    }
}

#[test]
fn utoa10_writes_digits() {
    let mut buf = [b'x'; 10];
    let n = utoa10(0, &mut buf);
    assert_eq!(&buf[..n], b"0");
    assert_eq!(buf[1], b'x');
    let n = utoa10(4207, &mut buf);
    assert_eq!(&buf[..n], b"4207");
    let n = utoa10(u32::MAX, &mut buf);
    assert_eq!(&buf[..n], b"4294967295");
}

#[test]
fn decimal_value_law() {
    let mut buf = [0u8; 10];
    for v in [0u32, 9, 10, 99, 100, 65535, 1_000_000_007, u32::MAX] {
        let n = utoa10(v, &mut buf);
        let back: u64 = buf[..n].iter().fold(0u64, |acc, d| acc * 10 + (d - b'0') as u64);
        assert_eq!(back, v as u64);
    }
}

#[test]
fn letters_and_downshift() {
    assert_eq!(Letter::get(b'A'), Letter::get(b'A'));
    assert_ne!(Letter::get(b'A'), Letter::get(b'B'));
    assert_eq!(Letter::get(0xfc), Letter::get(0xdc));
    assert_eq!(Letter::get(0x01), Letter::get(0x02));
    assert_eq!(Letter::downshift(0x7f), Some(0));
    assert_eq!(Letter::downshift(0x80), None);
    assert_eq!(Letter::downshift(0x81), Some(2));
}

#[test]
fn move_left_shifts_columns() {
    let mut fb = Framebuffer::new();
    fb.store(3, 4, 9);
    fb.store(0, 0, 5);
    move_left(&mut fb);
    assert_eq!(fb.load(2, 4), 9);
    assert_eq!(fb.load(3, 4), 0);
    assert_eq!(fb.load(0, 0), 0);
}

#[test]
fn scroller_runs_through_text() {
    assert_eq!(text_duration().as_ticks(), 750);
    let mut fb = Framebuffer::new();
    let mut sc = TextScroller::new();
    let mut steps = 0;
    while !sc.advance(b"I", &mut fb) {
        steps += 1;
        assert!(steps < 20);
    }
    assert_eq!(sc.pos, 1);
    let lit = (0..9).any(|y| (0..8).any(|x| fb.load(x, y) == TEXT_BRIGHTNESS));
    assert!(lit);
}

#[test]
fn event_flag() {
    let mut e = Event::new();
    assert!(!e.is_triggered());
    assert!(!e.wait());
    e.trigger();
    assert!(e.is_triggered());
    assert!(e.wait());
    assert!(!e.wait());
}

#[test]
fn signal_mailbox() {
    let mut s: Signal<u8> = Signal::new();
    assert!(!s.signaled());
    s.signal(3);
    s.signal(4);
    assert!(s.signaled());
    assert_eq!(s.try_take(), Some(4));
    assert_eq!(s.try_take(), None);
    s.signal(5);
    s.reset();
    assert_eq!(s.wait(), None);
}

#[test]
fn filter_fades_toward_target() {
    let mut w = FilteredWs2812::new();
    w.target_mut()[0] = Color::new(2, 0, 1);
    assert!(w.try_update());
    assert!(!w.try_update());
    assert_eq!(w.output[0], Color::new(1, 0, 1));
    let frame = w.take_frame();
    assert_eq!(frame.map(|f| f[0]), Some(Color::new(1, 0, 1)));
    assert_eq!(w.take_frame(), None);
    w.update();
    assert_eq!(w.output[0], Color::new(2, 0, 1));
}

#[test]
fn draw_shifts_law() {
    let mut g = WhiteNoiseGenerator::new();
    for _ in 0..100 {
        let s = g.lfsr;
        let r = g.rand8();
        assert_eq!(g.lfsr, (s << 8) | r as u32);
        let mut t = s;
        for k in 0..8 {
            let fb = ((t >> 31) ^ (t >> 21) ^ (t >> 1) ^ t) & 1;
            assert_eq!((g.lfsr >> (7 - k)) & 1, fb);
            t = (t << 1) | fb;
        }
    }
}

#[test]
fn colour_tables() {
    let t = Tables::new();
    assert_eq!((t.hue[0], t.hue[84], t.hue[85], t.hue[169], t.hue[170], t.hue[255]), (0, 252, 255, 3, 0, 0));
    assert_eq!(t.sin[0], 0);
    assert_eq!(t.sin[64], 255);
    assert_eq!(t.sin[32], 180);
    assert_eq!(t.sin[1], t.sin[127]);
}
