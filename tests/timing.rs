use morse_flasher::flasher::{Arrival, Flasher, Step};
use morse_flasher::morse::{encode_message, MorseCode};
use morse_flasher::queue::SymbolQueue;

use MorseCode::{Dash, Dot, EndOfChar, Space};

#[test]
fn dot_lights_for_one_unit_then_one_gap() {
    let mut f = Flasher::new(1000, 200);
    let s = f.step(Arrival::Waiting(Dot));
    assert_eq!(s, Step { high: true, off_at: 1200, next_at: 1400 });
    assert_eq!(f.now, 1400);
}

#[test]
fn dash_lights_for_three_units() {
    let mut f = Flasher::new(0, 200);
    let s = f.step(Arrival::Waiting(Dash));
    assert_eq!(s, Step { high: true, off_at: 600, next_at: 800 });
}

#[test]
fn gap_symbols_never_light() {
    let mut f = Flasher::new(0, 10);
    assert_eq!(f.step(Arrival::Waiting(EndOfChar)), Step { high: false, off_at: 10, next_at: 20 });
    assert_eq!(f.step(Arrival::Waiting(Space)), Step { high: false, off_at: 50, next_at: 60 });
}

#[test]
fn continuous_stream_has_no_drift() {
    let codes = encode_message(b"SOS");
    let mut f = Flasher::new(5, 200);
    for c in &codes {
        f.step(Arrival::Waiting(*c));
    }
    // 9 pulses of (1 + 1) or (3 + 1) units and 3 EndOfChar of 2 units.
    let units = 3 * 2 + 2 + 3 * 4 + 2 + 3 * 2 + 2;
    assert_eq!(f.now, 5 + 200 * units);
}

#[test]
fn idle_arrival_rebases_on_arrival_time() {
    let mut f = Flasher::new(100, 200);
    let s = f.step(Arrival::AfterIdle(Dot, 50_000));
    assert_eq!(s, Step { high: true, off_at: 50_200, next_at: 50_400 });
    let s = f.step(Arrival::Waiting(Dash));
    assert_eq!(s, Step { high: true, off_at: 51_000, next_at: 51_200 });
}

#[test]
fn e_flashes_for_four_units() {
    let mut f = Flasher::new(0, 1);
    let mut highs = 0;
    for c in encode_message(b"E") {
        if f.step(Arrival::Waiting(c)).high {
            highs += 1;
        }
    }
    assert_eq!(f.now, 4);
    assert_eq!(highs, 1);
}

#[test]
fn space_flashes_for_four_units_without_light() {
    let mut f = Flasher::new(0, 1);
    for c in encode_message(b" ") {
        assert!(!f.step(Arrival::Waiting(c)).high);
    }
    assert_eq!(f.now, 4);
}

#[test]
fn can_step_refuses_overflowing_deadlines() {
    let f = Flasher::new(u64::MAX - 4, 1);
    assert!(f.can_step(Arrival::Waiting(Dash)));
    let g = Flasher::new(u64::MAX - 3, 1);
    assert!(!g.can_step(Arrival::Waiting(Dash)));
    assert!(g.can_step(Arrival::Waiting(Dot)));
    assert!(g.can_step(Arrival::AfterIdle(Dash, 0)));
    assert!(!g.can_step(Arrival::AfterIdle(Space, u64::MAX - 3)));
}

#[test]
fn queue_is_first_in_first_out() {
    let mut q = SymbolQueue::new(100);
    let codes = encode_message(b"Hello world");
    for c in &codes {
        assert!(q.try_enqueue(*c));
    }
    assert_eq!(q.len(), codes.len());
    let mut out = Vec::new();
    while let Some(c) = q.try_dequeue() {
        out.push(c);
    }
    assert_eq!(out, codes);
    assert!(q.is_empty());
}

#[test]
fn full_queue_refuses_until_a_slot_frees() {
    let mut q = SymbolQueue::new(2);
    assert_eq!(q.capacity(), 2);
    assert!(q.try_enqueue(Dot));
    assert!(q.try_enqueue(Dash));
    assert!(q.is_full());
    assert!(!q.try_enqueue(Space));
    assert_eq!(q.len(), 2);
    assert_eq!(q.try_dequeue(), Some(Dot));
    assert!(q.try_enqueue(Space));
    assert_eq!(q.try_dequeue(), Some(Dash));
    assert_eq!(q.try_dequeue(), Some(Space));
    assert_eq!(q.try_dequeue(), None);
}
