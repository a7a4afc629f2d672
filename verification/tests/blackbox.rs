use minz_core::blackbox::{BB_LEN, BlackBox, Event, format_dump};

fn ev(n: u16) -> Event {
    Event {
        t: n,
        ty: (n % 10) as u8,
        sector: (n % 6) as u8,
        data: n,
    }
}

#[test]
fn partial_fill_replays_in_order() {
    let mut bb = BlackBox::new();
    for n in 0..10 {
        bb.record(ev(n));
    }
    let ts: Vec<u16> = bb.replay().iter().map(|e| e.t).collect();
    assert_eq!(ts, (0..10).collect::<Vec<_>>());
}

#[test]
fn wraparound_keeps_newest_64_in_order() {
    let mut bb = BlackBox::new();
    for n in 0..100 {
        bb.record(ev(n));
    }
    let ts: Vec<u16> = bb.replay().iter().map(|e| e.t).collect();
    assert_eq!(ts.len(), BB_LEN);
    assert_eq!(ts[0], 100 - BB_LEN as u16);
    assert_eq!(*ts.last().unwrap(), 99);
}

#[test]
fn dump_renders_deltas_and_names() {
    let events = [
        Event {
            t: 100,
            ty: 7,
            sector: 2,
            data: 650,
        },
        Event {
            t: 165,
            ty: 3,
            sector: 3,
            data: 12,
        },
        Event {
            t: 100,
            ty: 0xFF,
            sector: 0,
            data: 0,
        },
        Event {
            t: 5,
            ty: 6,
            sector: 4,
            data: 1,
        },
    ];
    let mut out = Vec::new();
    format_dump(&events, &mut out);
    let s = String::from_utf8(out).unwrap();
    let lines: Vec<&str> = s.split("\r\n").filter(|l| !l.is_empty()).collect();
    assert_eq!(lines.len(), 3);
    assert!(lines[0].contains("ENG s2 d=650"));
    assert!(lines[0].contains("+     0us"));
    assert!(lines[1].contains("+   650us ACC"));
    assert!(lines[2].contains("+653760us DSY s4 d=1"), "{}", lines[2]);
}

#[test]
fn freeze_preserves_the_leadup() {
    let mut bb = BlackBox::new();
    for n in 0..70 {
        bb.record(ev(n));
    }
    bb.freeze();
    for n in 70..200 {
        bb.record(ev(n));
    }
    assert_eq!(bb.replay().last().unwrap().t, 69);
    bb.thaw();
    bb.record(ev(200));
    assert_eq!(bb.replay().last().unwrap().t, 200);
}
