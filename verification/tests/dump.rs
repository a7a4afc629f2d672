use minz_core::dump::{
    EdgeDumpStatus, edge_dump_body, edge_dump_status, edge_glyph, pwm_rev_span, pwm_sector_dump,
    wax_cdump,
};
use minz_core::a85::encode_group;

fn text(out: Vec<u8>) -> String {
    String::from_utf8(out).unwrap()
}

#[test]
fn wax_cdump_framing() {
    let mut out = Vec::new();
    wax_cdump(9, |k| [k as u16, 0, 0, 0], &mut out);
    let out = text(out);
    let lines: Vec<&str> = out.split("\r\n").collect();
    assert_eq!(lines[0].len(), 80);
    assert_eq!(lines[1].len(), 10);
    assert_eq!(lines[2], "end");
    assert_eq!(&lines[0][..10], "!!!!!!!!!!");
}

#[test]
fn wax_cdump_word_packing_is_le() {
    let mut out = Vec::new();
    wax_cdump(1, |_| [0x0102, 0x0304, 0x0506, 0x0708], &mut out);
    let out = text(out);
    let g1 = encode_group([0x02, 0x01, 0x04, 0x03]);
    let g2 = encode_group([0x06, 0x05, 0x08, 0x07]);
    let mut expect = String::new();
    expect.push_str(core::str::from_utf8(&g1).unwrap());
    expect.push_str(core::str::from_utf8(&g2).unwrap());
    expect.push_str("\r\nend\r\n");
    assert_eq!(out, expect);
}

fn sector_ring(len: usize, n: usize, first: u8, comp_bit: u8) -> Vec<u8> {
    (0..len)
        .map(|i| {
            let sec = ((first as usize + i / n) % 6) as u8;
            (sec << 1) | comp_bit
        })
        .collect()
}

#[test]
fn rev_span_finds_two_complete_revs() {
    let snap = sector_ring(64, 3, 0, 0);
    let (start, length) = pwm_rev_span(&snap, 0).unwrap();
    assert_eq!(length, 36, "two revs at 18 samples each");
    assert_eq!((snap[start] >> 1) & 7, 0, "span starts at sector 0");
}

#[test]
fn rev_span_reports_insufficient_revs() {
    let snap = vec![0u8; 64];
    assert_eq!(pwm_rev_span(&snap, 0), Err(0));
}

#[test]
fn sector_dump_chunks_and_zc_markers() {
    let snap = sector_ring(64, 3, 0, 1);
    let (start, length) = pwm_rev_span(&snap, 0).unwrap();
    let mut out = Vec::new();
    pwm_sector_dump(&snap, start, length, 2, 5, &mut out);
    let out = text(out);
    assert_eq!(out.matches("[rev 0 sec").count(), 6);
    assert_eq!(out.matches("[rev 1 sec").count(), 6);
    for l in out.split("\r\n") {
        if l.starts_with("[rev") && (l.contains("sec 2]") || l.contains("sec 5]")) {
            assert!(l.contains('*'), "no ZC marker in: {l}");
        } else if l.starts_with("[rev") {
            assert!(!l.contains('*') && !l.contains('o'), "marker leaked: {l}");
        }
    }
}

#[test]
fn edge_dump_glyphs_and_counts() {
    let mut snap = vec![0u8; 128];
    snap[2] = 1;
    snap[3] = 4;
    let mut starts = [0u32; 12];
    for (i, s) in starts.iter_mut().enumerate() {
        *s = 100 + 10 * i as u32;
    }
    let mut counts = [0u32; 12];
    counts[0] = 2;
    let mut out = Vec::new();
    edge_dump_body(&snap, &starts, &counts, 220, &mut out);
    let out = text(out);
    let first = out.split("\r\n").next().unwrap();
    assert_eq!(first, "[rev 0 sec 0]: ..o#...... [2]");
    assert_eq!(out.matches("[rev").count(), 12);
}

#[test]
fn edge_dump_status_gates() {
    let mut starts = [1u32; 12];
    assert_eq!(
        edge_dump_status(&starts, 500, 100),
        EdgeDumpStatus::Ready { window_us: 4990 }
    );
    assert_eq!(edge_dump_status(&starts, 500, 0), EdgeDumpStatus::MotorOff);
    assert_eq!(edge_dump_status(&starts, 0, 100), EdgeDumpStatus::Invalid);
    starts[7] = 0;
    assert_eq!(edge_dump_status(&starts, 500, 100), EdgeDumpStatus::Invalid);
    let starts = [u32::MAX - 9; 12];
    assert_eq!(
        edge_dump_status(&starts, 40, 100),
        EdgeDumpStatus::Ready { window_us: 500 }
    );
}

#[test]
fn edge_glyph_scale() {
    assert_eq!(
        [0u8, 1, 2, 3, 4, 200].map(edge_glyph),
        [b'.', b'o', b'O', b'*', b'#', b'#']
    );
}
