use minz_core::drive::{edges_for};

#[test]
fn phys_zc_edge_polarity_by_sector_parity() {
    assert_eq!(edges_for(3, 0), (true, false));
    assert_eq!(edges_for(3, 1), (false, true));
    assert_eq!(edges_for(3, 4), (true, false));
    for sec in 0u8..6 {
        let (r, f) = edges_for(3, sec);
        assert_eq!(edges_for(4, sec), (f, r));
    }
    assert_eq!(edges_for(0, 3), (true, true));
    assert_eq!(edges_for(1, 3), (true, false));
    assert_eq!(edges_for(2, 3), (false, true));
    assert_eq!(edges_for(5, 3), (true, true));
}
