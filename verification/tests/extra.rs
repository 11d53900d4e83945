use noshare_cover::extra::{
    clear_client, debug_summary, for_monitor, legacy_add, legacy_clear, register, reset, set_rects,
    unregister, CRect, Clients, CoverRect, Fill, API_VERSION, LEGACY_CLIENT, MAX_RECTS_PER_CLIENT,
};
use noshare_cover::ffi::nsc_extra_rects;

fn b(v: f64) -> u64 {
    v.to_bits()
}

fn r(x: f64) -> CoverRect {
    CoverRect {
        x: b(x),
        y: b(0.0),
        w: b(10.0),
        h: b(10.0),
        rounding: b(0.0),
        window: 0,
        fill: Fill::Black,
    }
}

fn add(c: &mut Clients, monitor: i64, x: f64, y: f64, w: f64, h: f64, rounding: f64) {
    legacy_add(c, monitor, b(x), b(y), b(w), b(h), b(rounding));
}

#[test]
fn api_scenarios() {
    let mut c = Clients::new();
    reset(&mut c);

    // the first version
    add(&mut c, 1, 10.0, 10.0, 100.0, 50.0, -3.0);
    add(&mut c, 1, 0.0, 0.0, 0.0, 50.0, 0.0); // empty: dropped
    add(&mut c, 1, f64::NAN, 0.0, 10.0, 10.0, 0.0); // garbage: dropped
    let m1 = for_monitor(&c, 1);
    assert_eq!(m1.len(), 1);
    assert_eq!(f64::from_bits(m1[0].rounding), 0.0);

    // the second version: a client has its own set, nobody else clears it
    let a = register(&mut c, "gloview");
    let other = register(&mut c, "other");
    assert!(set_rects(&mut c, a, 1, &[r(1.0), r(2.0)]));
    assert!(set_rects(&mut c, other, 1, &[r(3.0)]));
    assert_eq!(for_monitor(&c, 1).len(), 4);
    legacy_clear(&mut c); // clears the first version only
    assert_eq!(for_monitor(&c, 1).len(), 3);

    // set_rects replaces the set on a monitor at once, other monitors stay
    assert!(set_rects(&mut c, a, 2, &[r(9.0)]));
    assert!(set_rects(&mut c, a, 1, &[r(5.0)]));
    let xs: Vec<f64> = for_monitor(&c, 1).iter().map(|c| f64::from_bits(c.x)).collect();
    assert!(
        xs.contains(&5.0) && !xs.contains(&1.0) && xs.contains(&3.0),
        "{xs:?}"
    );
    assert_eq!(for_monitor(&c, 2).len(), 1);

    // a fill with the cover of a window passes through
    let cover = CRect {
        x: b(0.0),
        y: b(0.0),
        w: b(5.0),
        h: b(5.0),
        rounding: b(2.0),
        window: 0xdead,
        fill: 1,
    };
    assert!(set_rects(&mut c, a, 3, &[CoverRect::from(&cover)]));
    let got = for_monitor(&c, 3);
    assert_eq!((got[0].fill, got[0].window), (Fill::WindowCover, 0xdead));
    // an unknown fill is black
    let odd = CRect { fill: 77, ..cover };
    assert!(set_rects(&mut c, a, 3, &[CoverRect::from(&odd)]));
    assert_eq!(for_monitor(&c, 3)[0].fill, Fill::Black);

    // a client that left holds nothing and cannot write
    unregister(&mut c, a);
    assert!(!set_rects(&mut c, a, 1, &[r(1.0)]));
    assert_eq!(for_monitor(&c, 1).len(), 1); // only the other one is left
    assert!(clear_client(&mut c, other));
    assert!(for_monitor(&c, 1).is_empty());

    // the limit of a client
    let spammer = register(&mut c, "spammer");
    let many = vec![r(1.0); MAX_RECTS_PER_CLIENT + 100];
    assert!(set_rects(&mut c, spammer, 1, &many));
    assert_eq!(for_monitor(&c, 1).len(), MAX_RECTS_PER_CLIENT);

    assert_eq!(API_VERSION, 2);
    reset(&mut c);
    assert!(for_monitor(&c, 1).is_empty());
}

#[test]
fn names_are_cut_and_numbers_are_new() {
    let mut c = Clients::new();
    let a = register(&mut c, &"ж".repeat(100));
    let d = register(&mut c, "b");
    assert_eq!((a, d), (LEGACY_CLIENT + 1, LEGACY_CLIENT + 2));
    set_rects(&mut c, d, 4, &[r(1.0), r(2.0)]);
    assert_eq!(debug_summary(&c), vec![("ж".repeat(64), 0), ("b".to_string(), 2)]);
    unregister(&mut c, a);
    assert_eq!(register(&mut c, "c"), LEGACY_CLIENT + 3);
    assert!(!clear_client(&mut c, a));
}

#[test]
fn insane_rectangles_are_left_out() {
    let mut c = Clients::new();
    let a = register(&mut c, "a");
    let bad = [
        CoverRect { w: b(-1.0), ..r(1.0) },
        CoverRect { h: b(0.0), ..r(1.0) },
        CoverRect { y: b(f64::INFINITY), ..r(1.0) },
        CoverRect { rounding: b(f64::NAN), ..r(7.0) },
        CoverRect { rounding: b(4.5), ..r(8.0) },
    ];
    assert!(set_rects(&mut c, a, 1, &bad));
    let got = for_monitor(&c, 1);
    assert_eq!(got.len(), 2);
    assert_eq!((got[0].x, got[0].rounding), (b(7.0), b(0.0)));
    assert_eq!((got[1].x, got[1].rounding), (b(8.0), b(4.5)));
    assert_eq!(got[1].sane(), Some(got[1]), "what is sane stays");
    assert!(set_rects(&mut c, a, 1, &[]));
    assert!(for_monitor(&c, 1).is_empty(), "an empty list clears");
}

#[test]
fn legacy_rectangles_have_a_limit_too() {
    let mut c = Clients::new();
    for _ in 0..MAX_RECTS_PER_CLIENT + 5 {
        add(&mut c, 1, 0.0, 0.0, 1.0, 1.0, 0.0);
    }
    assert_eq!(for_monitor(&c, 1).len(), MAX_RECTS_PER_CLIENT);
    assert_eq!(debug_summary(&c), vec![("legacy".to_string(), MAX_RECTS_PER_CLIENT)]);
}

#[test]
fn rectangles_are_handed_out_as_far_as_they_fit() {
    let mut c = Clients::new();
    let a = register(&mut c, "a");
    let cover = CoverRect { window: 5, fill: Fill::WindowCover, ..r(2.0) };
    set_rects(&mut c, a, 1, &[r(1.0), cover, r(3.0)]);
    let (out, total) = nsc_extra_rects(&c, 1, 2);
    assert_eq!((out.len(), total), (2, 3));
    assert_eq!((out[0].x, out[0].fill), (b(1.0), 0));
    assert_eq!((out[1].x, out[1].fill, out[1].window), (b(2.0), 1, 5));
    assert_eq!(nsc_extra_rects(&c, 1, 0), (vec![], 3));
    assert_eq!(nsc_extra_rects(&c, 9, 5), (vec![], 0));
}

#[test]
fn the_client_of_the_first_version_has_a_name() {
    let mut c = Clients::new();
    let id = register(&mut c, "overview");
    add(&mut c, 1, 0.0, 0.0, 5.0, 5.0, 0.0);
    assert_eq!(
        debug_summary(&c),
        vec![("overview".to_string(), 0), ("legacy".to_string(), 1)]
    );
    legacy_clear(&mut c);
    assert_eq!(
        debug_summary(&c),
        vec![("overview".to_string(), 0), ("legacy".to_string(), 0)]
    );
    assert!(set_rects(&mut c, id, 1, &[r(3.0)]));
    assert_eq!(f64::from_bits(for_monitor(&c, 1)[0].x), 3.0);
}

#[test]
fn numbers_grow_through_a_history() {
    let mut c = Clients::new();
    let mut last = LEGACY_CLIENT;
    for i in 0..20 {
        let before = for_monitor(&c, 1);
        let id = register(&mut c, "client");
        assert!(id > last);
        assert_eq!(for_monitor(&c, 1), before);
        assert!(set_rects(&mut c, id, 1, &[r(f64::from(i))]));
        match i % 4 {
            0 => unregister(&mut c, id),
            1 => assert!(clear_client(&mut c, id)),
            2 => legacy_clear(&mut c),
            _ => add(&mut c, 1, 0.0, 0.0, 5.0, 5.0, 0.0),
        }
        last = id;
    }
}
