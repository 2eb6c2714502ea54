use portalview::player::Angle;
use portalview::trig::{cos_units, dir_cos, dir_sin, sin_units, TRIG_ONE};

#[test]
fn masking_folds_into_range() {
    assert_eq!(Angle { units: 2050 }.masked(), 2);
    assert_eq!(Angle { units: 2048 }.masked(), 0);
    assert_eq!(Angle { units: -1 }.masked(), 2047);
    assert_eq!(Angle { units: 300 }.masked(), 300);
}

#[test]
fn cardinal_directions_are_exact() {
    // angle unit 0 is the view angle -pi/2: sine -1, cosine 0 in Q14
    assert_eq!(dir_sin(&Angle { units: 0 }), -TRIG_ONE);
    assert_eq!(dir_cos(&Angle { units: 0 }), 0);
    // unit 512 is 0 radians: sine 0, cosine 1
    assert_eq!(dir_sin(&Angle { units: 512 }), 0);
    assert_eq!(dir_cos(&Angle { units: 512 }), TRIG_ONE);
    // unit 1024 is pi/2: sine 1, cosine 0
    assert_eq!(dir_sin(&Angle { units: 1024 }), TRIG_ONE);
    assert_eq!(dir_cos(&Angle { units: 1024 }), 0);
    // unit 1536 is pi: sine 0, cosine -1
    assert_eq!(dir_sin(&Angle { units: 1536 }), 0);
    assert_eq!(dir_cos(&Angle { units: 1536 }), -TRIG_ONE);
}

#[test]
fn out_of_range_angle_behaves_as_masked() {
    for (wild, tame) in [(2050i16, 2i16), (-1, 2047), (4096, 0), (-2048, 0)] {
        assert_eq!(
            dir_sin(&Angle { units: wild }),
            dir_sin(&Angle { units: tame })
        );
        assert_eq!(
            dir_cos(&Angle { units: wild }),
            dir_cos(&Angle { units: tame })
        );
    }
}

#[test]
fn sine_table_shape() {
    // bounded by one Q14 unit everywhere
    for m in 0..2048u16 {
        let s = sin_units(m);
        assert!(-TRIG_ONE <= s && s <= TRIG_ONE);
        // odd half-wave symmetry
        if m < 1024 {
            assert_eq!(sin_units(m + 1024), -s);
        }
        // cosine is the shifted sine
        assert_eq!(cos_units(m), sin_units((m + 512) % 2048));
    }
    // rises through the first quarter wave
    assert!(sin_units(256) > 11000 && sin_units(256) < 12000);
}

#[test]
fn approximation_close_to_real_sine() {
    for m in 0..2048u16 {
        let exact = (m as f64 / 2048.0 * 2.0 * std::f64::consts::PI).sin() * 16384.0;
        let got = sin_units(m) as f64;
        assert!(
            (got - exact).abs() < 40.0,
            "m={} got={} exact={}",
            m,
            got,
            exact
        );
    }
}
