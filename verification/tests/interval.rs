use portalview::{Coverage, Interval};

#[test]
fn intersect_nonempty() {
    assert_eq!(
        Interval::new(0, 1),
        Interval::new(0, 1).intersect(&Interval::new(0, 1))
    );
    assert_eq!(
        Interval::new(0, 1),
        Interval::new(0, 1).intersect(&Interval::new(-2, 2))
    );
    assert_eq!(
        Interval::new(1, 2),
        Interval::new(1, 2).intersect(&Interval::new(0, 4))
    );
    assert_eq!(
        Interval::new(1, 2),
        Interval::new(0, 4).intersect(&Interval::new(1, 2))
    );
    assert_eq!(
        Interval::new(1, 2),
        Interval::new(0, 2).intersect(&Interval::new(1, 2))
    );
}

#[test]
fn intersect_empty() {
    assert!(Interval::new(0, 1)
        .intersect(&Interval::new(1, 2))
        .is_empty());
    assert!(Interval::new(1, 2)
        .intersect(&Interval::new(0, 1))
        .is_empty());
    assert!(Interval::new(2, 3)
        .intersect(&Interval::new(0, 1))
        .is_empty());
    assert!(Interval::new(0, 1)
        .intersect(&Interval::new(2, 3))
        .is_empty());
    assert!(Interval::empty().intersect(&Interval::new(0, 4)).is_empty());
    assert!(Interval::new(0, 4).intersect(&Interval::empty()).is_empty());
}

#[test]
fn coverage() {
    let mut cov = Coverage::new(32, 32);
    for i in 0..32 {
        assert!(!cov.is_full());
        cov.intersect(i, &Interval::empty());
        cov.intersect(i, &Interval::empty());
    }
    assert!(cov.is_full());
}

#[test]
fn interval_accessors() {
    let iv = Interval::new(3, 9);
    assert_eq!(iv.left(), 3);
    assert_eq!(iv.right(), 9);
    assert!(iv.contains(3));
    assert!(iv.contains(8));
    assert!(!iv.contains(9));
    assert!(!iv.contains(2));
    assert!(!Interval::empty().contains(0));
}

#[test]
fn intersect_commutes_on_values() {
    let a = Interval::new(-5, 10);
    let b = Interval::new(2, 20);
    assert_eq!(a.intersect(&b), b.intersect(&a));
    let c = Interval::new(30, 40);
    assert_eq!(a.intersect(&c), c.intersect(&a));
    assert_eq!(a.intersect(&a), a);
}

#[test]
fn coverage_monotone_and_column() {
    let mut cov = Coverage::new(4, 100);
    assert_eq!(cov.column(2).left(), 0);
    assert_eq!(cov.column(2).right(), 100);
    cov.intersect(2, &Interval::new(10, 50));
    assert_eq!(*cov.column(2), Interval::new(10, 50));
    cov.intersect(2, &Interval::new(0, 30));
    assert_eq!(*cov.column(2), Interval::new(10, 30));
    assert_eq!(*cov.column(0), Interval::new(0, 100));
    cov.clear();
    assert_eq!(*cov.column(2), Interval::new(0, 100));
    assert!(!cov.is_full());
}
