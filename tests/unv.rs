use dtlc::ast::Unv;
use dtlc::err::SystemErr;

#[test]
fn unv_test_inc() {
    let o1 = Unv::new();
    assert_eq!(o1.level, 0);
    assert!(o1.inc().is_ok());
    assert_eq!(o1.inc().unwrap().level, 1);
}

#[test]
fn unv_test_inc_overflow() {
    let o1 = Unv {
        level: u64::MAX - 1,
    };
    assert!(o1.inc().is_ok());
    assert_eq!(o1.inc().unwrap().level, u64::MAX);

    let o2 = o1.inc().unwrap();
    assert!(o2.inc().is_err()); // overflow expected
}

#[test]
fn test_max() {
    let o1 = Unv::new();
    let o2 = Unv::new().inc().unwrap();
    let o3 = Unv::new().inc().unwrap().inc().unwrap();
    assert_eq!(Unv::max(o1, o2), o2);
    assert_eq!(Unv::max(o2, o1), o2);
    assert_eq!(Unv::max(o2, o3), o3);
    assert_eq!(Unv::max(o3, o2), o3);
}

#[test]
fn test_display() -> Result<(), SystemErr> {
    let o1 = Unv::new();
    let o2 = o1.inc()?;
    let o3 = o2.inc()?;
    let o4 = Unv { level: 3944 };
    assert_eq!(o1.to_string(), "□");
    assert_eq!(o2.to_string(), "□");
    assert_eq!(o3.to_string(), "□");
    assert_eq!(o4.to_string(), "□");
    Ok(())
}

#[test]
fn unv_overflow_reports_level() {
    let top = Unv { level: u64::MAX };
    assert_eq!(top.inc(), Err(SystemErr::MaxLimitUnv(u64::MAX)));
}

#[test]
fn unv_max_of_equal_levels() {
    let a = Unv { level: 7 };
    let b = Unv { level: 7 };
    assert_eq!(Unv::max(a, b).level, 7);
    assert_eq!(Unv::default().level, 0);
}
