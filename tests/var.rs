use dtlc::ast::{Idx, Sym, Var};
use dtlc::err::SystemErr;

#[test]
fn var_test_inc() {
    let o1 = Idx::new(&Sym::new("foo"));
    assert!(o1.inc().is_ok());
    assert_eq!(o1.inc().unwrap().val, 1);
}

#[test]
fn var_test_inc_overflow() {
    let o1 = Idx {
        val: u64::MAX - 1,
        sym: Sym::new("foo"),
    };
    assert!(o1.inc().is_ok());
    assert_eq!(o1.inc().unwrap().val, u64::MAX);

    let o2 = o1.inc().unwrap();
    assert!(o2.inc().is_err()); // overflow expected
}

#[test]
fn test_display_sym() {
    let o1 = Sym::new("tangerine");
    assert_eq!(o1.to_string(), "tangerine");
}

#[test]
fn test_display_idx() -> Result<(), SystemErr> {
    let o1 = Idx::new(&Sym::new("foo"));
    let o2 = o1.inc()?;
    let o3 = Idx {
        val: 3944,
        sym: Sym::new("foo"),
    };
    assert_eq!(o1.to_string(), "0");
    assert_eq!(o2.to_string(), "1");
    assert_eq!(o3.to_string(), "3944");
    Ok(())
}

#[test]
fn idx_overflow_reports_value() {
    let top = Idx {
        val: u64::MAX,
        sym: Sym::new("foo"),
    };
    assert_eq!(top.inc(), Err(SystemErr::MaxLimitIdx(u64::MAX)));
    assert_eq!(top.to_string(), "18446744073709551615");
}

#[test]
fn idx_dec_keeps_symbol() {
    let o1 = Idx::new(&Sym::new("foo")).inc().unwrap();
    assert_eq!(o1.dec(), Idx::new(&Sym::new("foo")));
}

#[test]
fn var_display() {
    let s = Var::from(Sym::new("moo"));
    let i = Var::from(Idx {
        val: 42,
        sym: Sym::new("moo"),
    });
    assert_eq!(s.to_string(), "moo");
    assert_eq!(i.to_string(), "42");
}

#[test]
fn var_from_symbol_and_index() {
    assert_eq!(Var::from(Sym::new("a")), Var::Sym(Sym::new("a")));
    let v: Var = Idx::new(&Sym::new("a")).into();
    assert_eq!(v, Var::Idx(Idx { val: 0, sym: Sym::new("a") }));
}
