use register_machine::{interpret_arg, report_error_if_none, signed, Error, State};

fn bad(arg: &str) -> Result<(usize, u64), Error> {
    Err(Error::BadArgument { arg: arg.to_string() })
}

#[test]
fn an_argument_names_a_register_and_a_value() {
    assert_eq!(interpret_arg("r3=5".to_string()), Ok((3, 5)));
    assert_eq!(interpret_arg("r0=0".to_string()), Ok((0, 0)));
    assert_eq!(interpret_arg("r7=18446744073709551615".to_string()), Ok((7, u64::MAX)));
    assert_eq!(interpret_arg("R3=7".to_string()), Ok((3, 7)));
    assert_eq!(interpret_arg("r+3=+5".to_string()), Ok((3, 5)));
    assert_eq!(interpret_arg("r003=0042".to_string()), Ok((3, 42)));
}

#[test]
fn a_negative_value_is_taken_by_its_bits() {
    assert_eq!(interpret_arg("r3=-1".to_string()), Ok((3, u64::MAX)));
    assert_eq!(interpret_arg("r3=-2".to_string()), Ok((3, u64::MAX - 1)));
    assert_eq!(interpret_arg("r3=-0".to_string()), Ok((3, 0)));
    assert_eq!(
        interpret_arg("r3=-9223372036854775808".to_string()),
        Ok((3, 0x8000_0000_0000_0000))
    );
    assert_eq!(
        interpret_arg("r3=-9223372036854775807".to_string()),
        Ok((3, 0x8000_0000_0000_0001))
    );
}

#[test]
fn overrides_fill_the_register_before_the_run() {
    let mut state = State::new();
    let (reg, value) = interpret_arg("r3=5".to_string()).unwrap();
    state.set(reg, value);
    assert_eq!(state.get(3), 5);
    assert_eq!(state.registers(), [0, 0, 0, 5, 0, 0, 0, 0]);
    let (reg, value) = interpret_arg("r3=-1".to_string()).unwrap();
    state.set(reg, value);
    assert_eq!(state.get(3), 0xffff_ffff_ffff_ffff);
    assert!(!state.zero());
}

#[test]
fn a_value_out_of_range_is_a_bad_argument() {
    assert_eq!(interpret_arg("r3=18446744073709551616".to_string()), bad("r3=18446744073709551616"));
    assert_eq!(interpret_arg("r3=-9223372036854775809".to_string()), bad("r3=-9223372036854775809"));
    assert_eq!(
        interpret_arg("r3=99999999999999999999999".to_string()),
        bad("r3=99999999999999999999999")
    );
}

#[test]
fn a_malformed_argument_is_a_bad_argument() {
    for arg in [
        "", "r3", "=", "=5", "r3=", "r=5", "x3=5", "3=5", "r3=abc", "r3=5=6", "r3==5", " r3=5",
        "r3 =5", "r3= 5", "r3=5 ", "r3=--1", "r3=+-1", "r3=-", "r3=+", "rr3=5", "r-3=5", "r3=0x10",
        "r3=1_000", "r3.0=1",
    ] {
        assert_eq!(interpret_arg(arg.to_string()), bad(arg), "{}", arg);
    }
}

#[test]
fn a_register_that_does_not_exist_is_named() {
    assert_eq!(interpret_arg("r8=1".to_string()), Err(Error::NoSuchRegister { reg: 8 }));
    assert_eq!(interpret_arg("R100=-1".to_string()), Err(Error::NoSuchRegister { reg: 100 }));
    assert_eq!(interpret_arg("r7=1".to_string()), Ok((7, 1)));
}

#[test]
fn the_value_is_judged_before_the_register() {
    assert_eq!(interpret_arg("r9=abc".to_string()), bad("r9=abc"));
    assert_eq!(interpret_arg("x=abc".to_string()), bad("x=abc"));
}

#[test]
fn signed_reads_the_same_bits() {
    assert_eq!(signed(0), 0);
    assert_eq!(signed(5), 5);
    assert_eq!(signed(u64::MAX), -1);
    assert_eq!(signed(0x7fff_ffff_ffff_ffff), i64::MAX);
    assert_eq!(signed(0x8000_0000_0000_0000), i64::MIN);
}

#[test]
fn report_error_if_none_keeps_a_value_and_fails_without_one() {
    let error = Error::GarbageOperands { line: 2 };
    assert_eq!(report_error_if_none(Some(7u64), error.clone()), Ok(7));
    assert_eq!(report_error_if_none(None::<u64>, error.clone()), Err(error));
}
