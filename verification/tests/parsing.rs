use register_machine::{Error, Instruction, State};

fn parse_one(src: &str) -> Result<Instruction, Error> {
    let mut state = State::new();
    Instruction::parse(&mut state, 0, src)
}

#[test]
fn parses_every_mnemonic() {
    assert_eq!(parse_one("zero r1"), Ok(Instruction::Zero { reg: 1 }));
    assert_eq!(parse_one("debug"), Ok(Instruction::Debug));
    assert_eq!(parse_one("mov r1, r2"), Ok(Instruction::Mov { to: 1, from: 2 }));
    assert_eq!(parse_one("add r0, r1, r2"), Ok(Instruction::Add { to: 0, op1: 1, op2: 2 }));
    assert_eq!(parse_one("sub r3, r4, r5"), Ok(Instruction::Sub { to: 3, op1: 4, op2: 5 }));
    assert_eq!(parse_one("inc r7"), Ok(Instruction::Inc { reg: 7 }));
    assert_eq!(parse_one("dec r6"), Ok(Instruction::Dec { reg: 6 }));
    assert_eq!(parse_one("and r0, r1, r2"), Ok(Instruction::And { to: 0, op1: 1, op2: 2 }));
    assert_eq!(parse_one("or r2, r1, r0"), Ok(Instruction::Or { to: 2, op1: 1, op2: 0 }));
    assert_eq!(parse_one("xor r7, r7, r7"), Ok(Instruction::Xor { to: 7, op1: 7, op2: 7 }));
    assert_eq!(parse_one("not r5"), Ok(Instruction::Not { reg: 5 }));
    assert_eq!(parse_one("shl r1, 3"), Ok(Instruction::Shl { reg: 1, amount: 3 }));
    assert_eq!(parse_one("shr r2, 70"), Ok(Instruction::Shr { reg: 2, amount: 70 }));
    assert_eq!(parse_one("jz loop"), Ok(Instruction::Jz { label: "loop".to_string() }));
    assert_eq!(parse_one("jnz loop"), Ok(Instruction::Jnz { label: "loop".to_string() }));
    assert_eq!(parse_one("j end"), Ok(Instruction::J { label: "end".to_string() }));
}

#[test]
fn mnemonics_and_registers_ignore_case() {
    assert_eq!(parse_one("ADD R0, R1, R2"), Ok(Instruction::Add { to: 0, op1: 1, op2: 2 }));
    assert_eq!(parse_one("Inc R3"), Ok(Instruction::Inc { reg: 3 }));
    assert_eq!(parse_one("J Done"), Ok(Instruction::J { label: "done".to_string() }));
}

#[test]
fn lower_case_follows_unicode() {
    let mut state = State::new();
    assert_eq!(Instruction::parse(&mut state, 4, "ÄB:"), Ok(Instruction::Noop));
    assert_eq!(state.label("äb"), Some(4));
    assert_eq!(state.label("ÄB"), None);
}

#[test]
fn parse_lowered_takes_the_text_as_it_stands() {
    let mut state = State::new();
    assert_eq!(
        Instruction::parse_lowered(&mut state, 0, "inc r1"),
        Ok(Instruction::Inc { reg: 1 })
    );
    assert_eq!(
        Instruction::parse_lowered(&mut state, 0, "INC r1"),
        Err(Error::GarbageInstruction { text: "INC".to_string() })
    );
    assert_eq!(
        Instruction::parse_lowered(&mut state, 2, "inc R1"),
        Err(Error::GarbageOperands { line: 3 })
    );
}

#[test]
fn blank_lines_are_noops() {
    assert_eq!(parse_one(""), Ok(Instruction::Noop));
    assert_eq!(parse_one("   \t  "), Ok(Instruction::Noop));
    assert_eq!(parse_one("\u{a0}\u{2003}"), Ok(Instruction::Noop));
}

#[test]
fn comments_are_stripped() {
    assert_eq!(parse_one("inc r1 // one more"), Ok(Instruction::Inc { reg: 1 }));
    assert_eq!(parse_one("inc r1 ; one more"), Ok(Instruction::Inc { reg: 1 }));
    assert_eq!(parse_one("inc r1 # one more"), Ok(Instruction::Inc { reg: 1 }));
    assert_eq!(parse_one("inc r1//r2"), Ok(Instruction::Inc { reg: 1 }));
    assert_eq!(parse_one("// nothing but a comment"), Ok(Instruction::Noop));
    assert_eq!(parse_one("; nothing but a comment"), Ok(Instruction::Noop));
    assert_eq!(parse_one("# nothing but a comment"), Ok(Instruction::Noop));
    assert_eq!(parse_one("   # inc r1"), Ok(Instruction::Noop));
}

#[test]
fn the_earliest_comment_marker_cuts() {
    assert_eq!(parse_one("inc r1 ; x // y # z"), Ok(Instruction::Inc { reg: 1 }));
    assert_eq!(parse_one("inc r1 # x ; y // z"), Ok(Instruction::Inc { reg: 1 }));
    assert_eq!(parse_one("inc r1 // x # y ; z"), Ok(Instruction::Inc { reg: 1 }));
    assert_eq!(parse_one("inc r1 ; r2 # r3"), Ok(Instruction::Inc { reg: 1 }));
    assert_eq!(parse_one("mov r1, r2 # , r3 // x"), Ok(Instruction::Mov { to: 1, from: 2 }));
}

#[test]
fn a_single_slash_starts_no_comment() {
    let mut state = State::new();
    assert_eq!(Instruction::parse(&mut state, 3, "a/b:"), Ok(Instruction::Noop));
    assert_eq!(state.label("a/b"), Some(3));
    assert_eq!(parse_one("j a/b"), Ok(Instruction::J { label: "a/b".to_string() }));
    assert_eq!(parse_one("j a//b"), Ok(Instruction::J { label: "a".to_string() }));
}

#[test]
fn white_space_between_operands_is_dropped() {
    assert_eq!(parse_one("  add   r0 ,r1,   r2  "), Ok(Instruction::Add { to: 0, op1: 1, op2: 2 }));
    assert_eq!(parse_one("\tadd\tr0,\tr1,\tr2"), Ok(Instruction::Add { to: 0, op1: 1, op2: 2 }));
    assert_eq!(parse_one("inc\u{a0}r1"), Ok(Instruction::Inc { reg: 1 }));
    assert_eq!(parse_one("inc r 1"), Ok(Instruction::Inc { reg: 1 }));
    assert_eq!(parse_one("shl r1, 1 0"), Ok(Instruction::Shl { reg: 1, amount: 10 }));
    assert_eq!(parse_one("jz my label"), Ok(Instruction::Jz { label: "mylabel".to_string() }));
}

#[test]
fn numbers_may_carry_a_plus_sign_and_leading_zeros() {
    assert_eq!(parse_one("zero r+3"), Ok(Instruction::Zero { reg: 3 }));
    assert_eq!(parse_one("zero r007"), Ok(Instruction::Zero { reg: 7 }));
    assert_eq!(parse_one("shl r0, +12"), Ok(Instruction::Shl { reg: 0, amount: 12 }));
    assert_eq!(parse_one("shl r0, 0000000000000000000000012"), Ok(Instruction::Shl {
        reg: 0,
        amount: 12
    }));
}

#[test]
fn immediates_span_all_of_64_bits() {
    assert_eq!(parse_one("shl r0, 0"), Ok(Instruction::Shl { reg: 0, amount: 0 }));
    assert_eq!(parse_one("shr r0, 18446744073709551615"), Ok(Instruction::Shr {
        reg: 0,
        amount: u64::MAX
    }));
    assert_eq!(parse_one("shr r0, 18446744073709551616"), Err(Error::GarbageOperands { line: 1 }));
    assert_eq!(
        parse_one("shr r0, 99999999999999999999999999"),
        Err(Error::GarbageOperands { line: 1 })
    );
}

#[test]
fn malformed_immediates_are_garbage() {
    let mut state = State::new();
    for src in ["shl r1, -1", "shl r1, x", "shl r1, 1x", "shl r1, +", "shl r1, 0x10", "shl r1, ٣"] {
        assert_eq!(
            Instruction::parse(&mut state, 9, src),
            Err(Error::GarbageOperands { line: 10 }),
            "{}",
            src
        );
    }
}

#[test]
fn malformed_registers_are_garbage() {
    let mut state = State::new();
    for src in ["zero x1", "zero r", "zero 1", "zero r-1", "zero rr1", "zero r1x", "zero r+", "zero r1.0"]
    {
        assert_eq!(
            Instruction::parse(&mut state, 0, src),
            Err(Error::GarbageOperands { line: 1 }),
            "{}",
            src
        );
    }
}

#[test]
fn a_register_number_too_large_for_the_machine_word_is_garbage() {
    assert_eq!(
        parse_one("zero r340282366920938463463374607431768211456"),
        Err(Error::GarbageOperands { line: 1 })
    );
}

#[test]
fn missing_operands_are_garbage() {
    let mut state = State::new();
    for src in [
        "zero", "mov", "mov r1", "mov r1,", "add", "add r1", "add r1, r2", "add r1, r2,", "sub r1",
        "inc", "dec", "and r1, r2", "or r1", "xor", "not", "shl", "shl r1", "shr r1,", "jz", "jnz",
        "j",
    ] {
        assert_eq!(
            Instruction::parse(&mut state, 41, src),
            Err(Error::GarbageOperands { line: 42 }),
            "{}",
            src
        );
    }
}

#[test]
fn operands_left_over_are_garbage() {
    let mut state = State::new();
    for src in [
        "debug r1", "debug ,", "zero r1, r2", "zero r1,", "mov r1, r2, r3", "add r1, r2, r3, r4",
        "inc r1, r1", "not r1,", "shl r1, 2, 3", "shr r1, 2,", "jz a, b", "jnz a,", "j a, b",
        "j ,",
    ] {
        assert_eq!(
            Instruction::parse(&mut state, 6, src),
            Err(Error::GarbageOperands { line: 7 }),
            "{}",
            src
        );
    }
}

#[test]
fn register_eight_is_rejected_in_every_shape() {
    let mut state = State::new();
    for src in [
        "zero r8", "inc r8", "dec r8", "not r8", "shl r8, 1", "shr r8, 1", "mov r8, r0",
        "mov r0, r8", "add r8, r0, r0", "add r0, r8, r0", "add r0, r0, r8", "sub r8, r0, r0",
        "sub r0, r8, r0", "sub r0, r0, r8", "and r8, r0, r0", "and r0, r8, r0", "and r0, r0, r8",
        "or r8, r0, r0", "or r0, r8, r0", "or r0, r0, r8", "xor r8, r0, r0", "xor r0, r8, r0",
        "xor r0, r0, r8",
    ] {
        assert_eq!(
            Instruction::parse(&mut state, 0, src),
            Err(Error::NoSuchRegister { reg: 8 }),
            "{}",
            src
        );
    }
}

#[test]
fn higher_registers_are_rejected_by_number() {
    assert_eq!(parse_one("zero r9"), Err(Error::NoSuchRegister { reg: 9 }));
    assert_eq!(parse_one("inc r100"), Err(Error::NoSuchRegister { reg: 100 }));
    assert_eq!(parse_one("mov r1, r4294967295"), Err(Error::NoSuchRegister { reg: 4294967295 }));
    assert_eq!(parse_one("zero r7"), Ok(Instruction::Zero { reg: 7 }));
}

#[test]
fn the_first_operand_at_fault_decides_the_failure() {
    assert_eq!(parse_one("add r9, x, r1"), Err(Error::NoSuchRegister { reg: 9 }));
    assert_eq!(parse_one("add x, r9, r1"), Err(Error::GarbageOperands { line: 1 }));
    assert_eq!(parse_one("zero r9, r1"), Err(Error::NoSuchRegister { reg: 9 }));
    assert_eq!(parse_one("shl r1, x, r9"), Err(Error::GarbageOperands { line: 1 }));
}

#[test]
fn a_label_declaration_is_a_noop_and_fills_the_table() {
    let mut state = State::new();
    assert_eq!(Instruction::parse(&mut state, 5, "loop:"), Ok(Instruction::Noop));
    assert_eq!(state.label("loop"), Some(5));
    assert_eq!(Instruction::parse(&mut state, 6, "  End:  // the end"), Ok(Instruction::Noop));
    assert_eq!(state.label("end"), Some(6));
    assert_eq!(state.label("End"), None);
    assert_eq!(state.label("nowhere"), None);
}

#[test]
fn a_label_is_the_first_word_up_to_its_first_colon() {
    let mut state = State::new();
    assert_eq!(Instruction::parse(&mut state, 1, "foo:bar"), Ok(Instruction::Noop));
    assert_eq!(state.label("foo"), Some(1));
    assert_eq!(Instruction::parse(&mut state, 2, "a:b:c"), Ok(Instruction::Noop));
    assert_eq!(state.label("a"), Some(2));
    assert_eq!(Instruction::parse(&mut state, 3, ":"), Ok(Instruction::Noop));
    assert_eq!(state.label(""), Some(3));
    assert_eq!(Instruction::parse(&mut state, 4, "here: inc r1"), Ok(Instruction::Noop));
    assert_eq!(state.label("here"), Some(4));
    assert_eq!(Instruction::parse(&mut state, 7, "zero:"), Ok(Instruction::Noop));
    assert_eq!(state.label("zero"), Some(7));
}

#[test]
fn a_later_declaration_of_a_label_wins() {
    let mut state = State::new();
    assert_eq!(Instruction::parse(&mut state, 1, "again:"), Ok(Instruction::Noop));
    assert_eq!(Instruction::parse(&mut state, 8, "again:"), Ok(Instruction::Noop));
    assert_eq!(state.label("again"), Some(8));
    assert_eq!(Instruction::parse(&mut state, 3, "again:"), Ok(Instruction::Noop));
    assert_eq!(state.label("again"), Some(3));
}

#[test]
fn a_word_that_is_neither_mnemonic_nor_label_is_garbage() {
    assert_eq!(parse_one("bogus"), Err(Error::GarbageInstruction { text: "bogus".to_string() }));
    assert_eq!(
        parse_one("Halt r1, r2"),
        Err(Error::GarbageInstruction { text: "halt".to_string() })
    );
    assert_eq!(
        parse_one("my label:"),
        Err(Error::GarbageInstruction { text: "my".to_string() })
    );
    assert_eq!(parse_one("addr0"), Err(Error::GarbageInstruction { text: "addr0".to_string() }));
    assert_eq!(parse_one("/"), Err(Error::GarbageInstruction { text: "/".to_string() }));
}

#[test]
fn a_line_that_fails_declares_nothing() {
    let mut state = State::new();
    assert!(Instruction::parse(&mut state, 0, "bogus").is_err());
    assert!(Instruction::parse(&mut state, 1, "zero r8").is_err());
    assert_eq!(state.label("bogus"), None);
    assert!(state.labels_fit(0));
}

#[test]
fn a_jump_parses_without_its_label() {
    let mut state = State::new();
    assert_eq!(
        Instruction::parse(&mut state, 0, "j nowhere"),
        Ok(Instruction::J { label: "nowhere".to_string() })
    );
    assert_eq!(state.label("nowhere"), None);
}

#[test]
fn parsed_instructions_are_valid() {
    for src in ["zero r7", "mov r0, r7", "add r7, r7, r7", "shl r7, 99", "j x", "debug", ""] {
        assert!(parse_one(src).unwrap().is_valid(), "{}", src);
    }
    assert!(!Instruction::Zero { reg: 8 }.is_valid());
    assert!(!Instruction::Mov { to: 0, from: 8 }.is_valid());
    assert!(!Instruction::Xor { to: 0, op1: 1, op2: 9 }.is_valid());
    assert!(!Instruction::Shr { reg: 8, amount: 0 }.is_valid());
}
