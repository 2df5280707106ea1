use colnora::instruction::{render_instructions, Instruction, LineError};
use colnora::reg::Reg;
use colnora::value::Value;

#[test]
fn lines_without_instructions() {
    assert!(matches!(Instruction::try_from(""), Err(LineError::EmptyLine)));
    assert!(matches!(Instruction::try_from("   \t "), Err(LineError::EmptyLine)));
    assert!(matches!(Instruction::try_from(".text"), Err(LineError::SectionHeader)));
    assert!(matches!(Instruction::try_from("  ; a comment"), Err(LineError::Comment)));
}

#[test]
fn labels_keep_the_trimmed_line() {
    match Instruction::try_from("  @start  ") {
        Ok(Instruction::Label { name }) => assert_eq!(name, "@start"),
        other => panic!("unexpected {:?}", other),
    }
    match Instruction::try_from("@loop ; again") {
        Ok(Instruction::Label { name }) => assert_eq!(name, "@loop ; again"),
        other => panic!("unexpected {:?}", other),
    }
}

#[test]
fn three_operand_instructions() {
    match Instruction::try_from("add %a %b 1") {
        Ok(Instruction::Add { dest: Reg::A, a: Value::Reg(Reg::B), b: Value::Lit(1) }) => {},
        other => panic!("unexpected {:?}", other),
    }
    match Instruction::try_from("  nxor %j [%sp] -2 ; note") {
        Ok(Instruction::NXor { dest: Reg::J, a: Value::Deref(_), b: Value::Lit(-2) }) => {},
        other => panic!("unexpected {:?}", other),
    }
    assert!(matches!(Instruction::try_from("div %c 10 %d"), Ok(Instruction::Div { .. })));
}

#[test]
fn two_one_and_zero_operand_instructions() {
    assert!(matches!(
        Instruction::try_from("mov %a 5"),
        Ok(Instruction::Mov { dest: Reg::A, a: Value::Lit(5) })
    ));
    assert!(matches!(Instruction::try_from("ldr %b 1"), Ok(Instruction::Load { dest: Reg::B, .. })));
    assert!(matches!(Instruction::try_from("str %b 0"), Ok(Instruction::Store { .. })));
    assert!(matches!(Instruction::try_from("eq %a 3"), Ok(Instruction::Eq { .. })));
    assert!(matches!(Instruction::try_from("neq %a 3"), Ok(Instruction::NEq { .. })));
    assert!(matches!(Instruction::try_from("push 9"), Ok(Instruction::Push { a: Value::Lit(9) })));
    assert!(matches!(Instruction::try_from("pop %e"), Ok(Instruction::Pop { dest: Reg::E })));
    match Instruction::try_from("brif @done") {
        Ok(Instruction::BrIf { label }) => assert_eq!(label, "@done"),
        other => panic!("unexpected {:?}", other),
    }
    assert!(matches!(Instruction::try_from("end"), Ok(Instruction::End)));
    assert!(matches!(Instruction::try_from("sys"), Ok(Instruction::SysCall)));
    assert!(matches!(Instruction::try_from("retif ; back"), Ok(Instruction::RetIf)));
}

#[test]
fn instruction_text() {
    let i = Instruction::Add { dest: Reg::A, a: Value::Reg(Reg::B), b: Value::Lit(1) };
    assert_eq!(i.to_string(), "add %a %b 1");
    let i = Instruction::Store { a: Value::Data("x".to_string()), offset: Value::Lit(-1) };
    assert_eq!(i.to_string(), "str x -1");
    let i = Instruction::Bl { label: "@f".to_string() };
    assert_eq!(i.to_string(), "bl @f");
    assert_eq!(Instruction::Ret.to_string(), "ret");
    let i = Instruction::Label { name: "@start".to_string() };
    assert_eq!(i.to_string(), "@@start");
    let i = Instruction::Put { a: Value::Deref(Box::new(Value::Reg(Reg::C))) };
    assert_eq!(i.to_string(), "pub [%c]");
}

#[test]
fn instruction_text_reads_back() {
    for line in [
        "add %a %b 1",
        "sub %c [%sp] -4",
        "mul %d 3 3",
        "nand %e %f %g",
        "mov %h msg",
        "neg %i 5",
        "not %j 0",
        "ldr %a -1",
        "str %b 2",
        "push [[x]]",
        "pop %cmp",
        "eq %a 1",
        "neq %b 2",
        "br @loop",
        "brif @loop",
        "bl @f",
        "blif @f",
        "assert",
        "ret",
        "retif",
        "sys",
        "end",
    ] {
        let i = Instruction::try_from(line).unwrap();
        assert_eq!(i.to_string(), line);
    }
}

#[test]
fn render_adds_newlines() {
    let insts = vec![Instruction::End, Instruction::Push { a: Value::Lit(1) }];
    let lines = render_instructions(&insts);
    assert_eq!(lines, vec!["end\n".to_string(), "push 1\n".to_string()]);
}

#[test]
fn put_is_written_as_pub() {
    let i = Instruction::try_from("put %lnk").unwrap();
    assert!(matches!(i, Instruction::Put { a: Value::Reg(Reg::Link) }));
    assert_eq!(i.to_string(), "pub %lnk");
    let text: Vec<char> = "pub %lnk".chars().collect();
    assert!(Instruction::parse_line_chars(&text).is_none());
}
