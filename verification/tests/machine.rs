use colnora::assembler::parse_file;
use colnora::instruction::Instruction;
use colnora::assembler::Data;
use colnora::machine::{data_fits, Machine, Progress};
use colnora::reg::Reg;
use colnora::runnable::{Effect, Loaded, MachineError, Status, Unloaded};

fn load(text: &str) -> Machine<Loaded> {
    let file = parse_file(text);
    Machine::<Unloaded>::new().load_all(file)
}

#[test]
fn new_machine_state() {
    let m = Machine::<Unloaded>::new();
    assert!(m.stack().iter().all(|b| *b == 0));
    assert_eq!(m.register(Reg::A), Some(0));
    assert_eq!(m.register(Reg::J), Some(0));
    assert_eq!(m.register(Reg::Cmp), Some(0));
    assert_eq!(m.register(Reg::StackPtr), Some(0));
    assert_eq!(m.register(Reg::Link), None);
    assert_eq!(m.instruction_counter(), 0);
}

#[test]
fn arithmetic_push_pop_and_print() {
    let mut m = load(".text\n@start\nmov %a 5\nadd %b %a 2\npush %b\npop %c\nput %c\nend\n");
    match m.run() {
        Ok(Some(Effect::Print(7))) => {},
        other => panic!("unexpected {:?}", other),
    }
    assert_eq!(m.instruction_counter(), 6);
    assert!(matches!(m.resume(), Ok(None)));
    assert_eq!(m.register(Reg::C), Some(7));
    assert_eq!(m.register(Reg::StackPtr), Some(0));
    assert_eq!(m.stack()[0], 7);
    assert_eq!(m.instruction_counter(), 6);
}

#[test]
fn loops_calls_and_returns() {
    let text = ".text\n@start\nmov %a 0\n@loop\nadd %a %a 1\neq %a 3\nbrif @done\nbr @loop\n@done\nbl @f\nend\n@f\nmov %b 9\nret\n";
    let mut m = load(text);
    assert!(matches!(m.run(), Ok(None)));
    assert_eq!(m.register(Reg::A), Some(3));
    assert_eq!(m.register(Reg::B), Some(9));
    assert_eq!(m.register(Reg::Cmp), Some(1));
    assert_eq!(m.register(Reg::Link), Some(8));
}

#[test]
fn failed_assertion() {
    let mut m = load(".text\n@start\neq 1 2\nassert\nend\n");
    assert!(matches!(m.run(), Err(MachineError::AssertionFailed)));
    assert_eq!(m.instruction_counter(), 2);
    let mut m = load(".text\n@start\nneq 1 2\nassert\nend\n");
    assert!(matches!(m.run(), Ok(None)));
}

#[test]
fn data_objects_on_the_stack() {
    let mut m = load(".data\nmsg: \"hi\"\nn: 300\n.text\n@start\nmov %a [msg]\nmov %b msg\nmov %c n\nmov %d [n]\nend\n");
    assert_eq!(&m.stack()[0..4], &[104, 105, 0, 44]);
    assert!(matches!(m.run(), Ok(None)));
    assert_eq!(m.register(Reg::A), Some(104));
    assert_eq!(m.register(Reg::B), Some(0));
    assert_eq!(m.register(Reg::C), Some(3));
    assert_eq!(m.register(Reg::D), Some(44));
}

#[test]
fn store_then_load() {
    let mut m = load(".text\n@start\nstr 300 3\nldr %a 3\nmov %sp 2\nstr 7 -1\nldr %b -1\nend\n");
    assert!(matches!(m.run(), Ok(None)));
    assert_eq!(m.register(Reg::A), Some(44));
    assert_eq!(m.register(Reg::B), Some(7));
    assert_eq!(m.stack()[1], 7);
}

#[test]
fn system_calls() {
    let text = ".data\nmsg: \"hi\"\n.text\n@start\nmov %a 4\nmov %b 1\nmov %c msg\nmov %d 2\nsys\nmov %a 3\nmov %b 0\nmov %c 10\nmov %d 4\nsys\nmov %e [10]\nmov %a 1\nsys\nend\n";
    let mut m = load(text);
    match m.run() {
        Ok(Some(Effect::Write { fd: 1, bytes })) => assert_eq!(bytes, vec![104, 105]),
        other => panic!("unexpected {:?}", other),
    }
    match m.resume() {
        Ok(Some(Effect::Read { fd: 0, addr: 10, len: 4 })) => {},
        other => panic!("unexpected {:?}", other),
    }
    m.store_bytes(10, b"ab");
    assert!(matches!(m.resume(), Ok(Some(Effect::Terminate))));
    assert_eq!(m.register(Reg::E), Some(97));
}

#[test]
fn other_system_call_numbers_do_nothing() {
    let mut m = load(".text\n@start\nmov %a 2\nsys\nmov %a 0\nsys\nend\n");
    assert!(matches!(m.run(), Ok(None)));
}

#[test]
fn running_past_the_last_instruction() {
    let mut m = load(".text\n@start\nmov %a 1\n");
    assert!(matches!(m.run(), Ok(None)));
    assert_eq!(m.instruction_counter(), 2);
}

#[test]
fn failing_steps_leave_the_machine_unchanged() {
    let mut m = load(".text\nret\n");
    assert!(m.step_checked().is_none());
    assert_eq!(m.instruction_counter(), 0);
    let mut m = load(".text\nmov %a 2147483647\nadd %a %a 1\n");
    assert!(matches!(m.step_checked(), Some(Ok(Status::Continue))));
    assert!(m.step_checked().is_none());
    assert_eq!(m.register(Reg::A), Some(2147483647));
    let mut m = load(".text\ndiv %a 1 0\n");
    assert!(m.step_checked().is_none());
    let mut m = load(".text\nmov %a [480]\n");
    assert!(m.step_checked().is_none());
    let mut m = load(".text\npop %a\n");
    assert!(m.step_checked().is_none());
    let mut m = load(".text\nbr @nowhere\n");
    assert!(m.step_checked().is_none());
    let mut m = load(".text\nmov %a unknown\n");
    assert!(m.step_checked().is_none());
    let mut m = load(".text\nend\n");
    assert!(matches!(m.step_checked(), Some(Ok(Status::Exit))));
    assert!(matches!(m.step_checked(), Some(Ok(Status::Exit))));
    let mut m = load(".text\nend\n");
    m.step().unwrap();
    let mut m = load(".text\nmov %a 1\n");
    assert!(matches!(m.step(), Ok(Status::Continue)));
    assert!(m.step_checked().is_none());
}

#[test]
fn division_and_bit_operations() {
    let text = ".text\n@start\ndiv %a -7 2\nand %b 12 10\nor %c 12 10\nxor %d 12 10\nnand %e 12 10\nnor %f 12 10\nnxor %g 12 10\nnot %h 0\nneg %i 5\nsub %j 3 10\nmul %a %a 3\nend\n";
    let mut m = load(text);
    assert!(matches!(m.run(), Ok(None)));
    assert_eq!(m.register(Reg::A), Some(-9));
    assert_eq!(m.register(Reg::B), Some(8));
    assert_eq!(m.register(Reg::C), Some(14));
    assert_eq!(m.register(Reg::D), Some(6));
    assert_eq!(m.register(Reg::E), Some(!8));
    assert_eq!(m.register(Reg::F), Some(!14));
    assert_eq!(m.register(Reg::G), Some(!6));
    assert_eq!(m.register(Reg::H), Some(-1));
    assert_eq!(m.register(Reg::I), Some(-5));
    assert_eq!(m.register(Reg::J), Some(-7));
}

#[test]
fn labels_point_at_their_last_occurrence() {
    let insts = vec![
        Instruction::Label { name: "@start".to_string() },
        Instruction::Mov { dest: Reg::A, a: colnora::value::Value::Lit(1) },
        Instruction::Label { name: "@start".to_string() },
        Instruction::End,
    ];
    let mut m = Machine::<Loaded>::new(insts);
    m.load_labels();
    assert!(m.start());
    assert_eq!(m.instruction_counter(), 2);
    assert_eq!(m.instructions().len(), 4);
    let mut m = Machine::<Loaded>::new(vec![Instruction::End]);
    m.load_labels();
    assert!(!m.start());
}

#[test]
fn load_data_twice_starts_again_at_zero() {
    let mut m = Machine::<Unloaded>::new();
    let file = parse_file(".data\na: 1\nb: 2\n.text\nend\n");
    m.load_data(file.data.clone());
    m.load_data(vec![("c".to_string(), Data::Number(9))]);
    assert_eq!(&m.stack()[0..2], &[9, 2]);
    let m = m.load_instructions(file.instructions);
    assert_eq!(m.instructions().len(), 1);
}

#[test]
fn data_that_fits_on_the_stack() {
    assert!(data_fits(&vec![]));
    let fits = vec![
        ("s".to_string(), Data::Array(vec![7u8; 478])),
        ("n".to_string(), Data::Number(1)),
    ];
    assert!(data_fits(&fits));
    let too_long = vec![
        ("s".to_string(), Data::Array(vec![7u8; 478])),
        ("n".to_string(), Data::Number(1)),
        ("m".to_string(), Data::Number(2)),
    ];
    assert!(!data_fits(&too_long));
    assert!(!data_fits(&vec![("s".to_string(), Data::Array(vec![0u8; 480]))]));
    assert!(!data_fits(&vec![("s".to_string(), Data::Array(vec![0u8; 5000]))]));
}

#[test]
fn steps_keep_labels_and_data_addresses() {
    let text = ".data\nx: 5\ny: \"ab\"\n.text\n@start\nmov %a y\npush 9\npush 8\nstr 1 0\nbl @f\nmov %b y\nend\n@f\nmov %c x\nret\n";
    let mut m = load(text);
    assert!(matches!(m.run(), Ok(None)));
    assert_eq!(m.register(Reg::A), Some(1));
    assert_eq!(m.register(Reg::B), Some(1));
    assert_eq!(m.register(Reg::C), Some(0));
    assert_eq!(m.register(Reg::Link), Some(5));
    assert_eq!(m.instruction_counter(), 7);
    assert_eq!(m.stack().len(), 480);
}

#[test]
fn return_to_minus_one_fails_at_the_step() {
    let mut m = load(".text\nmov %lnk -1\nret\n");
    assert!(matches!(m.step_checked(), Some(Ok(Status::Continue))));
    assert!(m.step_checked().is_none());
    assert_eq!(m.instruction_counter(), 1);
    assert_eq!(m.register(Reg::Link), Some(-1));
    let mut m = load(".text\nmov %lnk -1\neq 1 1\nretif\n");
    assert!(matches!(m.step_checked(), Some(Ok(Status::Continue))));
    assert!(matches!(m.step_checked(), Some(Ok(Status::Continue))));
    assert!(m.step_checked().is_none());
    assert_eq!(m.instruction_counter(), 2);
    assert_eq!(m.register(Reg::Link), Some(-1));
    assert_eq!(m.register(Reg::Cmp), Some(1));
}

#[test]
fn bounded_runs() {
    let mut m = load(".text\n@start\n@loop\nadd %a %a 1\nbr @loop\n");
    assert!(m.start());
    assert!(matches!(m.run_steps(5), Progress::Running));
    assert_eq!(m.register(Reg::A), Some(2));
    assert!(matches!(m.run_steps(0), Progress::Running));
    let mut m = load(".text\n@start\nmov %a 1\nput %a\nend\n");
    assert!(m.start());
    assert!(matches!(m.run_steps(10), Progress::Stopped(Ok(Some(Effect::Print(1))))));
    assert!(matches!(m.run_steps(10), Progress::Stopped(Ok(None))));
    assert_eq!(m.instruction_counter(), 3);
    let mut m = load(".text\nmov %a 1\ndiv %a %a 0\nend\n");
    assert!(matches!(m.run_steps(10), Progress::Fault(1)));
    assert_eq!(m.instruction_counter(), 1);
    let mut m = load(".text\neq 1 2\nassert\n");
    assert!(matches!(m.run_steps(10), Progress::Stopped(Err(MachineError::AssertionFailed))));
    let mut m = load(".text\nmov %a 1\n");
    assert!(matches!(m.run_steps(10), Progress::Stopped(Ok(None))));
}
