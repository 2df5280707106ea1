use colnora::reg::Reg;
use colnora::value::Value;

#[test]
fn register_names_read_back() {
    let all = [
        Reg::A,
        Reg::B,
        Reg::C,
        Reg::D,
        Reg::E,
        Reg::F,
        Reg::G,
        Reg::H,
        Reg::I,
        Reg::J,
        Reg::Cmp,
        Reg::Link,
        Reg::StackPtr,
    ];
    for r in all {
        let name = r.to_string();
        assert_eq!(Reg::try_from(name.as_str()), Ok(r));
    }
}

#[test]
fn register_name_text() {
    assert_eq!(Reg::A.to_string(), "%a");
    assert_eq!(Reg::J.to_string(), "%j");
    assert_eq!(Reg::Cmp.to_string(), "%cmp");
    assert_eq!(Reg::Link.to_string(), "%lnk");
    assert_eq!(Reg::StackPtr.to_string(), "%sp");
}

#[test]
fn register_name_invalid() {
    assert_eq!(Reg::try_from("%k"), Err("Invalid Register Name %k".to_string()));
    assert_eq!(Reg::try_from("a"), Err("Invalid Register Name a".to_string()));
    assert_eq!(Reg::try_from(""), Err("Invalid Register Name ".to_string()));
}

#[test]
fn register_numbers() {
    assert_eq!(Reg::try_from_number(1), Ok(Reg::A));
    assert_eq!(Reg::try_from_number(5), Ok(Reg::E));
    assert_eq!(Reg::try_from_number(10), Ok(Reg::J));
    assert_eq!(Reg::try_from_number(0), Err("Invalid Register Number 0".to_string()));
    assert_eq!(Reg::try_from_number(11), Err("Invalid Register Number 11".to_string()));
    assert_eq!(Reg::try_from_number(-42), Err("Invalid Register Number -42".to_string()));
}

#[test]
fn value_kinds() {
    assert!(matches!(Value::try_from("%b"), Ok(Value::Reg(Reg::B))));
    assert!(matches!(Value::try_from("42"), Ok(Value::Lit(42))));
    assert!(matches!(Value::try_from("-7"), Ok(Value::Lit(-7))));
    assert!(matches!(Value::try_from("+7"), Ok(Value::Lit(7))));
    assert!(matches!(Value::try_from("2147483647"), Ok(Value::Lit(2147483647))));
    assert!(matches!(Value::try_from("-2147483648"), Ok(Value::Lit(-2147483648))));
    match Value::try_from("2147483648") {
        Ok(Value::Data(s)) => assert_eq!(s, "2147483648"),
        other => panic!("unexpected {:?}", other),
    }
    match Value::try_from("msg") {
        Ok(Value::Data(s)) => assert_eq!(s, "msg"),
        other => panic!("unexpected {:?}", other),
    }
    match Value::try_from("-") {
        Ok(Value::Data(s)) => assert_eq!(s, "-"),
        other => panic!("unexpected {:?}", other),
    }
}

#[test]
fn value_dereferences() {
    match Value::try_from("[%sp]") {
        Ok(Value::Deref(inner)) => assert!(matches!(*inner, Value::Reg(Reg::StackPtr))),
        other => panic!("unexpected {:?}", other),
    }
    match Value::try_from("[[msg]]") {
        Ok(Value::Deref(inner)) => match *inner {
            Value::Deref(inner2) => match *inner2 {
                Value::Data(s) => assert_eq!(s, "msg"),
                other => panic!("unexpected {:?}", other),
            },
            other => panic!("unexpected {:?}", other),
        },
        other => panic!("unexpected {:?}", other),
    }
    match Value::try_from("[]") {
        Ok(Value::Deref(inner)) => match *inner {
            Value::Data(s) => assert_eq!(s, ""),
            other => panic!("unexpected {:?}", other),
        },
        other => panic!("unexpected {:?}", other),
    }
}

#[test]
fn value_text() {
    assert_eq!(Value::Lit(-15).to_string(), "-15");
    assert_eq!(Value::Lit(0).to_string(), "0");
    assert_eq!(Value::Lit(i32::MIN).to_string(), "-2147483648");
    assert_eq!(Value::Reg(Reg::D).to_string(), "%d");
    assert_eq!(Value::Data("buf".to_string()).to_string(), "buf");
    let v = Value::Deref(Box::new(Value::Deref(Box::new(Value::Lit(3)))));
    assert_eq!(v.to_string(), "[[3]]");
    let c = v.clone();
    assert_eq!(c.to_string(), "[[3]]");
}

#[test]
fn value_round_trip() {
    for text in ["17", "-3", "%cmp", "name", "[%a]", "[[4]]", "[x]"] {
        let v = Value::try_from(text).unwrap();
        assert_eq!(v.to_string(), text);
    }
}
