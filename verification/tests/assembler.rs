use colnora::assembler::{data_objects_of, instructions_of, parse_data, parse_file, parse_instructions, split_file_by_section, try_parse_file, Data};
use colnora::instruction::Instruction;

fn section<'a>(sections: &'a [(String, String)], name: &str) -> Option<&'a str> {
    sections.iter().find(|(n, _)| n == name).map(|(_, b)| b.as_str())
}

#[test]
fn sections_by_name() {
    let text = "ignored\n.data\nx: 1\n.text\nend\n";
    let sections = split_file_by_section(text);
    assert_eq!(sections.len(), 3);
    assert_eq!(section(&sections, "data"), Some("x: 1\n"));
    assert_eq!(section(&sections, "text"), Some("end\n"));
    assert_eq!(section(&sections, "ignored"), Some(""));
}

#[test]
fn later_section_replaces_earlier() {
    let sections = split_file_by_section(".text\nret\n.text\nend\n");
    assert_eq!(sections.len(), 1);
    assert_eq!(section(&sections, "text"), Some("end\n"));
}

#[test]
fn piece_without_newline_is_no_section() {
    let sections = split_file_by_section("abc.def");
    assert!(sections.is_empty());
}

#[test]
fn instructions_skip_blank_headers_and_comments() {
    let insts = parse_instructions("\n; note\n  mov %a 1\r\n.x\n@start\nend");
    assert_eq!(insts.len(), 3);
    assert!(matches!(insts[0], Instruction::Mov { .. }));
    assert!(matches!(insts[1], Instruction::Label { .. }));
    assert!(matches!(insts[2], Instruction::End));
}

#[test]
fn data_objects() {
    let data = parse_data("msg: \"hi\"\n\nch: 'A'\nn: 300\nu: \"\u{e9}\"\n");
    assert_eq!(data.len(), 4);
    assert_eq!(data[0].0, "msg");
    assert!(matches!(&data[0].1, Data::Array(b) if b == &vec![104u8, 105u8]));
    assert_eq!(data[1].0, "ch");
    assert!(matches!(data[1].1, Data::Number(65)));
    assert!(matches!(data[2].1, Data::Number(300)));
    assert!(matches!(&data[3].1, Data::Array(b) if b == &vec![0xc3u8, 0xa9u8]));
}

#[test]
fn data_value_after_second_colon_is_ignored() {
    let data = parse_data("t: 12 :junk");
    assert_eq!(data.len(), 1);
    assert!(matches!(data[0].1, Data::Number(12)));
}

#[test]
fn whole_file() {
    let file = parse_file(".data\nmsg: \"ok\"\n.text\n@start\nput msg\nend\n");
    assert_eq!(file.instructions.len(), 3);
    assert_eq!(file.data.len(), 1);
    assert_eq!(file.data[0].0, "msg");
}

#[test]
fn file_without_data_section() {
    let file = parse_file(".text\nend\n");
    assert_eq!(file.instructions.len(), 1);
    assert!(file.data.is_empty());
}

#[test]
fn files_that_cannot_be_read() {
    assert!(try_parse_file(".data\nx: 1\n").is_none());
    assert!(try_parse_file(".text\nfoo %a\n").is_none());
    assert!(try_parse_file(".text\nadd %a 1 2 3\n").is_none());
    assert!(try_parse_file(".text\npop 5\n").is_none());
    assert!(try_parse_file(".text\npush [x\n").is_none());
    assert!(try_parse_file(".text\nend\n.data\nx 1\n").is_none());
    assert!(try_parse_file(".text\nend\n.data\nx: -1\n").is_none());
    assert!(try_parse_file(".text\nend\n.data\nx: 'ab'\n").is_none());
    assert!(try_parse_file(".text\nend\n.data\nx: \"\n").is_none());
    assert!(try_parse_file(".text\nend\n.data\nx: 99999999999\n").is_none());
    assert!(try_parse_file(".text\nend\n.data\nx: \n").is_none());
}

#[test]
fn checked_line_readers() {
    let text: Vec<char> = "mov %a 1\n; note\n\nend\n".chars().collect();
    assert_eq!(instructions_of(&text).map(|v| v.len()), Some(2));
    let bad: Vec<char> = "mov %a 1\nfly %a\n".chars().collect();
    assert!(instructions_of(&bad).is_none());
    let data: Vec<char> = "x: 1\n\ny: 'a'\n".chars().collect();
    assert_eq!(data_objects_of(&data).map(|v| v.len()), Some(2));
    let bad_data: Vec<char> = "x: -1\n".chars().collect();
    assert!(data_objects_of(&bad_data).is_none());
}
