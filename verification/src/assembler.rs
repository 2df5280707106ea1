//! Reading an assembly file: its sections, its instructions and its data objects.
use vstd::prelude::*;
use vstd::utf8::encode_utf8;
use crate::instruction::{Instruction, InstModel, parse_line};
use crate::number::{is_digit, parse_i32, parse_i32_chars};
use crate::table::Table;
use crate::text::{chars_of, lines, lines_of, split, split_chars, split_once, split_once_chars, string_of, trim, trim_chars, views, lacks, trim_start, trim_end, lemma_split_lacking, lemma_split_append};

verus! {

/// The initial contents of a data object.
#[derive(Debug)]
pub enum Data {
    /// Bytes, stored followed by a zero byte.
    Array(Vec<u8>),
    /// One number, stored as its low byte.
    Number(i32),
}

/// The mathematical form of `Data`.
pub enum DataModel {
    Array(Seq<u8>),
    Number(i32),
}

impl View for Data {
    type V = DataModel;

    open spec fn view(&self) -> DataModel {
        match self {
            Data::Array(v) => DataModel::Array(v@),
            Data::Number(n) => DataModel::Number(*n),
        }
    }
}

impl Clone for Data {
    fn clone(&self) -> (c: Self)
        ensures
            c@ == self@,
    {
        match self {
            Data::Array(v) => {
                let w = v.clone();
                assert(w@ =~= v@);
                Data::Array(w)
            },
            Data::Number(n) => Data::Number(*n),
        }
    }
}

/// A parsed assembly file: the instructions of its `.text` section and the
/// data objects of its `.data` section.
pub struct AssemblyFile {
    pub instructions: Vec<Instruction>,
    pub data: Vec<(String, Data)>,
}

/// The mathematical form of a list of instructions.
pub open spec fn insts_model(v: Seq<Instruction>) -> Seq<InstModel> {
    v.map_values(|i: Instruction| i@)
}

/// The mathematical form of a list of data objects.
pub open spec fn data_model(v: Seq<(String, Data)>) -> Seq<(Seq<char>, DataModel)> {
    v.map_values(|e: (String, Data)| (e.0@, e.1@))
}

/// The sections named by the pieces between `.`s: a piece's name is its text
/// up to the first newline, its body the rest; a piece without a newline is
/// no section, and a later section replaces an earlier one of the same name.
pub open spec fn sections_of(pieces: Seq<Seq<char>>) -> Map<Seq<char>, Seq<char>>
    decreases pieces.len(),
{
    if pieces.len() == 0 {
        Map::empty()
    } else {
        let m = sections_of(pieces.drop_last());
        match split_once(pieces.last(), '\n') {
            Some((name, body)) => m.insert(name, body),
            None => m,
        }
    }
}

/// The sections of a file's text (see `sections_of`).
pub open spec fn sections(text: Seq<char>) -> Map<Seq<char>, Seq<char>> {
    sections_of(split(text, '.'))
}

/// The instructions of the lines `ls`: lines without an instruction are
/// skipped; `None` where a line cannot be read.
pub open spec fn insts_of(ls: Seq<Seq<char>>) -> Option<Seq<InstModel>>
    decreases ls.len(),
{
    if ls.len() == 0 {
        Some(Seq::empty())
    } else {
        match (insts_of(ls.drop_last()), parse_line(ls.last())) {
            (Some(is), Some(Ok(i))) => Some(is.push(i)),
            (Some(is), Some(Err(_))) => Some(is),
            _ => None,
        }
    }
}

/// A quoted string: the bytes (UTF-8) between the first and the last
/// character, which must be ASCII.
pub open spec fn string_data(value: Seq<char>) -> Option<DataModel> {
    if value.len() >= 2 && (value.last() as u32) < 128 {
        Some(DataModel::Array(encode_utf8(value.subrange(1, value.len() - 1))))
    } else {
        None
    }
}

/// A quoted character: exactly one ASCII character between two ASCII
/// delimiters; its code.
pub open spec fn char_data(value: Seq<char>) -> Option<DataModel> {
    if value.len() == 3 && (value[1] as u32) < 128 && (value[2] as u32) < 128 {
        Some(DataModel::Number((value[1] as u32) as i32))
    } else {
        None
    }
}

/// A data line `name: value`: the name is the text before the first `:`, the
/// value the trimmed text between it and the next `:`. A value starting with
/// `"` is a string, with `'` a character, with a digit a decimal `i32`.
/// `None` where the line cannot be read.
pub open spec fn data_line(line: Seq<char>) -> Option<(Seq<char>, DataModel)> {
    let parts = split(line, ':');
    if parts.len() < 2 {
        None
    } else {
        let name = parts[0];
        let value = trim(parts[1]);
        let d = if value.len() == 0 {
            None
        } else if value[0] == '"' {
            string_data(value)
        } else if value[0] == '\'' {
            char_data(value)
        } else if is_digit(value[0]) {
            match parse_i32(value) {
                Some(n) => Some(DataModel::Number(n)),
                None => None,
            }
        } else {
            None
        };
        match d {
            Some(d) => Some((name, d)),
            None => None,
        }
    }
}

/// The data objects of the lines `ls`: empty lines are skipped; `None` where
/// a line cannot be read.
pub open spec fn data_of(ls: Seq<Seq<char>>) -> Option<Seq<(Seq<char>, DataModel)>>
    decreases ls.len(),
{
    if ls.len() == 0 {
        Some(Seq::empty())
    } else {
        match data_of(ls.drop_last()) {
            Some(ds) => if ls.last().len() == 0 {
                Some(ds)
            } else {
                match data_line(ls.last()) {
                    Some(d) => Some(ds.push(d)),
                    None => None,
                }
            },
            None => None,
        }
    }
}

/// A whole file: the instructions of its `text` section and the data objects
/// of its `data` section (none where it has no such section). `None` where it
/// has no `text` section or a line cannot be read.
pub open spec fn file_of(text: Seq<char>) -> Option<(Seq<InstModel>, Seq<(Seq<char>, DataModel)>)> {
    let secs = sections(text);
    let data = if secs.contains_key("data"@) {
        secs["data"@]
    } else {
        Seq::empty()
    };
    if !secs.contains_key("text"@) {
        None
    } else {
        match (insts_of(lines(secs["text"@])), data_of(lines(data))) {
            (Some(is), Some(ds)) => Some((is, ds)),
            _ => None,
        }
    }
}


/// The sections of a file's text, in a table (see `sections`).
fn section_table(text: &[char]) -> (t: Table<Vec<char>>)
    ensures
        t.wf(),
        t@ == sections(text@),
{
    let pieces = split_chars(text, '.');
    let ghost pv = views(pieces@);
    let mut t: Table<Vec<char>> = Table::new();
    let mut i: usize = 0;
    while i < pieces.len()
        invariant
            pv == views(pieces@),
            i <= pieces@.len(),
            t.wf(),
            t@ == sections_of(pv.take(i as int)),
        decreases pieces@.len() - i,
    {
        assert(pv.take(i + 1).drop_last() == pv.take(i as int));
        assert(pv.take(i + 1).last() == pieces@[i as int]@);
        match split_once_chars(pieces[i].as_slice(), '\n') {
            Some((name, body)) => {
                t.insert(name, body);
            },
            None => {},
        }
        i = i + 1;
    }
    assert(pv.take(pieces@.len() as int) == pv);
    t
}

/// Splits a file's text into its sections (see `sections`): each section's
/// name with its body, each name once.
pub fn split_file_by_section(file_text: &str) -> (r: Vec<(String, String)>)
    ensures
        forall|i: int, j: int| 0 <= i < j < r@.len() ==> r@[i].0@ != r@[j].0@,
        forall|i: int|
            0 <= i < r@.len() ==> #[trigger] sections(file_text@).contains_key(r@[i].0@)
                && sections(file_text@)[r@[i].0@] == r@[i].1@,
        forall|k: Seq<char>|
            #[trigger] sections(file_text@).contains_key(k) ==> exists|i: int|
                0 <= i < r@.len() && r@[i].0@ == k,
{
    let text = chars_of(file_text);
    let t = section_table(text.as_slice());
    proof { t.lemma_dom_len(); }
    let n = t.len();
    let mut r: Vec<(String, String)> = Vec::new();
    let mut i: usize = 0;
    while i < n
        invariant
            t.wf(),
            t@ == sections(file_text@),
            n == t.keys().len(),
            t.keys().no_duplicates(),
            t@.dom() == t.keys().to_set(),
            i <= n,
            r@.len() == i,
            forall|j: int| 0 <= j < i ==> #[trigger] r@[j].0@ == t.keys()[j],
            forall|j: int| 0 <= j < i ==> t@[#[trigger] r@[j].0@] == r@[j].1@,
        decreases n - i,
    {
        let k = t.key_at(i);
        let v = t.value_at(i);
        r.push((string_of(k.as_slice()), string_of(v.as_slice())));
        i = i + 1;
    }
    assert forall|k: Seq<char>| #[trigger] sections(file_text@).contains_key(k) implies exists|i: int|
        0 <= i < r@.len() && r@[i].0@ == k by {
        assert(t.keys().to_set().contains(k));
        let j = choose|j: int| 0 <= j < t.keys().len() && t.keys()[j] == k;
        assert(r@[j].0@ == k);
    }
    assert forall|i: int| 0 <= i < r@.len() implies #[trigger] sections(file_text@).contains_key(r@[i].0@)
        && sections(file_text@)[r@[i].0@] == r@[i].1@ by {
        assert(t.keys().to_set().contains(t.keys()[i]));
    }
    r
}

proof fn lemma_insts_of_prefix_none(ls: Seq<Seq<char>>, k: int)
    requires
        0 <= k <= ls.len(),
        insts_of(ls.take(k)) is None,
    ensures
        insts_of(ls) is None,
    decreases ls.len() - k,
{
    if k == ls.len() {
        assert(ls.take(k) == ls);
    } else {
        assert(ls.drop_last().take(k) == ls.take(k));
        lemma_insts_of_prefix_none(ls.drop_last(), k);
    }
}

proof fn lemma_data_of_prefix_none(ls: Seq<Seq<char>>, k: int)
    requires
        0 <= k <= ls.len(),
        data_of(ls.take(k)) is None,
    ensures
        data_of(ls) is None,
    decreases ls.len() - k,
{
    if k == ls.len() {
        assert(ls.take(k) == ls);
    } else {
        assert(ls.drop_last().take(k) == ls.take(k));
        lemma_data_of_prefix_none(ls.drop_last(), k);
    }
}

/// The instructions of the lines of `text` (see `insts_of`), or `None` where
/// a line cannot be read (what `parse_instructions` requires away).
pub fn instructions_of(text: &[char]) -> (r: Option<Vec<Instruction>>)
    ensures
        match r {
            Some(v) => insts_of(lines(text@)) == Some(insts_model(v@)),
            None => insts_of(lines(text@)) is None,
        },
{
    let ls = lines_of(text);
    let ghost lv = views(ls@);
    let mut out: Vec<Instruction> = Vec::new();
    let mut i: usize = 0;
    while i < ls.len()
        invariant
            lv == views(ls@),
            lv == lines(text@),
            i <= ls@.len(),
            insts_of(lv.take(i as int)) == Some(insts_model(out@)),
        decreases ls@.len() - i,
    {
        assert(lv.take(i + 1).drop_last() == lv.take(i as int));
        assert(lv.take(i + 1).last() == ls@[i as int]@);
        match Instruction::parse_line_chars(ls[i].as_slice()) {
            Some(Ok(inst)) => {
                let ghost before = insts_model(out@);
                out.push(inst);
                assert(insts_model(out@) =~= before.push(out@.last()@));
            },
            Some(Err(_)) => {},
            None => {
                proof { lemma_insts_of_prefix_none(lv, i + 1); }
                return None;
            },
        }
        i = i + 1;
    }
    assert(lv.take(ls@.len() as int) == lv);
    Some(out)
}

/// The instructions of the lines of `instructions`, skipping empty lines,
/// section headers and comments. Requires that every line can be read (see
/// `instructions_of`).
pub fn parse_instructions(instructions: &str) -> (r: Vec<Instruction>)
    requires
        insts_of(lines(instructions@)) is Some,
    ensures
        insts_of(lines(instructions@)) == Some(insts_model(r@)),
{
    let cs = chars_of(instructions);
    match instructions_of(cs.as_slice()) {
        Some(v) => v,
        None => Vec::new(),
    }
}

/// A quoted string (see `string_data`).
fn parse_string(value: &[char]) -> (r: Option<Data>)
    ensures
        match r {
            Some(d) => string_data(value@) == Some(d@),
            None => string_data(value@) is None,
        },
{
    if value.len() >= 2 && (value[value.len() - 1] as u32) < 128 {
        let mut mid: Vec<char> = Vec::new();
        let mut i: usize = 1;
        while i < value.len() - 1
            invariant
                value@.len() >= 2,
                1 <= i <= value@.len() - 1,
                mid@ == value@.subrange(1, i as int),
            decreases value@.len() - i,
        {
            mid.push(value[i]);
            i = i + 1;
        }
        let s = string_of(mid.as_slice());
        let bytes = s.as_str().as_bytes();
        let mut out: Vec<u8> = Vec::new();
        let mut k: usize = 0;
        while k < bytes.len()
            invariant
                k <= bytes@.len(),
                out@ == bytes@.take(k as int),
            decreases bytes@.len() - k,
        {
            out.push(bytes[k]);
            k = k + 1;
        }
        assert(bytes@.take(bytes@.len() as int) == bytes@);
        Some(Data::Array(out))
    } else {
        None
    }
}

/// A quoted character (see `char_data`).
fn parse_char(value: &[char]) -> (r: Option<Data>)
    ensures
        match r {
            Some(d) => char_data(value@) == Some(d@),
            None => char_data(value@) is None,
        },
{
    if value.len() == 3 && (value[1] as u32) < 128 && (value[2] as u32) < 128 {
        Some(Data::Number(value[1] as u32 as i32))
    } else {
        None
    }
}

/// A decimal number (see `parse_i32`).
fn parse_num(value: &[char]) -> (r: Option<Data>)
    ensures
        match r {
            Some(d) => parse_i32(value@) matches Some(n) && d@ == DataModel::Number(n),
            None => parse_i32(value@) is None,
        },
{
    match parse_i32_chars(value) {
        Some(n) => Some(Data::Number(n)),
        None => None,
    }
}

/// One data line (see `data_line`).
fn data_line_chars(line: &[char]) -> (r: Option<(String, Data)>)
    ensures
        match r {
            Some((n, d)) => data_line(line@) == Some((n@, d@)),
            None => data_line(line@) is None,
        },
{
    let parts = split_chars(line, ':');
    let ghost pv = views(parts@);
    assert(pv == split(line@, ':'));
    if parts.len() < 2 {
        return None;
    }
    assert(parts@[0]@ == pv[0] && parts@[1]@ == pv[1]);
    let name = string_of(parts[0].as_slice());
    let value = trim_chars(parts[1].as_slice());
    if value.len() == 0 {
        return None;
    }
    let first = value[0];
    let d = if first == '"' {
        parse_string(value.as_slice())
    } else if first == '\'' {
        parse_char(value.as_slice())
    } else if '0' <= first && first <= '9' {
        parse_num(value.as_slice())
    } else {
        None
    };
    match d {
        Some(d) => Some((name, d)),
        None => None,
    }
}

/// The data objects of the lines of `data` (see `data_of`), or `None` where
/// a line cannot be read (what `parse_data` requires away).
pub fn data_objects_of(data: &[char]) -> (r: Option<Vec<(String, Data)>>)
    ensures
        match r {
            Some(v) => data_of(lines(data@)) == Some(data_model(v@)),
            None => data_of(lines(data@)) is None,
        },
{
    let ls = lines_of(data);
    let ghost lv = views(ls@);
    let mut out: Vec<(String, Data)> = Vec::new();
    let mut i: usize = 0;
    while i < ls.len()
        invariant
            lv == views(ls@),
            lv == lines(data@),
            i <= ls@.len(),
            data_of(lv.take(i as int)) == Some(data_model(out@)),
        decreases ls@.len() - i,
    {
        assert(lv.take(i + 1).drop_last() == lv.take(i as int));
        assert(lv.take(i + 1).last() == ls@[i as int]@);
        if ls[i].len() > 0 {
            match data_line_chars(ls[i].as_slice()) {
                Some(d) => {
                    let ghost before = data_model(out@);
                    out.push(d);
                    assert(data_model(out@) =~= before.push((out@.last().0@, out@.last().1@)));
                },
                None => {
                    proof { lemma_data_of_prefix_none(lv, i + 1); }
                    return None;
                },
            }
        }
        i = i + 1;
    }
    assert(lv.take(ls@.len() as int) == lv);
    Some(out)
}

/// The data objects of the lines of `data`, skipping empty lines. Requires
/// that every line can be read (see `data_objects_of`).
pub fn parse_data(data: &str) -> (r: Vec<(String, Data)>)
    requires
        data_of(lines(data@)) is Some,
    ensures
        data_of(lines(data@)) == Some(data_model(r@)),
{
    let cs = chars_of(data);
    match data_objects_of(cs.as_slice()) {
        Some(v) => v,
        None => Vec::new(),
    }
}

/// Reads a whole assembly file (see `file_of`), or `None` where it has no
/// `text` section or a line cannot be read.
pub fn try_parse_file(file_text: &str) -> (r: Option<AssemblyFile>)
    ensures
        match r {
            Some(f) => file_of(file_text@) == Some(
                (insts_model(f.instructions@), data_model(f.data@)),
            ),
            None => file_of(file_text@) is None,
        },
{
    let text = chars_of(file_text);
    let t = section_table(text.as_slice());
    let text_name = chars_of("text");
    let data_name = chars_of("data");
    let body = match t.get(text_name.as_slice()) {
        Some(b) => b,
        None => return None,
    };
    let instructions = match instructions_of(body.as_slice()) {
        Some(v) => v,
        None => return None,
    };
    let data = match t.get(data_name.as_slice()) {
        Some(d) => data_objects_of(d.as_slice()),
        None => {
            let empty: Vec<char> = Vec::new();
            assert(empty@ == Seq::<char>::empty());
            data_objects_of(empty.as_slice())
        },
    };
    match data {
        Some(d) => Some(AssemblyFile { instructions, data: d }),
        None => None,
    }
}

/// Reads a whole assembly file: the instructions of its `text` section and
/// the data objects of its `data` section. Requires that it has a `text`
/// section and that every line can be read (see `try_parse_file`).
pub fn parse_file(file_text: &str) -> (r: AssemblyFile)
    requires
        file_of(file_text@) is Some,
    ensures
        file_of(file_text@) == Some((insts_model(r.instructions@), data_model(r.data@))),
{
    match try_parse_file(file_text) {
        Some(f) => f,
        None => AssemblyFile { instructions: Vec::new(), data: Vec::new() },
    }
}


/// A quoted string's bytes are exactly the UTF-8 encoding of every character
/// between its quotes, white space at either end included.
pub proof fn lemma_quoted_string_bytes(s: Seq<char>)
    ensures
        string_data(seq!['"'] + s + seq!['"']) == Some(DataModel::Array(encode_utf8(s))),
{
    let v = seq!['"'] + s + seq!['"'];
    assert(v.subrange(1, v.len() - 1) =~= s);
    assert(v.last() == '"');
}

/// A data line `name: "text"` gives an object of that name holding the
/// bytes of every character of `text`.
pub proof fn lemma_string_data_line(name: Seq<char>, s: Seq<char>)
    requires
        lacks(name, ':'),
        lacks(s, ':'),
    ensures
        data_line(name + seq![':', ' ', '"'] + s + seq!['"']) == Some(
            (name, DataModel::Array(encode_utf8(s))),
        ),
{
    let value = seq!['"'] + s + seq!['"'];
    let rest = seq![' '] + value;
    let line = name + seq![':', ' ', '"'] + s + seq!['"'];
    assert(line =~= name + seq![':'] + rest);
    assert(lacks(rest, ':')) by {
        assert forall|i: int| 0 <= i < rest.len() implies rest[i] != ':' by {
            if 2 <= i < rest.len() - 1 {
                assert(rest[i] == s[i - 2]);
            }
        }
    }
    lemma_split_lacking(name, ':');
    lemma_split_append(name, rest, ':');
    assert(split(line, ':') =~= seq![name, rest]);
    assert(rest.drop_first() =~= value);
    assert(trim_start(rest) == trim_start(value));
    assert(trim_start(value) == value);
    assert(trim_end(value) == value);
    assert(trim(rest) == value);
    lemma_quoted_string_bytes(s);
}

} // verus!
