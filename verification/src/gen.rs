use vstd::prelude::*;

verus! {

/// Scanning `s` from left to right for `::` separators (from `i` on, the
/// current segment starting at `start`), where the last segment starts.
pub open spec fn segment_start(s: Seq<char>, i: int, start: int) -> int
    decreases s.len() - i,
{
    if i < 0 || i + 1 >= s.len() {
        start
    } else if s[i] == ':' && s[i + 1] == ':' {
        segment_start(s, i + 2, i + 2)
    } else {
        segment_start(s, i + 1, start)
    }
}

/// The last of the `::`-separated segments of a path, the separators being
/// taken from left to right; all of `s` when it has none.
pub open spec fn last_path_segment(s: Seq<char>) -> Seq<char> {
    s.skip(segment_start(s, 0, 0))
}

/// The lines joined with a line break between each two.
pub open spec fn join_lines(lines: Seq<Seq<char>>) -> Seq<char>
    decreases lines.len(),
{
    if lines.len() == 0 {
        Seq::empty()
    } else if lines.len() == 1 {
        lines[0]
    } else {
        join_lines(lines.drop_last()) + "\n"@ + lines.last()
    }
}

/// The import of one message type from the generated schemata module.
pub open spec fn import_line(msgdef: Seq<char>) -> Seq<char> {
    "use schemata::"@ + msgdef + ";"@
}

/// The statement that decodes the input as the message type `name` and
/// prints it.
pub open spec fn merge_from_call(name: Seq<char>) -> Seq<char> {
    "\tmatch "@ + name + "::new().merge_from(&mut stream) {\n        Ok(x) => println!(\"{:?}\", x),\n        Err(e) => panic!(e),\n    };"@
}

/// The import lines of the message types `msgdefs`, one per type.
pub open spec fn import_lines(msgdefs: Seq<String>) -> Seq<Seq<char>> {
    Seq::new(msgdefs.len(), |i: int| import_line(msgdefs[i]@))
}

/// The decoding statements of the message types `msgdefs`, one per type,
/// each naming the type by the last segment of its path.
pub open spec fn merge_from_calls(msgdefs: Seq<String>) -> Seq<Seq<char>> {
    Seq::new(msgdefs.len(), |i: int| merge_from_call(last_path_segment(msgdefs[i]@)))
}

/// The last `::`-separated segment of `m`.
fn last_segment(m: &str) -> (r: String)
    ensures
        r@ == last_path_segment(m@),
{
    let n = m.unicode_len();
    let mut i: usize = 0;
    let mut start: usize = 0;
    while n >= 2 && i <= n - 2
        invariant
            n == m@.len(),
            start <= i,
            i <= n,
            segment_start(m@, 0, 0) == segment_start(m@, i as int, start as int),
        decreases n - i,
    {
        if m.get_char(i) == ':' && m.get_char(i + 1) == ':' {
            i = i + 2;
            start = i;
        } else {
            i = i + 1;
        }
    }
    assert(segment_start(m@, i as int, start as int) == start);
    let r = String::from_str(m.substring_char(start, n));
    assert(r@ =~= m@.skip(start as int));
    r
}

/// Joins `lines` with a line break between each two.
fn join_with_newlines(lines: &Vec<String>) -> (r: String)
    ensures
        r@ == join_lines(lines@.map_values(|l: String| l@)),
{
    let ghost all = lines@.map_values(|l: String| l@);
    let mut res = String::new();
    let mut i: usize = 0;
    while i < lines.len()
        invariant
            i <= lines.len(),
            all == lines@.map_values(|l: String| l@),
            res@ == join_lines(all.take(i as int)),
        decreases lines.len() - i,
    {
        if i > 0 {
            res.append("\n");
        }
        res.append(lines[i].as_str());
        proof {
            assert(all.take(i + 1).drop_last() =~= all.take(i as int));
            if i == 0 {
                assert(all.take(1) =~= seq![lines@[0]@]);
            }
        }
        i = i + 1;
    }
    assert(all.take(lines.len() as int) =~= all);
    res
}

/// The `use` lines that import the message types `msgdefs` from the
/// generated schemata module, joined by line breaks.
pub fn format_msgdef_imports(msgdefs: &Vec<String>) -> (r: String)
    ensures
        r@ == join_lines(import_lines(msgdefs@)),
{
    let mut lines: Vec<String> = Vec::new();
    let mut i: usize = 0;
    while i < msgdefs.len()
        invariant
            i <= msgdefs.len(),
            lines.len() == i,
            forall|k: int| 0 <= k < i ==> (#[trigger] lines@[k])@ == import_line(msgdefs@[k]@),
        decreases msgdefs.len() - i,
    {
        let mut line = String::from_str("use schemata::");
        line.append(msgdefs[i].as_str());
        line.append(";");
        lines.push(line);
        i = i + 1;
    }
    let r = join_with_newlines(&lines);
    assert(lines@.map_values(|l: String| l@) =~= import_lines(msgdefs@));
    r
}

/// The statements that decode the input as each of the message types
/// `msgdefs` and print the result, joined by line breaks.
pub fn format_mergefrom_calls(msgdefs: &Vec<String>) -> (r: String)
    ensures
        r@ == join_lines(merge_from_calls(msgdefs@)),
{
    let mut lines: Vec<String> = Vec::new();
    let mut i: usize = 0;
    while i < msgdefs.len()
        invariant
            i <= msgdefs.len(),
            lines.len() == i,
            forall|k: int| 0 <= k < i ==> (#[trigger] lines@[k])@ == merge_from_call(last_path_segment(msgdefs@[k]@)),
        decreases msgdefs.len() - i,
    {
        let name = last_segment(msgdefs[i].as_str());
        let mut line = String::from_str("\tmatch ");
        line.append(name.as_str());
        line.append("::new().merge_from(&mut stream) {\n        Ok(x) => println!(\"{:?}\", x),\n        Err(e) => panic!(e),\n    };");
        lines.push(line);
        i = i + 1;
    }
    let r = join_with_newlines(&lines);
    assert(lines@.map_values(|l: String| l@) =~= merge_from_calls(msgdefs@));
    r
}

/// The line that declares the generated module of the file stem `stem` in
/// the schemata module.
pub fn schemata_mod_line(stem: &str) -> (r: String)
    ensures
        r@ == "pub mod "@ + stem@ + ";\n"@,
{
    let mut r = String::from_str("pub mod ");
    r.append(stem);
    r.append(";\n");
    r
}

/// The text of the decoding module for the message types `msgdefs`: their
/// imports, then a function that decodes its input as each of them in turn.
pub fn protob_file_text(msgdefs: &Vec<String>) -> (r: String)
    ensures
        r@ == "mod schemata;\n\nuse protobuf::Message;\nuse protobuf::CodedInputStream;\n\n"@
            + join_lines(import_lines(msgdefs@))
            + "\n\npub fn process_bytes(data: &[u8]) {\n    let mut stream = CodedInputStream::from_bytes(data);\n\n"@
            + join_lines(merge_from_calls(msgdefs@)) + "\n}\n"@,
{
    let imports = format_msgdef_imports(msgdefs);
    let calls = format_mergefrom_calls(msgdefs);
    let mut r = String::from_str("mod schemata;\n\nuse protobuf::Message;\nuse protobuf::CodedInputStream;\n\n");
    r.append(imports.as_str());
    r.append("\n\npub fn process_bytes(data: &[u8]) {\n    let mut stream = CodedInputStream::from_bytes(data);\n\n");
    r.append(calls.as_str());
    r.append("\n}\n");
    r
}

} // verus!
