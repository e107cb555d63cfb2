use vstd::prelude::*;
use crate::reader::copy_bytes;

verus! {

/// Index of the last `.` of `name` at or before `i - 1`, scanning down.
pub open spec fn last_dot_before(name: Seq<u8>, i: int) -> Option<int>
    decreases i,
{
    if i <= 0 {
        None
    } else if name[i - 1] == 0x2e {
        Some(i - 1)
    } else {
        last_dot_before(name, i - 1)
    }
}

/// The extension of a file name: the part after its last `.`; none when the
/// name has no `.`, or when its only `.` is the first character.
pub open spec fn file_extension(name: Seq<u8>) -> Option<Seq<u8>> {
    match last_dot_before(name, name.len() as int) {
        Some(p) => if p == 0 {
            None
        } else {
            Some(name.skip(p + 1))
        },
        None => None,
    }
}

/// The names among `names` whose extension is `ext`, in their order.
pub open spec fn names_with_extension(names: Seq<Seq<u8>>, ext: Seq<u8>) -> Seq<Seq<u8>>
    decreases names.len(),
{
    if names.len() == 0 {
        Seq::empty()
    } else {
        let rest = names_with_extension(names.drop_first(), ext);
        if file_extension(names[0]) == Some(ext) {
            seq![names[0]] + rest
        } else {
            rest
        }
    }
}

/// The names kept for an extension are exactly those of the listing that
/// have it, in order: every name with the extension is kept, whatever comes
/// before or after it, and no other.
pub proof fn law_names_with_extension_filter(names: Seq<Seq<u8>>, ext: Seq<u8>)
    ensures
        names_with_extension(names, ext) == names.filter(|n: Seq<u8>| file_extension(n) == Some(ext)),
    decreases names.len(),
{
    let pred = |n: Seq<u8>| file_extension(n) == Some(ext);
    reveal(Seq::filter);
    if names.len() == 0 {
        assert(names.filter(pred) =~= Seq::<Seq<u8>>::empty());
    } else {
        let tail = names.drop_first();
        law_names_with_extension_filter(tail, ext);
        let head = seq![names[0]];
        assert(names =~= head + tail);
        Seq::filter_distributes_over_add(head, tail, pred);
        assert(head.drop_last() =~= Seq::<Seq<u8>>::empty());
        assert(head.drop_last().filter(pred) =~= Seq::<Seq<u8>>::empty());
        if pred(names[0]) {
            assert(head.filter(pred) =~= head);
        } else {
            assert(head.filter(pred) =~= Seq::<Seq<u8>>::empty());
            assert(Seq::<Seq<u8>>::empty() + tail.filter(pred) =~= tail.filter(pred));
        }
    }
}

/// The byte strings of a list of vectors.
pub open spec fn byte_strings(v: Seq<Vec<u8>>) -> Seq<Seq<u8>> {
    v.map_values(|b: Vec<u8>| b@)
}

/// Whether the extension of the file name `name` is `ext`.
pub fn has_extension(name: &[u8], ext: &[u8]) -> (r: bool)
    ensures
        r == (file_extension(name@) == Some(ext@)),
{
    let mut i: usize = name.len();
    while i > 0 && name[i - 1] != 0x2e
        invariant
            i <= name.len(),
            last_dot_before(name@, name@.len() as int) == last_dot_before(name@, i as int),
        decreases i,
    {
        i = i - 1;
    }
    if i <= 1 {
        return false;
    }
    let p = i - 1;
    if name.len() - (p + 1) != ext.len() {
        assert(name@.skip(p + 1).len() != ext@.len());
        return false;
    }
    let mut j: usize = 0;
    while j < ext.len()
        invariant
            p + 1 + ext.len() == name.len(),
            j <= ext.len(),
            file_extension(name@) == Some(name@.skip(p + 1)),
            forall|k: int| 0 <= k < j ==> name@[p + 1 + k] == ext@[k],
        decreases ext.len() - j,
    {
        if name[p + 1 + j] != ext[j] {
            assert(name@.skip(p + 1)[j as int] != ext@[j as int]);
            return false;
        }
        j = j + 1;
    }
    assert(name@.skip(p + 1) =~= ext@);
    true
}

/// The files of a directory listing (`names`) that have the extension `extension`.
pub fn discover_files(names: &Vec<Vec<u8>>, extension: &[u8]) -> (r: Vec<Vec<u8>>)
    ensures
        byte_strings(r@) == names_with_extension(byte_strings(names@), extension@),
        byte_strings(r@) == byte_strings(names@).filter(|n: Seq<u8>| file_extension(n) == Some(extension@)),
{
    proof { law_names_with_extension_filter(byte_strings(names@), extension@); }
    let ghost all = byte_strings(names@);
    let mut out: Vec<Vec<u8>> = Vec::new();
    let mut i: usize = names.len();
    assert(byte_strings(out@) =~= names_with_extension(all.skip(i as int), extension@));
    while i > 0
        invariant
            i <= names.len(),
            all == byte_strings(names@),
            byte_strings(out@) == names_with_extension(all.skip(i as int), extension@),
        decreases i,
    {
        i = i - 1;
        assert(all.skip(i as int).drop_first() =~= all.skip(i + 1));
        assert(all.skip(i as int)[0] == names@[i as int]@);
        if has_extension(names[i].as_slice(), extension) {
            let mut one: Vec<Vec<u8>> = Vec::new();
            one.push(copy_bytes(names[i].as_slice()));
            let ghost old_out = out@;
            one.append(&mut out);
            out = one;
            assert(byte_strings(out@) =~= seq![names@[i as int]@] + byte_strings(old_out));
        }
    }
    assert(all.skip(0) =~= all);
    out
}

/// The protobuf source files (`.proto`) of a directory listing.
pub fn discover_proto_files(names: &Vec<Vec<u8>>) -> (r: Vec<Vec<u8>>)
    ensures
        byte_strings(r@) == names_with_extension(byte_strings(names@), seq![0x70u8, 0x72, 0x6f, 0x74, 0x6f]),
        byte_strings(r@) == byte_strings(names@).filter(|n: Seq<u8>| file_extension(n) == Some(seq![0x70u8, 0x72, 0x6f, 0x74, 0x6f])),
{
    let ext: [u8; 5] = [0x70, 0x72, 0x6f, 0x74, 0x6f];
    proof { assert(ext@ =~= seq![0x70u8, 0x72, 0x6f, 0x74, 0x6f]); }
    discover_files(names, &ext)
}

/// The generated Rust files (`.rs`) of a directory listing.
pub fn discover_genrs_files(names: &Vec<Vec<u8>>) -> (r: Vec<Vec<u8>>)
    ensures
        byte_strings(r@) == names_with_extension(byte_strings(names@), seq![0x72u8, 0x73]),
        byte_strings(r@) == byte_strings(names@).filter(|n: Seq<u8>| file_extension(n) == Some(seq![0x72u8, 0x73])),
{
    let ext: [u8; 2] = [0x72, 0x73];
    proof { assert(ext@ =~= seq![0x72u8, 0x73]); }
    discover_files(names, &ext)
}

/// The fdset files (`.fdset`) of a directory listing.
pub fn discover_fdset_files(names: &Vec<Vec<u8>>) -> (r: Vec<Vec<u8>>)
    ensures
        byte_strings(r@) == names_with_extension(byte_strings(names@), seq![0x66u8, 0x64, 0x73, 0x65, 0x74]),
        byte_strings(r@) == byte_strings(names@).filter(|n: Seq<u8>| file_extension(n) == Some(seq![0x66u8, 0x64, 0x73, 0x65, 0x74])),
{
    let ext: [u8; 5] = [0x66, 0x64, 0x73, 0x65, 0x74];
    proof { assert(ext@ =~= seq![0x66u8, 0x64, 0x73, 0x65, 0x74]); }
    discover_files(names, &ext)
}

} // verus!
