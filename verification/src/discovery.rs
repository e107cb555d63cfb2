//! Loading descriptor sets: which of a list of file contents hold a valid
//! serialized `FileDescriptorSet`, and where pq looks for fdset files.
use vstd::prelude::*;

verus! {

#[verifier::external_type_specification]
#[verifier::external_body]
pub struct ExFileDescriptorSet(protobuf::descriptor::FileDescriptorSet);

/// Whether `bytes` hold a complete, valid serialized `FileDescriptorSet`.
pub uninterp spec fn is_fdset(bytes: Seq<u8>) -> bool;

/// The descriptor set that `bytes` parse to, where they hold one.
pub uninterp spec fn fdset_of(bytes: Seq<u8>) -> protobuf::descriptor::FileDescriptorSet;

/// protobuf's `FileDescriptorSet::parse_from_bytes`: the descriptor set that
/// `bytes` hold, or `None` when they do not hold one. Whether it succeeds, and
/// the set it gives, depend on `bytes` alone.
#[verifier::external_body]
pub(crate) fn parse_fdset(bytes: &[u8]) -> (r: Option<protobuf::descriptor::FileDescriptorSet>)
    ensures
        r is Some <==> is_fdset(bytes@),
        r is Some ==> r == Some(fdset_of(bytes@)),
{
    <protobuf::descriptor::FileDescriptorSet as protobuf::Message>::parse_from_bytes(bytes).ok()
}

/// The descriptor sets that the valid files among `files` hold, in the
/// order of the files; files that do not hold one are left out.
pub open spec fn valid_sets(files: Seq<Seq<u8>>) -> Seq<protobuf::descriptor::FileDescriptorSet>
    decreases files.len(),
{
    if files.len() == 0 {
        Seq::empty()
    } else {
        let rest = valid_sets(files.drop_last());
        if is_fdset(files.last()) {
            rest.push(fdset_of(files.last()))
        } else {
            rest
        }
    }
}

/// The byte strings of a list of vectors.
pub open spec fn contents_of(files: Seq<Vec<u8>>) -> Seq<Seq<u8>> {
    files.map_values(|f: Vec<u8>| f@)
}

/// The descriptor sets held by the given file contents, in order; files
/// that do not hold one are skipped.
pub fn get_loaded_descriptors(files: &Vec<Vec<u8>>) -> (r: Vec<protobuf::descriptor::FileDescriptorSet>)
    ensures
        r@ == valid_sets(contents_of(files@)),
{
    let ghost all = contents_of(files@);
    let mut descriptors: Vec<protobuf::descriptor::FileDescriptorSet> = Vec::new();
    let mut i: usize = 0;
    while i < files.len()
        invariant
            i <= files.len(),
            all == contents_of(files@),
            descriptors@ == valid_sets(all.take(i as int)),
        decreases files.len() - i,
    {
        proof {
            assert(all.take(i + 1).drop_last() =~= all.take(i as int));
            assert(all.take(i + 1).last() == files@[i as int]@);
        }
        match parse_fdset(files[i].as_slice()) {
            Some(x) => descriptors.push(x),
            None => {},
        }
        i = i + 1;
    }
    assert(all.take(files.len() as int) =~= all);
    descriptors
}

/// The descriptor sets of all of `files`, in order, or `None` when any of
/// them does not hold one.
pub fn parse_all_fdsets(files: &Vec<Vec<u8>>) -> (r: Option<Vec<protobuf::descriptor::FileDescriptorSet>>)
    ensures
        r is Some <==> forall|i: int| 0 <= i < files.len() ==> is_fdset(#[trigger] files@[i]@),
        r matches Some(v) ==> v@ == contents_of(files@).map_values(|b: Seq<u8>| fdset_of(b)),
{
    let mut sets: Vec<protobuf::descriptor::FileDescriptorSet> = Vec::new();
    let mut i: usize = 0;
    while i < files.len()
        invariant
            i <= files.len(),
            forall|k: int| 0 <= k < i ==> is_fdset(#[trigger] files@[k]@),
            sets@ == contents_of(files@).take(i as int).map_values(|b: Seq<u8>| fdset_of(b)),
        decreases files.len() - i,
    {
        match parse_fdset(files[i].as_slice()) {
            Some(x) => {
                let ghost before = sets@;
                sets.push(x);
                proof {
                    assert(contents_of(files@).take(i + 1) =~= contents_of(files@).take(i as int).push(files@[i as int]@));
                    assert(sets@ =~= contents_of(files@).take(i + 1).map_values(|b: Seq<u8>| fdset_of(b)));
                }
            },
            None => {
                return None;
            },
        }
        i = i + 1;
    }
    assert(contents_of(files@).take(files.len() as int) =~= contents_of(files@));
    Some(sets)
}

/// The directory `dir` with `name` appended as one more path component: a
/// `/` goes between them unless `dir` is empty or already ends in one.
pub open spec fn join_path(dir: Seq<u8>, name: Seq<u8>) -> Seq<u8> {
    if dir.len() == 0 || dir.last() == 0x2f {
        dir + name
    } else {
        dir + seq![0x2fu8] + name
    }
}

/// The bytes of `.pq`.
pub open spec fn dot_pq() -> Seq<u8> {
    seq![0x2eu8, 0x70, 0x71]
}

/// The bytes of `/etc/pq`.
pub open spec fn etc_pq() -> Seq<u8> {
    seq![0x2fu8, 0x65, 0x74, 0x63, 0x2f, 0x70, 0x71]
}

/// `dir/.pq`, for a home directory `dir` (an absolute or relative path).
pub fn home_pq_dir(home: &Vec<u8>) -> (r: Vec<u8>)
    ensures
        r@ == join_path(home@, dot_pq()),
{
    let mut r = crate::reader::copy_bytes(home.as_slice());
    if home.len() > 0 && home[home.len() - 1] != 0x2f {
        r.push(0x2f);
    }
    r.push(0x2e);
    r.push(0x70);
    r.push(0x71);
    proof {
        if home@.len() == 0 || home@.last() == 0x2f {
            assert(r@ =~= home@ + dot_pq());
        } else {
            assert(r@ =~= home@ + seq![0x2fu8] + dot_pq());
        }
    }
    r
}

/// `$FDSET_PATH`, as a list of the one directory it names when it is set.
pub open spec fn fdset_path_dirs(fdset_path: Option<Vec<u8>>) -> Seq<Seq<u8>> {
    match fdset_path {
        Some(p) => seq![p@],
        None => Seq::empty(),
    }
}

/// `~/.pq`, as a list of the one directory when the home directory is known.
pub open spec fn home_dirs(home: Option<Vec<u8>>) -> Seq<Seq<u8>> {
    match home {
        Some(h) => seq![join_path(h@, dot_pq())],
        None => Seq::empty(),
    }
}

/// The directories searched for fdset files, in order: `$FDSET_PATH` when it
/// is set, `~/.pq` when the home directory is known, the extra directories
/// given, and `/etc/pq`.
pub fn fdset_search_dirs(fdset_path: Option<Vec<u8>>, home: Option<Vec<u8>>, extra: &Vec<Vec<u8>>) -> (r: Vec<Vec<u8>>)
    ensures
        contents_of(r@) == fdset_path_dirs(fdset_path) + home_dirs(home) + contents_of(extra@) + seq![etc_pq()],
{
    let mut dirs: Vec<Vec<u8>> = Vec::new();
    let ghost first = fdset_path_dirs(fdset_path);
    let ghost second = home_dirs(home);
    match fdset_path {
        Some(p) => dirs.push(p),
        None => {},
    }
    match home {
        Some(h) => dirs.push(home_pq_dir(&h)),
        None => {},
    }
    assert(contents_of(dirs@) =~= first + second);
    let mut i: usize = 0;
    while i < extra.len()
        invariant
            i <= extra.len(),
            contents_of(dirs@) == first + second + contents_of(extra@).take(i as int),
        decreases extra.len() - i,
    {
        let ghost before = dirs@;
        dirs.push(crate::reader::copy_bytes(extra[i].as_slice()));
        proof {
            assert(contents_of(dirs@) =~= contents_of(before).push(extra@[i as int]@));
            assert(contents_of(extra@).take(i + 1) =~= contents_of(extra@).take(i as int).push(extra@[i as int]@));
        }
        i = i + 1;
    }
    assert(contents_of(extra@).take(extra.len() as int) =~= contents_of(extra@));
    let ghost before = dirs@;
    let etc: Vec<u8> = vec![0x2f, 0x65, 0x74, 0x63, 0x2f, 0x70, 0x71];
    dirs.push(etc);
    proof {
        assert(contents_of(dirs@) =~= contents_of(before).push(etc_pq()));
    }
    dirs
}

/// The paths of the entries of a directory listing that are not
/// directories, in order; each entry is its path and whether it is a
/// directory.
pub open spec fn file_entries(entries: Seq<(Vec<u8>, bool)>) -> Seq<Seq<u8>>
    decreases entries.len(),
{
    if entries.len() == 0 {
        Seq::empty()
    } else {
        let rest = file_entries(entries.drop_last());
        if entries.last().1 {
            rest
        } else {
            rest.push(entries.last().0@)
        }
    }
}

/// Every entry of a listing that is not a directory is kept, and nothing
/// else: the paths of the listing's non-directory entries, in order.
pub proof fn law_file_entries_are_the_files(entries: Seq<(Vec<u8>, bool)>)
    ensures
        file_entries(entries) == entries.filter(|e: (Vec<u8>, bool)| !e.1).map_values(|e: (Vec<u8>, bool)| e.0@),
    decreases entries.len(),
{
    reveal(Seq::filter);
    if entries.len() > 0 {
        law_file_entries_are_the_files(entries.drop_last());
        let pred = |e: (Vec<u8>, bool)| !e.1;
        let f = |e: (Vec<u8>, bool)| e.0@;
        assert(entries.filter(pred) == (if pred(entries.last()) {
            entries.drop_last().filter(pred).push(entries.last())
        } else {
            entries.drop_last().filter(pred)
        }));
        if pred(entries.last()) {
            assert(entries.drop_last().filter(pred).push(entries.last()).map_values(f)
                =~= entries.drop_last().filter(pred).map_values(f).push(entries.last().0@));
        }
    } else {
        assert(entries.filter(|e: (Vec<u8>, bool)| !e.1).map_values(|e: (Vec<u8>, bool)| e.0@) =~= Seq::<Seq<u8>>::empty());
    }
}

/// The paths of the entries of a directory listing that are not
/// directories, in order.
pub fn files_of_listing(entries: &Vec<(Vec<u8>, bool)>) -> (r: Vec<Vec<u8>>)
    ensures
        contents_of(r@) == file_entries(entries@),
        contents_of(r@) == entries@.filter(|e: (Vec<u8>, bool)| !e.1).map_values(|e: (Vec<u8>, bool)| e.0@),
{
    proof { law_file_entries_are_the_files(entries@); }
    let mut files: Vec<Vec<u8>> = Vec::new();
    let mut i: usize = 0;
    while i < entries.len()
        invariant
            i <= entries.len(),
            contents_of(files@) == file_entries(entries@.take(i as int)),
        decreases entries.len() - i,
    {
        proof {
            assert(entries@.take(i + 1).drop_last() =~= entries@.take(i as int));
            assert(entries@.take(i + 1).last() == entries@[i as int]);
        }
        if !entries[i].1 {
            let ghost before = files@;
            files.push(crate::reader::copy_bytes(entries[i].0.as_slice()));
            proof {
                assert(contents_of(files@) =~= contents_of(before).push(entries@[i as int].0@));
            }
        }
        i = i + 1;
    }
    assert(entries@.take(entries.len() as int) =~= entries@);
    files
}

/// The files of several directory listings, one listing after another.
pub open spec fn all_file_entries(listings: Seq<Vec<(Vec<u8>, bool)>>) -> Seq<Seq<u8>>
    decreases listings.len(),
{
    if listings.len() == 0 {
        Seq::empty()
    } else {
        all_file_entries(listings.drop_last()) + file_entries(listings.last()@)
    }
}

/// The paths of the entries that are not directories in each of the
/// directory listings `listings`, one listing after another, each in order.
pub fn files_of_listings(listings: &Vec<Vec<(Vec<u8>, bool)>>) -> (r: Vec<Vec<u8>>)
    ensures
        contents_of(r@) == all_file_entries(listings@),
{
    let mut files: Vec<Vec<u8>> = Vec::new();
    let mut i: usize = 0;
    while i < listings.len()
        invariant
            i <= listings.len(),
            contents_of(files@) == all_file_entries(listings@.take(i as int)),
        decreases listings.len() - i,
    {
        proof {
            assert(listings@.take(i + 1).drop_last() =~= listings@.take(i as int));
            assert(listings@.take(i + 1).last() == listings@[i as int]);
        }
        let ghost before = files@;
        let mut more = files_of_listing(&listings[i]);
        let ghost added = more@;
        files.append(&mut more);
        proof {
            assert(contents_of(files@) =~= contents_of(before) + contents_of(added));
        }
        i = i + 1;
    }
    assert(listings@.take(listings.len() as int) =~= listings@);
    files
}

} // verus!
