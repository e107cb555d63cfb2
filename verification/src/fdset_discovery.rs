use vstd::prelude::*;
use crate::discovery::{
    contents_of, dot_pq, fdset_of, file_entries, files_of_listing, home_pq_dir, is_fdset, join_path, parse_fdset,
};

verus! {

/// Why no fdset files could be found.
#[derive(Debug)]
pub enum DiscoveryError {
    /// The home directory is not known.
    NoHome,
    /// The fdset directory does not exist.
    NoFdsetPath(String),
    /// The fdset directory holds no valid fdset file.
    NoFiles(String),
}

impl DiscoveryError {
    /// A short description of the error kind.
    pub fn description(&self) -> (r: &'static str)
        ensures
            r@ == (match self {
                DiscoveryError::NoHome => "$HOME not defined"@,
                DiscoveryError::NoFdsetPath(_) => "fdset_path doesn't exist"@,
                DiscoveryError::NoFiles(_) => "no files in fdset_path"@,
            }),
    {
        match self {
            DiscoveryError::NoHome => "$HOME not defined",
            DiscoveryError::NoFdsetPath(_) => "fdset_path doesn't exist",
            DiscoveryError::NoFiles(_) => "no files in fdset_path",
        }
    }

    /// The full human-readable message of the error.
    pub fn message(&self) -> (r: String)
        ensures
            r@ == (match self {
                DiscoveryError::NoHome => "$HOME not defined"@,
                DiscoveryError::NoFdsetPath(p) => "Path "@ + p@ + " doesn't exist"@,
                DiscoveryError::NoFiles(p) => "No valid fdset files in path "@ + p@,
            }),
    {
        match self {
            DiscoveryError::NoHome => String::from_str("$HOME not defined"),
            DiscoveryError::NoFdsetPath(p) => {
                let mut s = String::from_str("Path ");
                s.append(p.as_str());
                s.append(" doesn't exist");
                s
            },
            DiscoveryError::NoFiles(p) => {
                let mut s = String::from_str("No valid fdset files in path ");
                s.append(p.as_str());
                s
            },
        }
    }

    /// Whether another error lies beneath this one; none ever does.
    pub fn has_cause(&self) -> (r: bool)
        ensures
            !r,
    {
        false
    }
}

/// The files that hold a valid descriptor set, in order, each as its name
/// and the set it holds.
pub open spec fn valid_named(files: Seq<(String, Vec<u8>)>) -> Seq<(Seq<char>, protobuf::descriptor::FileDescriptorSet)>
    decreases files.len(),
{
    if files.len() == 0 {
        Seq::empty()
    } else {
        let rest = valid_named(files.drop_last());
        if is_fdset(files.last().1@) {
            rest.push((files.last().0@, fdset_of(files.last().1@)))
        } else {
            rest
        }
    }
}

/// A list of named descriptor sets, each name taken by its view.
pub open spec fn named_sets(d: Seq<(String, protobuf::descriptor::FileDescriptorSet)>) -> Seq<(Seq<char>, protobuf::descriptor::FileDescriptorSet)> {
    d.map_values(|e: (String, protobuf::descriptor::FileDescriptorSet)| (e.0@, e.1))
}

/// The descriptor sets held by the files found in the fdset directory
/// `fdset_path`, each with its file's path, in the order of the files;
/// files that do not hold one are skipped, and when none does, that is the
/// error `NoFiles`.
pub fn get_loaded_descriptors(fdset_path: &str, files: &Vec<(String, Vec<u8>)>) -> (r: Result<
    Vec<(String, protobuf::descriptor::FileDescriptorSet)>,
    DiscoveryError,
>)
    ensures
        valid_named(files@).len() == 0 ==> (r matches Err(DiscoveryError::NoFiles(p)) && p@ == fdset_path@),
        valid_named(files@).len() > 0 ==> (r matches Ok(d) && named_sets(d@) == valid_named(files@)),
{
    let mut descriptors: Vec<(String, protobuf::descriptor::FileDescriptorSet)> = Vec::new();
    let mut i: usize = 0;
    while i < files.len()
        invariant
            i <= files.len(),
            named_sets(descriptors@) == valid_named(files@.take(i as int)),
        decreases files.len() - i,
    {
        proof {
            assert(files@.take(i + 1).drop_last() =~= files@.take(i as int));
            assert(files@.take(i + 1).last() == files@[i as int]);
        }
        let ghost before = descriptors@;
        match parse_fdset(files[i].1.as_slice()) {
            Some(x) => {
                let name = files[i].0.clone();
                descriptors.push((name, x));
                proof {
                    assert(named_sets(descriptors@) =~= named_sets(before).push(
                        (files@[i as int].0@, fdset_of(files@[i as int].1@)),
                    ));
                }
            },
            None => {},
        }
        i = i + 1;
    }
    assert(files@.take(files.len() as int) =~= files@);
    if descriptors.len() == 0 {
        return Err(DiscoveryError::NoFiles(String::from_str(fdset_path)));
    }
    Ok(descriptors)
}

/// The directory searched for fdset files: `$FDSET_PATH` when it is set,
/// else `.pq` in the home directory; `NoHome` when neither is known.
pub fn fdset_dir(fdset_path: Option<Vec<u8>>, home: Option<Vec<u8>>) -> (r: Result<Vec<u8>, DiscoveryError>)
    ensures
        match fdset_path {
            Some(p) => r matches Ok(d) && d@ == p@,
            None => match home {
                Some(h) => r matches Ok(d) && d@ == join_path(h@, dot_pq()),
                None => r matches Err(DiscoveryError::NoHome),
            },
        },
{
    match fdset_path {
        Some(p) => Ok(p),
        None => match home {
            Some(h) => Ok(home_pq_dir(&h)),
            None => Err(DiscoveryError::NoHome),
        },
    }
}

/// The files listed in the fdset directory `dir_name`, where `listing` is
/// its entries (each a path and whether it is a directory), or `None` when
/// the directory could not be read: `NoFdsetPath` then, and `NoFiles` when
/// no entry is a file.
pub fn fdset_dir_files(dir_name: &str, listing: Option<Vec<(Vec<u8>, bool)>>) -> (r: Result<Vec<Vec<u8>>, DiscoveryError>)
    ensures
        match listing {
            None => r matches Err(DiscoveryError::NoFdsetPath(p)) && p@ == dir_name@,
            Some(es) => if file_entries(es@).len() == 0 {
                r matches Err(DiscoveryError::NoFiles(p)) && p@ == dir_name@
            } else {
                r matches Ok(fs) && contents_of(fs@) == file_entries(es@)
            },
        },
{
    match listing {
        None => Err(DiscoveryError::NoFdsetPath(String::from_str(dir_name))),
        Some(es) => {
            let files = files_of_listing(&es);
            if files.len() == 0 {
                Err(DiscoveryError::NoFiles(String::from_str(dir_name)))
            } else {
                Ok(files)
            }
        },
    }
}

} // verus!
