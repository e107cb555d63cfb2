use protobuf::Message;
use pq::discovery::{fdset_search_dirs, files_of_listing, files_of_listings, get_loaded_descriptors, home_pq_dir, parse_all_fdsets};
use pq::fdset_discovery::{fdset_dir, fdset_dir_files, get_loaded_descriptors as get_named_descriptors, DiscoveryError};

fn valid_fdset() -> Vec<u8> {
    named_fdset("dog.proto")
}

fn named_fdset(name: &str) -> Vec<u8> {
    let mut set = protobuf::descriptor::FileDescriptorSet::new();
    let mut file = protobuf::descriptor::FileDescriptorProto::new();
    file.set_name(String::from(name));
    set.mut_file().push(file);
    set.write_to_bytes().unwrap()
}

#[test]
fn loads_only_valid_sets() {
    let files = vec![valid_fdset(), vec![0xff, 0xff, 0xff], valid_fdset()];
    assert_eq!(get_loaded_descriptors(&files).len(), 2);
    assert_eq!(get_loaded_descriptors(&vec![vec![0x0a]]).len(), 0);
}

#[test]
fn named_sets_and_no_files_error() {
    let files = vec![(String::from("a.fdset"), vec![0x0a]), (String::from("b.fdset"), valid_fdset())];
    let loaded = get_named_descriptors("/dir", &files).unwrap();
    assert_eq!(loaded.len(), 1);
    assert_eq!(loaded[0].0, "b.fdset");
    match get_named_descriptors("/dir", &vec![(String::from("a"), vec![0x0a])]) {
        Err(DiscoveryError::NoFiles(p)) => assert_eq!(p, "/dir"),
        _ => panic!("expected NoFiles"),
    }
}

fn first_file_name(set: &protobuf::descriptor::FileDescriptorSet) -> String {
    set.get_file()[0].get_name().to_string()
}

#[test]
fn valid_sets_come_back_in_file_order() {
    let files = vec![named_fdset("a.proto"), vec![0xff, 0xff], named_fdset("b.proto"), named_fdset("c.proto")];
    let loaded = get_loaded_descriptors(&files);
    let names: Vec<String> = loaded.iter().map(first_file_name).collect();
    assert_eq!(names, vec!["a.proto", "b.proto", "c.proto"]);
}

#[test]
fn named_sets_pair_each_set_with_its_file() {
    let files = vec![
        (String::from("x.fdset"), named_fdset("x.proto")),
        (String::from("bad.fdset"), vec![0x0a]),
        (String::from("y.fdset"), named_fdset("y.proto")),
    ];
    let loaded = get_named_descriptors("/dir", &files).unwrap();
    assert_eq!(loaded.len(), 2);
    assert_eq!((loaded[0].0.as_str(), first_file_name(&loaded[0].1).as_str()), ("x.fdset", "x.proto"));
    assert_eq!((loaded[1].0.as_str(), first_file_name(&loaded[1].1).as_str()), ("y.fdset", "y.proto"));
}

#[test]
fn parse_all_needs_every_file_valid() {
    let good = vec![named_fdset("a.proto"), named_fdset("b.proto")];
    let sets = parse_all_fdsets(&good).unwrap();
    assert_eq!(sets.iter().map(first_file_name).collect::<Vec<_>>(), vec!["a.proto", "b.proto"]);
    assert!(parse_all_fdsets(&vec![named_fdset("a.proto"), vec![0x0a]]).is_none());
    assert_eq!(parse_all_fdsets(&vec![]).unwrap().len(), 0);
}

#[test]
fn search_dirs_in_documented_order() {
    let extra = vec![b"./extra".to_vec()];
    let dirs = fdset_search_dirs(Some(b"/fds".to_vec()), Some(b"/home/u".to_vec()), &extra);
    assert_eq!(
        dirs,
        vec![b"/fds".to_vec(), b"/home/u/.pq".to_vec(), b"./extra".to_vec(), b"/etc/pq".to_vec()]
    );
    assert_eq!(fdset_search_dirs(None, None, &vec![]), vec![b"/etc/pq".to_vec()]);
}

#[test]
fn home_dir_joins_like_a_path() {
    assert_eq!(home_pq_dir(&b"/root/".to_vec()), b"/root/.pq".to_vec());
    assert_eq!(home_pq_dir(&b"/root".to_vec()), b"/root/.pq".to_vec());
    assert_eq!(home_pq_dir(&Vec::new()), b".pq".to_vec());
    let std_join = std::path::PathBuf::from("/root").join(".pq");
    assert_eq!(std_join.to_str().unwrap().as_bytes(), home_pq_dir(&b"/root".to_vec()).as_slice());
}

#[test]
fn listing_keeps_files_only() {
    let entries = vec![(b"/d/a".to_vec(), false), (b"/d/sub".to_vec(), true), (b"/d/b".to_vec(), false)];
    assert_eq!(files_of_listing(&entries), vec![b"/d/a".to_vec(), b"/d/b".to_vec()]);
}

#[test]
fn fdset_dir_prefers_the_variable() {
    assert_eq!(fdset_dir(Some(b"/fds".to_vec()), Some(b"/h".to_vec())).unwrap(), b"/fds".to_vec());
    assert_eq!(fdset_dir(None, Some(b"/h".to_vec())).unwrap(), b"/h/.pq".to_vec());
    assert!(matches!(fdset_dir(None, None), Err(DiscoveryError::NoHome)));
}

#[test]
fn fdset_dir_files_errors() {
    assert!(matches!(fdset_dir_files("/x", None), Err(DiscoveryError::NoFdsetPath(p)) if p == "/x"));
    assert!(matches!(
        fdset_dir_files("/x", Some(vec![(b"/x/sub".to_vec(), true)])),
        Err(DiscoveryError::NoFiles(p)) if p == "/x"
    ));
    assert_eq!(
        fdset_dir_files("/x", Some(vec![(b"/x/a".to_vec(), false)])).unwrap(),
        vec![b"/x/a".to_vec()]
    );
}

#[test]
fn listings_are_concatenated_in_order() {
    let listings = vec![
        vec![(b"/a/x".to_vec(), false), (b"/a/d".to_vec(), true)],
        vec![],
        vec![(b"/b/y".to_vec(), false), (b"/b/z".to_vec(), false)],
    ];
    assert_eq!(
        files_of_listings(&listings),
        vec![b"/a/x".to_vec(), b"/b/y".to_vec(), b"/b/z".to_vec()]
    );
}
