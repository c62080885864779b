use exex_loader::discovery::{
    exex_id_of, load_library_paths, DirEntryInfo, DirListing, DiscoveryError, DylibNaming,
};
use std::path::PathBuf;

fn unix_naming() -> DylibNaming {
    DylibNaming { prefix: "lib".to_string(), suffix: ".so".to_string() }
}

fn file(dir: &str, name: &str) -> Option<DirEntryInfo<PathBuf>> {
    Some(DirEntryInfo {
        file_name: Some(name.to_string()),
        is_file: true,
        path: PathBuf::from(dir).join(name),
    })
}

fn subdir(dir: &str, name: &str) -> Option<DirEntryInfo<PathBuf>> {
    Some(DirEntryInfo {
        file_name: Some(name.to_string()),
        is_file: false,
        path: PathBuf::from(dir).join(name),
    })
}

#[test]
fn id_strips_prefix_and_suffix() {
    assert_eq!(exex_id_of(&unix_naming(), "libfoo.so"), Some("foo".to_string()));
    assert_eq!(exex_id_of(&unix_naming(), "libmy_exex.so"), Some("my_exex".to_string()));
}

#[test]
fn id_rejects_wrong_suffix_or_prefix() {
    let naming = unix_naming();
    assert_eq!(exex_id_of(&naming, "libfoo.dylib"), None);
    assert_eq!(exex_id_of(&naming, "foo.so"), None);
    assert_eq!(exex_id_of(&naming, "readme.txt"), None);
    assert_eq!(exex_id_of(&naming, "libfoo.so.1"), None);
}

#[test]
fn id_of_bare_prefix_and_suffix_is_empty() {
    assert_eq!(exex_id_of(&unix_naming(), "lib.so"), Some(String::new()));
    assert_eq!(exex_id_of(&unix_naming(), "libso"), None);
    assert_eq!(exex_id_of(&unix_naming(), ""), None);
}

#[test]
fn id_with_empty_prefix() {
    let naming = DylibNaming { prefix: String::new(), suffix: ".dll".to_string() };
    assert_eq!(exex_id_of(&naming, "foo.dll"), Some("foo".to_string()));
    assert_eq!(exex_id_of(&naming, "foo.so"), None);
}

#[test]
fn non_directory_is_rejected() {
    let listing = DirListing { is_dir: false, entries: vec![file("/x", "libfoo.so")] };
    assert_eq!(load_library_paths(listing, &unix_naming()), Err(DiscoveryError::InvalidDirectory));
}

#[test]
fn empty_directory_yields_nothing() {
    let listing: DirListing<PathBuf> = DirListing { is_dir: true, entries: vec![] };
    assert_eq!(load_library_paths(listing, &unix_naming()), Ok(vec![]));
}

#[test]
fn non_matching_entries_are_excluded() {
    let listing = DirListing {
        is_dir: true,
        entries: vec![
            file("/x", "libfoo.dylib"),
            file("/x", "foo.so"),
            subdir("/x", "libdir.so"),
            None,
            Some(DirEntryInfo { file_name: None, is_file: true, path: PathBuf::from("/x/odd") }),
        ],
    };
    assert_eq!(load_library_paths(listing, &unix_naming()), Ok(vec![]));
}

#[test]
fn matching_file_yields_id_and_path() {
    let listing = DirListing { is_dir: true, entries: vec![file("/exex", "libfoo.so")] };
    assert_eq!(
        load_library_paths(listing, &unix_naming()),
        Ok(vec![("foo".to_string(), PathBuf::from("/exex/libfoo.so"))])
    );
}

#[test]
fn duplicate_identifier_first_wins() {
    let naming = DylibNaming { prefix: String::new(), suffix: ".so".to_string() };
    let listing = DirListing {
        is_dir: true,
        entries: vec![file("/a", "foo.so"), file("/b", "bar.so"), file("/c", "foo.so")],
    };
    assert_eq!(
        load_library_paths(listing, &naming),
        Ok(vec![
            ("bar".to_string(), PathBuf::from("/b/bar.so")),
            ("foo".to_string(), PathBuf::from("/a/foo.so")),
        ])
    );
}

#[test]
fn two_libraries_and_a_readme() {
    let listing = DirListing {
        is_dir: true,
        entries: vec![file("/exex", "libfoo.so"), file("/exex", "readme.txt"), file("/exex", "libbar.so")],
    };
    let found = load_library_paths(listing, &unix_naming()).unwrap();
    assert_eq!(found.len(), 2);
    assert_eq!(found[0], ("bar".to_string(), PathBuf::from("/exex/libbar.so")));
    assert_eq!(found[1], ("foo".to_string(), PathBuf::from("/exex/libfoo.so")));
}

#[test]
fn results_are_sorted_by_identifier() {
    let listing = DirListing {
        is_dir: true,
        entries: vec![
            file("/e", "libb.so"),
            file("/e", "libz\u{e9}.so"),
            file("/e", "liba.so"),
            file("/e", "libab.so"),
            file("/e", "lib\u{e9}.so"),
            file("/e", "libz.so"),
        ],
    };
    let ids: Vec<String> =
        load_library_paths(listing, &unix_naming()).unwrap().into_iter().map(|(id, _)| id).collect();
    assert_eq!(ids, vec!["a", "ab", "b", "z", "z\u{e9}", "\u{e9}"]);
    let mut sorted = ids.clone();
    sorted.sort();
    assert_eq!(ids, sorted);
}

#[test]
fn bare_prefix_and_suffix_file_is_found_with_empty_id() {
    let listing = DirListing { is_dir: true, entries: vec![file("/e", "lib.so"), file("/e", "libx.so")] };
    assert_eq!(
        load_library_paths(listing, &unix_naming()),
        Ok(vec![
            (String::new(), PathBuf::from("/e/lib.so")),
            ("x".to_string(), PathBuf::from("/e/libx.so")),
        ])
    );
}
