use stryde_index::locator::{
    get_all_apps, get_default_search_paths, has_desktop_ext, host_search_paths, DirListing,
    FileEntry,
};

#[test]
fn candidate_paths_in_insertion_order() {
    let paths = get_default_search_paths(Some("/opt/share:/custom"), Some("/home/user"));
    assert_eq!(
        paths,
        vec![
            "/usr/share/applications",
            "/usr/share/xsessions",
            "/etc/xdg/autostart",
            "/var/lib/snapd/desktop/applications",
            "/home/user/.local/share/applications",
            "/opt/share",
            "/custom",
        ]
    );
}

#[test]
fn duplicates_collapse_keeping_the_first() {
    let paths = get_default_search_paths(
        Some("/usr/share/applications:/custom:/custom"),
        Some("/home/user"),
    );
    assert_eq!(
        paths,
        vec![
            "/usr/share/applications",
            "/usr/share/xsessions",
            "/etc/xdg/autostart",
            "/var/lib/snapd/desktop/applications",
            "/home/user/.local/share/applications",
            "/custom",
        ]
    );
}

#[test]
fn unset_search_variable_falls_back_to_one_default() {
    let paths = get_default_search_paths(None, Some("/root"));
    assert_eq!(paths.last().map(String::as_str), Some("/usr/share"));
    assert_eq!(paths.len(), 6);
}

#[test]
fn missing_home_gives_the_bare_user_directory() {
    let paths = get_default_search_paths(None, None);
    assert!(paths.contains(&".local/share/applications".to_string()));
}

#[test]
fn host_lookup_keeps_the_fixed_directories_first() {
    let paths = host_search_paths(Some("/somewhere/else"));
    assert_eq!(
        &paths[0..4],
        &[
            "/usr/share/applications",
            "/usr/share/xsessions",
            "/etc/xdg/autostart",
            "/var/lib/snapd/desktop/applications",
        ]
    );
    assert_eq!(paths.last().map(String::as_str), Some("/somewhere/else"));
}

#[test]
fn recognizes_the_desktop_extension() {
    assert!(has_desktop_ext("/usr/share/applications/firefox.desktop"));
    assert!(has_desktop_ext("bare.desktop"));
    assert!(!has_desktop_ext("/a/b.txt"));
    assert!(!has_desktop_ext("/a/desktop"));
    assert!(!has_desktop_ext("/a/.desktop"));
    assert!(!has_desktop_ext("/a/b.desktop/"));
    assert!(!has_desktop_ext("/a/b."));
}

fn entry(path: &str, is_file: bool) -> FileEntry {
    FileEntry { path: path.to_string(), is_file }
}

#[test]
fn keeps_only_desktop_files_from_found_directories() {
    let listings = vec![
        DirListing {
            found: true,
            entries: vec![
                entry("/apps/a.desktop", true),
                entry("/apps/readme.txt", true),
                entry("/apps/dir.desktop", false),
            ],
        },
        DirListing { found: false, entries: vec![entry("/gone/x.desktop", true)] },
        DirListing { found: true, entries: vec![entry("/more/b.desktop", true)] },
    ];
    assert_eq!(get_all_apps(&listings), vec!["/apps/a.desktop", "/more/b.desktop"]);
}

#[test]
fn same_file_listed_twice_appears_once() {
    let shared = DirListing { found: true, entries: vec![entry("/apps/a.desktop", true)] };
    let listings = vec![shared.clone(), shared];
    assert_eq!(get_all_apps(&listings), vec!["/apps/a.desktop"]);
}

#[test]
fn no_directories_no_files() {
    assert_eq!(get_all_apps(&vec![]), Vec::<String>::new());
}
