use yunxi_webdisk::listing::{
    build_entry, build_parent_entry, find_insert_point, get_directory_entries, is_directory, DirEntryInfo,
    FileEntry,
};

fn file(name: &str, size: u64) -> DirEntryInfo {
    DirEntryInfo {
        name: name.to_string(),
        size,
        is_symlink: false,
        is_dir: false,
        target_is_dir: None,
        modified: "2024-01-02 03:04:05".to_string(),
    }
}

fn dir(name: &str) -> DirEntryInfo {
    DirEntryInfo { is_dir: true, size: 4096, ..file(name, 0) }
}

fn link(name: &str, target_is_dir: Option<bool>) -> DirEntryInfo {
    DirEntryInfo { is_symlink: true, target_is_dir, size: 7, ..file(name, 0) }
}

fn names(entries: &[FileEntry]) -> Vec<String> {
    entries.iter().map(|e| e.name.clone()).collect()
}

#[test]
fn directories_come_first_and_names_ignore_case() {
    let infos = vec![file("b.txt", 10), dir("A")];
    let entries = get_directory_entries(Some(&infos[..]), true);
    assert_eq!(names(&entries), ["A", "b.txt"]);
    assert!(entries[0].is_dir);
    assert_eq!(entries[0].size_string, "目录");
    assert_eq!(entries[0].icon, "📁");
    assert!(!entries[1].is_dir);
    assert_eq!(entries[1].size_string, "10 B");
    assert_eq!(entries[1].icon, "📄");
    assert_eq!(entries[1].display_name, "b.txt");
    assert_eq!(entries[1].modified_time, "2024-01-02 03:04:05");
    assert_eq!(entries[1].preview_url, "");
}

#[test]
fn parent_entry_leads_everywhere_but_at_the_root() {
    let infos = vec![file("x", 1)];
    let below = get_directory_entries(Some(&infos[..]), false);
    assert_eq!(names(&below), ["..", "x"]);
    let parent = &below[0];
    assert_eq!(parent.display_name, "返回上级目录");
    assert_eq!(parent.size_string, "");
    assert_eq!(parent.modified_time, "");
    assert!(parent.is_dir);
    assert_eq!(parent.icon, "📁");
    assert_eq!(parent.preview_url, "");
    let built = build_parent_entry();
    assert_eq!(built.name, "..");
    let root = get_directory_entries(Some(&infos[..]), true);
    assert_eq!(names(&root), ["x"]);
}

#[test]
fn unreadable_directory_lists_nothing() {
    assert!(get_directory_entries(None, true).is_empty());
    let below = get_directory_entries(None, false);
    assert_eq!(names(&below), [".."]);
    let empty: Vec<DirEntryInfo> = Vec::new();
    assert!(get_directory_entries(Some(&empty[..]), true).is_empty());
}

#[test]
fn order_is_by_lowercase_name_within_each_group() {
    let infos = vec![
        file("delta", 1),
        dir("zeta"),
        file("Alpha", 1),
        dir("Beta"),
        file("charlie", 1),
        dir("alpha"),
        file("Bravo", 1),
    ];
    let entries = get_directory_entries(Some(&infos[..]), true);
    assert_eq!(names(&entries), ["alpha", "Beta", "zeta", "Alpha", "Bravo", "charlie", "delta"]);
}

#[test]
fn equal_keys_keep_the_order_of_reading() {
    let infos = vec![file("README", 1), file("readme", 2), file("ReadMe", 3), file("a", 4), file("Readme", 5)];
    let entries = get_directory_entries(Some(&infos[..]), true);
    assert_eq!(names(&entries), ["a", "README", "readme", "ReadMe", "Readme"]);
}

#[test]
fn listing_twice_gives_the_same() {
    let infos = vec![file("b", 1), dir("c"), link("a", Some(true)), file("B", 2), link("d", None)];
    let one = get_directory_entries(Some(&infos[..]), false);
    let two = get_directory_entries(Some(&infos[..]), false);
    assert_eq!(one.len(), two.len());
    for (x, y) in one.iter().zip(two.iter()) {
        assert_eq!(x.name, y.name);
        assert_eq!(x.display_name, y.display_name);
        assert_eq!(x.size_string, y.size_string);
        assert_eq!(x.modified_time, y.modified_time);
        assert_eq!(x.is_dir, y.is_dir);
        assert_eq!(x.icon, y.icon);
        assert_eq!(x.preview_url, y.preview_url);
    }
}

#[test]
fn symbolic_links_count_as_their_target() {
    assert!(is_directory(false, true, None));
    assert!(!is_directory(false, false, Some(true)));
    assert!(is_directory(true, false, Some(true)));
    assert!(!is_directory(true, false, Some(false)));
    assert!(!is_directory(true, true, None));
    assert!(!is_directory(true, false, None));
}

#[test]
fn a_link_is_marked_in_the_shown_name_only() {
    let to_dir = build_entry(&link("docs", Some(true)));
    assert_eq!(to_dir.name, "docs");
    assert_eq!(to_dir.display_name, "docs ");
    assert!(to_dir.is_dir);
    assert_eq!(to_dir.icon, "📁");
    assert_eq!(to_dir.size_string, "目录");
    let to_file = build_entry(&link("song.mp3", Some(false)));
    assert_eq!(to_file.display_name, "song.mp3 ");
    assert!(!to_file.is_dir);
    assert_eq!(to_file.icon, "🔗");
    assert_eq!(to_file.size_string, "7 B");
    assert_eq!(to_file.preview_url, "./song.mp3");
    let broken = build_entry(&link("gone", None));
    assert!(!broken.is_dir);
    assert_eq!(broken.icon, "🔗");
}

#[test]
fn previews_are_for_files_only() {
    let picture = build_entry(&file("Photo.JPG", 2048));
    assert_eq!(picture.preview_url, "./Photo.JPG");
    assert_eq!(picture.icon, "🖼\u{fe0f}");
    assert_eq!(picture.size_string, "2.00 KB");
    let folder = build_entry(&dir("album.jpg"));
    assert_eq!(folder.preview_url, "");
    assert_eq!(folder.icon, "📁");
    let text = build_entry(&file("notes.txt", 0));
    assert_eq!(text.preview_url, "");
    assert_eq!(text.size_string, "0 B");
}

#[test]
fn insert_point_is_behind_equal_keys() {
    let keys: Vec<Vec<char>> = ["a", "b", "b", "d"].iter().map(|s| s.chars().collect()).collect();
    let at = |k: &str| find_insert_point(&keys, &k.chars().collect::<Vec<char>>()[..]);
    assert_eq!(at(""), 0);
    assert_eq!(at("a"), 1);
    assert_eq!(at("b"), 3);
    assert_eq!(at("c"), 3);
    assert_eq!(at("d"), 4);
    assert_eq!(at("e"), 4);
    assert_eq!(find_insert_point(&Vec::new(), &['x'][..]), 0);
}

#[test]
fn listing_agrees_with_a_stable_sort() {
    let raw = [
        "b", "B", "a", "A", "é", "É", "z10", "z9", "Z", "", " ", "ß", "SS", "ss", "readme.MD", "README.md",
        "i", "I", "İ", "ı",
    ];
    let mut infos: Vec<DirEntryInfo> = Vec::new();
    for (i, name) in raw.iter().enumerate() {
        if i % 3 == 0 {
            infos.push(dir(name));
        } else if i % 3 == 1 {
            infos.push(file(name, i as u64));
        } else {
            infos.push(link(name, if i % 2 == 0 { Some(true) } else { None }));
        }
    }
    let entries = get_directory_entries(Some(&infos[..]), true);
    let built: Vec<FileEntry> = infos.iter().map(build_entry).collect();
    let mut dirs: Vec<&FileEntry> = built.iter().filter(|e| e.is_dir).collect();
    let mut files: Vec<&FileEntry> = built.iter().filter(|e| !e.is_dir).collect();
    dirs.sort_by(|a, b| a.display_name.to_lowercase().cmp(&b.display_name.to_lowercase()));
    files.sort_by(|a, b| a.display_name.to_lowercase().cmp(&b.display_name.to_lowercase()));
    let expected: Vec<String> = dirs.iter().chain(files.iter()).map(|e| e.display_name.clone()).collect();
    let got: Vec<String> = entries.iter().map(|e| e.display_name.clone()).collect();
    assert_eq!(got, expected);
}
