//! The index of a directory: one entry for each child, directories before
//! files, each group in order of name without regard to case, and an entry
//! for the parent directory in front wherever the directory is not the
//! root.

use vstd::prelude::*;
use crate::filetype::{file_icon, get_file_icon, is_previewable, previewable, IconKind};
use crate::size::{format_size, size_label};
use crate::text::{chars_lt, chars_of, lemma_lex_le_transitive, lemma_lex_lt_irreflexive,
    lemma_lex_lt_total, lex_le, lex_lt, lowercase_of, push_str, string_of, to_lowercase};

verus! {

/// What the file system reports of one child of a directory.
#[derive(Clone, Debug)]
pub struct DirEntryInfo {
    /// The name of the child.
    pub name: String,
    /// Its size in bytes.
    pub size: u64,
    /// Whether the child is a symbolic link.
    pub is_symlink: bool,
    /// Whether the child itself is a directory.
    pub is_dir: bool,
    /// For a symbolic link: whether its target is a directory, or `None`
    /// where the target cannot be reached.
    pub target_is_dir: Option<bool>,
    /// The time of the last change, already rendered.
    pub modified: String,
}

/// The mathematical content of a `DirEntryInfo`.
pub struct DirEntrySpec {
    pub name: Seq<char>,
    pub size: nat,
    pub is_symlink: bool,
    pub is_dir: bool,
    pub target_is_dir: Option<bool>,
    pub modified: Seq<char>,
}

impl View for DirEntryInfo {
    type V = DirEntrySpec;

    open spec fn view(&self) -> DirEntrySpec {
        DirEntrySpec {
            name: self.name@,
            size: self.size as nat,
            is_symlink: self.is_symlink,
            is_dir: self.is_dir,
            target_is_dir: self.target_is_dir,
            modified: self.modified@,
        }
    }
}

/// One line of an index page.
#[derive(Clone, Debug)]
pub struct FileEntry {
    /// The name, as used in links.
    pub name: String,
    /// The name as shown; a symbolic link is marked.
    pub display_name: String,
    /// The size as shown.
    pub size_string: String,
    /// The time of the last change as shown.
    pub modified_time: String,
    /// Whether the entry leads to a directory.
    pub is_dir: bool,
    /// The icon.
    pub icon: String,
    /// The address of the preview, or empty where none is offered.
    pub preview_url: String,
}

/// The mathematical content of a `FileEntry`.
pub struct FileEntrySpec {
    pub name: Seq<char>,
    pub display_name: Seq<char>,
    pub size_string: Seq<char>,
    pub modified_time: Seq<char>,
    pub is_dir: bool,
    pub icon: Seq<char>,
    pub preview_url: Seq<char>,
}

impl View for FileEntry {
    type V = FileEntrySpec;

    open spec fn view(&self) -> FileEntrySpec {
        FileEntrySpec {
            name: self.name@,
            display_name: self.display_name@,
            size_string: self.size_string@,
            modified_time: self.modified_time@,
            is_dir: self.is_dir,
            icon: self.icon@,
            preview_url: self.preview_url@,
        }
    }
}

/// The contents of a sequence of entries.
pub open spec fn entry_views(entries: Seq<FileEntry>) -> Seq<FileEntrySpec> {
    entries.map_values(|e: FileEntry| e@)
}

/// The contents of a sequence of keys.
pub open spec fn key_views(keys: Seq<Vec<char>>) -> Seq<Seq<char>> {
    keys.map_values(|k: Vec<char>| k@)
}

/// The contents of what was read of a directory.
pub open spec fn info_views(infos: Seq<DirEntryInfo>) -> Seq<DirEntrySpec> {
    infos.map_values(|i: DirEntryInfo| i@)
}

/// Whether a child counts as a directory. A symbolic link counts as what
/// its target is, and as a file where the target cannot be reached; any
/// other child counts as what it is.
pub open spec fn counts_as_directory(
    is_symlink: bool,
    is_dir: bool,
    target_is_dir: Option<bool>,
) -> bool {
    if is_symlink {
        target_is_dir == Some(true)
    } else {
        is_dir
    }
}

/// The entry shown for a child.
pub open spec fn entry_of(info: DirEntrySpec) -> FileEntrySpec {
    let is_dir = counts_as_directory(info.is_symlink, info.is_dir, info.target_is_dir);
    FileEntrySpec {
        name: info.name,
        display_name: if info.is_symlink {
            info.name + seq![' ']
        } else {
            info.name
        },
        size_string: if is_dir {
            "目录"@
        } else {
            size_label(info.size)
        },
        modified_time: info.modified,
        is_dir,
        icon: if is_dir {
            IconKind::Directory.glyph_spec()
        } else if info.is_symlink {
            IconKind::Link.glyph_spec()
        } else {
            file_icon(info.name)
        },
        preview_url: if previewable(info.name) && !is_dir {
            "./"@ + info.name
        } else {
            Seq::<char>::empty()
        },
    }
}

/// The entry that leads to the parent directory.
pub open spec fn parent_entry() -> FileEntrySpec {
    FileEntrySpec {
        name: ".."@,
        display_name: "返回上级目录"@,
        size_string: Seq::<char>::empty(),
        modified_time: Seq::<char>::empty(),
        is_dir: true,
        icon: IconKind::Directory.glyph_spec(),
        preview_url: Seq::<char>::empty(),
    }
}

/// What an entry is ordered by: its shown name in lowercase.
pub open spec fn sort_key(entry: FileEntrySpec) -> Seq<char> {
    lowercase_of(entry.display_name)
}

/// The keys of a sequence of entries.
pub open spec fn keys_of(entries: Seq<FileEntrySpec>) -> Seq<Seq<char>> {
    entries.map_values(|e: FileEntrySpec| sort_key(e))
}

/// Whether keys ascend, equal ones allowed.
pub open spec fn keys_ordered(keys: Seq<Seq<char>>) -> bool {
    forall|i: int, j: int| 0 <= i < j < keys.len() ==> lex_le(#[trigger] keys[i], #[trigger] keys[j])
}

/// Where a new key goes among ordered keys: behind every key that is not
/// greater, so behind its equals.
pub open spec fn insert_point(keys: Seq<Seq<char>>, key: Seq<char>) -> int
    decreases keys.len(),
{
    if keys.len() > 0 && lex_lt(key, keys.last()) {
        insert_point(keys.drop_last(), key)
    } else {
        keys.len() as int
    }
}

/// The entries in order of key; entries with equal keys stay in the order
/// in which they came.
pub open spec fn sort_entries(entries: Seq<FileEntrySpec>) -> Seq<FileEntrySpec>
    decreases entries.len(),
{
    if entries.len() == 0 {
        Seq::<FileEntrySpec>::empty()
    } else {
        let front = sort_entries(entries.drop_last());
        front.insert(insert_point(keys_of(front), sort_key(entries.last())), entries.last())
    }
}

/// The directories among the entries, or the files, in the order in which
/// they came.
pub open spec fn select(entries: Seq<FileEntrySpec>, dirs: bool) -> Seq<FileEntrySpec>
    decreases entries.len(),
{
    if entries.len() == 0 {
        Seq::<FileEntrySpec>::empty()
    } else if entries.last().is_dir == dirs {
        select(entries.drop_last(), dirs).push(entries.last())
    } else {
        select(entries.drop_last(), dirs)
    }
}

/// The entry for the parent directory, except at the root.
pub open spec fn parent_part(at_root: bool) -> Seq<FileEntrySpec> {
    if at_root {
        Seq::<FileEntrySpec>::empty()
    } else {
        seq![parent_entry()]
    }
}

/// The index of a directory whose children are `infos`.
pub open spec fn listing(infos: Seq<DirEntrySpec>, at_root: bool) -> Seq<FileEntrySpec> {
    let all = infos.map_values(|i: DirEntrySpec| entry_of(i));
    parent_part(at_root) + sort_entries(select(all, true)) + sort_entries(select(all, false))
}

/// The children that were read, or none where the directory could not be
/// read.
pub open spec fn children(read: Option<&[DirEntryInfo]>) -> Seq<DirEntrySpec> {
    match read {
        Some(infos) => info_views(infos@),
        None => Seq::<DirEntrySpec>::empty(),
    }
}

/// Decides whether a child counts as a directory.
pub fn is_directory(is_symlink: bool, is_dir: bool, target_is_dir: Option<bool>) -> (dir: bool)
    ensures
        dir == counts_as_directory(is_symlink, is_dir, target_is_dir),
        !is_symlink ==> dir == is_dir,
        is_symlink && target_is_dir is None ==> !dir,
        is_symlink && target_is_dir is Some ==> dir == target_is_dir->0,
{
    if is_symlink {
        match target_is_dir {
            Some(target) => target,
            None => false,
        }
    } else {
        is_dir
    }
}

/// Builds the entry shown for a child.
pub fn build_entry(info: &DirEntryInfo) -> (entry: FileEntry)
    ensures
        entry@ == entry_of(info@),
{
    let name = info.name.as_str();
    let is_dir = is_directory(info.is_symlink, info.is_dir, info.target_is_dir);
    let display_name = if info.is_symlink {
        let mut shown = chars_of(name);
        shown.push(' ');
        assert(shown@ =~= info.name@ + seq![' ']);
        string_of(shown.as_slice())
    } else {
        info.name.clone()
    };
    let size_string = if is_dir {
        "目录".to_owned()
    } else {
        format_size(info.size)
    };
    let icon = if is_dir {
        IconKind::Directory.glyph().to_owned()
    } else if info.is_symlink {
        IconKind::Link.glyph().to_owned()
    } else {
        get_file_icon(name).to_owned()
    };
    let preview_url = if is_previewable(name) && !is_dir {
        let mut url: Vec<char> = Vec::new();
        push_str(&mut url, "./");
        push_str(&mut url, name);
        assert(url@ =~= "./"@ + info.name@);
        string_of(url.as_slice())
    } else {
        String::new()
    };
    FileEntry {
        name: info.name.clone(),
        display_name,
        size_string,
        modified_time: info.modified.clone(),
        is_dir,
        icon,
        preview_url,
    }
}

/// Builds the entry that leads to the parent directory.
pub fn build_parent_entry() -> (entry: FileEntry)
    ensures
        entry@ == parent_entry(),
{
    FileEntry {
        name: "..".to_owned(),
        display_name: "返回上级目录".to_owned(),
        size_string: String::new(),
        modified_time: String::new(),
        is_dir: true,
        icon: IconKind::Directory.glyph().to_owned(),
        preview_url: String::new(),
    }
}

/// Finds where `key` goes among the ordered `keys`.
pub fn find_insert_point(keys: &Vec<Vec<char>>, key: &[char]) -> (at: usize)
    ensures
        at == insert_point(key_views(keys@), key@),
        at <= keys.len(),
{
    let mut i: usize = keys.len();
    assert(key_views(keys@).take(i as int) =~= key_views(keys@));
    while i > 0 && chars_lt(key, keys[i - 1].as_slice())
        invariant
            i <= keys.len(),
            insert_point(key_views(keys@), key@) == insert_point(
                key_views(keys@).take(i as int),
                key@,
            ),
        decreases i,
    {
        proof {
            let head = key_views(keys@).take(i as int);
            assert(head.last() == keys@[i - 1]@);
            assert(head.drop_last() =~= key_views(keys@).take(i - 1));
            assert(lex_lt(key@, head.last()));
        }
        i -= 1;
    }
    proof {
        let head = key_views(keys@).take(i as int);
        if i > 0 {
            assert(head.last() == keys@[i - 1]@);
        }
    }
    i
}

/// Puts `entry` at its place among the sorted `entries`, whose keys are
/// `keys`.
fn insert_sorted(entries: &mut Vec<FileEntry>, keys: &mut Vec<Vec<char>>, entry: FileEntry)
    requires
        key_views(old(keys)@) == keys_of(entry_views(old(entries)@)),
    ensures
        key_views(final(keys)@) == keys_of(entry_views(final(entries)@)),
        entry_views(final(entries)@) == entry_views(old(entries)@).insert(
            insert_point(keys_of(entry_views(old(entries)@)), sort_key(entry@)),
            entry@,
        ),
{
    let lowered = to_lowercase(entry.display_name.as_str());
    let key = chars_of(lowered.as_str());
    let at = find_insert_point(keys, key.as_slice());
    let ghost before = entry_views(entries@);
    let ghost keys_before = key_views(keys@);
    assert(keys_before.len() == before.len());
    entries.insert(at, entry);
    keys.insert(at, key);
    proof {
        assert(entry_views(entries@) =~= before.insert(at as int, entry@));
        assert(key_views(keys@) =~= keys_before.insert(at as int, key@));
        assert(key_views(keys@) =~= keys_of(entry_views(entries@)));
    }
}

/// Lists a directory. `read` holds what was read of its children, or
/// `None` where it could not be read, which counts as no children.
pub fn get_directory_entries(read: Option<&[DirEntryInfo]>, at_root: bool) -> (entries: Vec<
    FileEntry,
>)
    ensures
        entry_views(entries@) == listing(children(read), at_root),
{
    let mut dirs: Vec<FileEntry> = Vec::new();
    let mut dir_keys: Vec<Vec<char>> = Vec::new();
    let mut files: Vec<FileEntry> = Vec::new();
    let mut file_keys: Vec<Vec<char>> = Vec::new();
    let ghost all = children(read).map_values(|i: DirEntrySpec| entry_of(i));
    assert(key_views(dir_keys@) =~= keys_of(entry_views(dirs@)));
    assert(key_views(file_keys@) =~= keys_of(entry_views(files@)));
    assert(entry_views(dirs@) =~= Seq::<FileEntrySpec>::empty());
    assert(entry_views(files@) =~= Seq::<FileEntrySpec>::empty());
    match read {
        Some(infos) => {
            let mut i: usize = 0;
            assert(all.take(0) =~= Seq::<FileEntrySpec>::empty());
            while i < infos.len()
                invariant
                    i <= infos.len(),
                    all == info_views(infos@).map_values(|i: DirEntrySpec| entry_of(i)),
                    key_views(dir_keys@) == keys_of(entry_views(dirs@)),
                    key_views(file_keys@) == keys_of(entry_views(files@)),
                    entry_views(dirs@) == sort_entries(select(all.take(i as int), true)),
                    entry_views(files@) == sort_entries(select(all.take(i as int), false)),
                decreases infos.len() - i,
            {
                let entry = build_entry(&infos[i]);
                proof {
                    let now = all.take(i + 1);
                    assert(now.drop_last() =~= all.take(i as int));
                    assert(now.last() == entry@);
                    let kept = select(now, entry.is_dir);
                    assert(kept.drop_last() =~= select(all.take(i as int), entry.is_dir));
                    assert(kept.last() == entry@);
                }
                if entry.is_dir {
                    insert_sorted(&mut dirs, &mut dir_keys, entry);
                } else {
                    insert_sorted(&mut files, &mut file_keys, entry);
                }
                i += 1;
            }
            assert(all.take(infos.len() as int) =~= all);
        },
        None => {
            assert(all =~= Seq::<FileEntrySpec>::empty());
        },
    }
    let mut entries: Vec<FileEntry> = Vec::new();
    if !at_root {
        entries.push(build_parent_entry());
    }
    assert(entry_views(entries@) =~= parent_part(at_root));
    let ghost head = entry_views(entries@);
    let ghost sorted_dirs = entry_views(dirs@);
    let ghost sorted_files = entry_views(files@);
    entries.append(&mut dirs);
    entries.append(&mut files);
    assert(entry_views(entries@) =~= head + sorted_dirs + sorted_files);
    entries
}

/// The place found for a key among ordered keys has no greater key
/// before it and only greater keys from it on.
pub proof fn lemma_insert_point(keys: Seq<Seq<char>>, key: Seq<char>)
    requires
        keys_ordered(keys),
    ensures
        0 <= insert_point(keys, key) <= keys.len(),
        forall|i: int| 0 <= i < insert_point(keys, key) ==> lex_le(#[trigger] keys[i], key),
        forall|i: int| insert_point(keys, key) <= i < keys.len() ==> lex_lt(key, #[trigger] keys[i]),
    decreases keys.len(),
{
    if keys.len() > 0 {
        let front = keys.drop_last();
        assert(keys_ordered(front)) by {
            assert forall|i: int, j: int| 0 <= i < j < front.len() implies lex_le(
                #[trigger] front[i],
                #[trigger] front[j],
            ) by {
                assert(front[i] == keys[i] && front[j] == keys[j]);
            }
        }
        if lex_lt(key, keys.last()) {
            lemma_insert_point(front, key);
            let p = insert_point(keys, key);
            assert forall|i: int| 0 <= i < p implies lex_le(#[trigger] keys[i], key) by {
                assert(front[i] == keys[i]);
            }
            assert forall|i: int| p <= i < keys.len() implies lex_lt(key, #[trigger] keys[i]) by {
                if i < front.len() {
                    assert(front[i] == keys[i]);
                }
            }
        } else {
            lemma_lex_lt_total(key, keys.last());
            assert forall|i: int| 0 <= i < keys.len() implies lex_le(#[trigger] keys[i], key) by {
                if i < keys.len() - 1 {
                    assert(lex_le(keys[i], keys[keys.len() - 1]));
                }
                lemma_lex_le_transitive(keys[i], keys.last(), key);
            }
        }
    }
}

/// Sorting puts the keys in order and keeps every entry, each as often as
/// it came.
pub proof fn lemma_sort_entries(entries: Seq<FileEntrySpec>)
    ensures
        sort_entries(entries).len() == entries.len(),
        keys_ordered(keys_of(sort_entries(entries))),
        sort_entries(entries).to_multiset() == entries.to_multiset(),
    decreases entries.len(),
{
    broadcast use vstd::seq_lib::group_to_multiset_ensures;

    if entries.len() == 0 {
        assert(entries =~= Seq::<FileEntrySpec>::empty());
    } else {
        let last = entries.last();
        let front = sort_entries(entries.drop_last());
        lemma_sort_entries(entries.drop_last());
        let keys = keys_of(front);
        let p = insert_point(keys, sort_key(last));
        lemma_insert_point(keys, sort_key(last));
        let out = front.insert(p, last);
        let out_keys = keys_of(out);
        assert forall|i: int, j: int| 0 <= i < j < out_keys.len() implies lex_le(
            #[trigger] out_keys[i],
            #[trigger] out_keys[j],
        ) by {
            let a = if i < p { i } else { i - 1 };
            let b = if j < p { j } else { j - 1 };
            if i == p {
                assert(out_keys[j] == keys[b]);
                assert(lex_lt(sort_key(last), keys[b]));
            } else if j == p {
                assert(out_keys[i] == keys[a]);
                assert(lex_le(keys[a], sort_key(last)));
            } else {
                assert(out_keys[i] == keys[a] && out_keys[j] == keys[b]);
                assert(lex_le(keys[a], keys[b]));
            }
        }
        assert(out.remove(p) =~= front);
        assert(out.to_multiset().remove(last) =~= front.to_multiset());
        assert(entries.drop_last().push(last) =~= entries);
        assert(entries.to_multiset() =~= entries.drop_last().to_multiset().insert(last));
        assert(out.to_multiset().count(last) > 0) by {
            assert(out[p] == last);
            assert(out.contains(last));
        }
        assert(out.to_multiset() =~= front.to_multiset().insert(last));
    }
}

/// The entries whose key is `key`, in the order in which they stand.
pub open spec fn with_key(entries: Seq<FileEntrySpec>, key: Seq<char>) -> Seq<FileEntrySpec>
    decreases entries.len(),
{
    if entries.len() == 0 {
        Seq::<FileEntrySpec>::empty()
    } else if sort_key(entries.last()) == key {
        with_key(entries.drop_last(), key).push(entries.last())
    } else {
        with_key(entries.drop_last(), key)
    }
}

/// The entries with a key in two sequences joined are those of the first
/// followed by those of the second.
proof fn lemma_with_key_joined(a: Seq<FileEntrySpec>, b: Seq<FileEntrySpec>, key: Seq<char>)
    ensures
        with_key(a + b, key) == with_key(a, key) + with_key(b, key),
    decreases b.len(),
{
    if b.len() == 0 {
        assert(a + b =~= a);
        assert(with_key(a, key) + with_key(b, key) =~= with_key(a, key));
    } else {
        assert((a + b).drop_last() =~= a + b.drop_last());
        assert((a + b).last() == b.last());
        lemma_with_key_joined(a, b.drop_last(), key);
        if sort_key(b.last()) == key {
            assert(with_key(a, key) + with_key(b.drop_last(), key).push(b.last()) =~= (with_key(
                a,
                key,
            ) + with_key(b.drop_last(), key)).push(b.last()));
        }
    }
}

/// Where no entry has the key, none is found.
proof fn lemma_with_key_absent(entries: Seq<FileEntrySpec>, key: Seq<char>)
    requires
        forall|i: int| 0 <= i < entries.len() ==> sort_key(#[trigger] entries[i]) != key,
    ensures
        with_key(entries, key).len() == 0,
    decreases entries.len(),
{
    if entries.len() > 0 {
        let front = entries.drop_last();
        assert forall|i: int| 0 <= i < front.len() implies sort_key(#[trigger] front[i]) != key by {
            assert(front[i] == entries[i]);
        }
        lemma_with_key_absent(front, key);
        assert(sort_key(entries[entries.len() - 1]) != key);
    }
}

/// Sorting is stable: the entries that share a key stand in the sorted
/// sequence in the order in which they came.
pub proof fn lemma_sort_is_stable(entries: Seq<FileEntrySpec>, key: Seq<char>)
    ensures
        with_key(sort_entries(entries), key) == with_key(entries, key),
    decreases entries.len(),
{
    if entries.len() > 0 {
        let last = entries.last();
        let front = sort_entries(entries.drop_last());
        lemma_sort_is_stable(entries.drop_last(), key);
        lemma_sort_entries(entries.drop_last());
        let keys = keys_of(front);
        let p = insert_point(keys, sort_key(last));
        lemma_insert_point(keys, sort_key(last));
        let head = front.take(p);
        let tail = front.skip(p);
        let out = front.insert(p, last);
        assert(out =~= head + seq![last] + tail);
        assert(front =~= head + tail);
        lemma_with_key_joined(head + seq![last], tail, key);
        lemma_with_key_joined(head, seq![last], key);
        lemma_with_key_joined(head, tail, key);
        assert(seq![last].drop_last() =~= Seq::<FileEntrySpec>::empty());
        assert(with_key(seq![last].drop_last(), key) =~= Seq::<FileEntrySpec>::empty());
        if sort_key(last) == key {
            lemma_lex_lt_irreflexive(key);
            assert forall|i: int| 0 <= i < tail.len() implies sort_key(#[trigger] tail[i]) != key by {
                assert(tail[i] == front[p + i]);
                assert(keys[p + i] == sort_key(front[p + i]));
                assert(lex_lt(sort_key(last), keys[p + i]));
            }
            lemma_with_key_absent(tail, key);
            assert(with_key(tail, key) =~= Seq::<FileEntrySpec>::empty());
            assert(with_key(seq![last], key) =~= seq![last]);
            assert(with_key(out, key) =~= with_key(head, key).push(last));
            assert(with_key(front, key) =~= with_key(head, key));
        } else {
            assert(with_key(seq![last], key) =~= Seq::<FileEntrySpec>::empty());
            assert(with_key(out, key) =~= with_key(head, key) + with_key(tail, key));
        }
    }
}

/// Whether every entry is a directory, or every entry a file.
pub open spec fn all_of_kind(entries: Seq<FileEntrySpec>, dirs: bool) -> bool {
    forall|i: int| 0 <= i < entries.len() ==> (#[trigger] entries[i]).is_dir == dirs
}

/// What is selected is of the kind asked for, and sorting keeps the kind.
proof fn lemma_kinds(entries: Seq<FileEntrySpec>, dirs: bool)
    ensures
        all_of_kind(select(entries, dirs), dirs),
        all_of_kind(entries, dirs) ==> all_of_kind(sort_entries(entries), dirs),
        select(entries, true).len() + select(entries, false).len() == entries.len(),
    decreases entries.len(),
{
    if entries.len() > 0 {
        let front = entries.drop_last();
        lemma_kinds(front, dirs);
        lemma_kinds(front, !dirs);
        if all_of_kind(entries, dirs) {
            assert forall|i: int| 0 <= i < front.len() implies (#[trigger] front[i]).is_dir
                == dirs by {
                assert(front[i] == entries[i]);
            }
            let sorted = sort_entries(front);
            let p = insert_point(keys_of(sorted), sort_key(entries.last()));
            lemma_sort_entries(front);
            lemma_insert_point(keys_of(sorted), sort_key(entries.last()));
            let out = sorted.insert(p, entries.last());
            assert forall|i: int| 0 <= i < out.len() implies (#[trigger] out[i]).is_dir == dirs by {
                if i < p {
                    assert(out[i] == sorted[i]);
                } else if i == p {
                    assert(out[i] == entries[entries.len() - 1]);
                } else {
                    assert(out[i] == sorted[i - 1]);
                }
            }
        }
    }
}

/// An index has one entry for each child, and one more for the parent
/// except at the root; the parent comes first, and no file stands before
/// a directory.
pub proof fn lemma_listing_shape(infos: Seq<DirEntrySpec>, at_root: bool)
    ensures
        listing(infos, at_root).len() == infos.len() + parent_part(at_root).len(),
        !at_root ==> listing(infos, at_root)[0] == parent_entry(),
        forall|i: int, j: int|
            0 <= i < j < listing(infos, at_root).len() && (#[trigger] listing(
                infos,
                at_root,
            )[j]).is_dir ==> (#[trigger] listing(infos, at_root)[i]).is_dir,
{
    let all = infos.map_values(|i: DirEntrySpec| entry_of(i));
    let dirs = sort_entries(select(all, true));
    let files = sort_entries(select(all, false));
    let head = parent_part(at_root);
    lemma_kinds(all, true);
    lemma_kinds(all, false);
    lemma_kinds(select(all, true), true);
    lemma_kinds(select(all, false), false);
    lemma_sort_entries(select(all, true));
    lemma_sort_entries(select(all, false));
    let out = listing(infos, at_root);
    assert(out == head + dirs + files);
    assert forall|i: int, j: int| 0 <= i < j < out.len() && (#[trigger] out[j]).is_dir implies (
    #[trigger] out[i]).is_dir by {
        if j >= head.len() + dirs.len() {
            assert(out[j] == files[j - head.len() - dirs.len()]);
        }
        if i < head.len() {
            assert(out[i] == parent_entry());
        } else if i < head.len() + dirs.len() {
            assert(out[i] == dirs[i - head.len()]);
        }
    }
}

/// Listing the same children twice gives the same entries in the same
/// order.
pub proof fn lemma_listing_repeats(
    first: Seq<FileEntrySpec>,
    second: Seq<FileEntrySpec>,
    infos: Seq<DirEntrySpec>,
    at_root: bool,
)
    requires
        first == listing(infos, at_root),
        second == listing(infos, at_root),
    ensures
        first == second,
{
}

} // verus!
