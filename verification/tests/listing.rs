use termlink_core::content::file_text;
use termlink_core::error::CoreError;
use termlink_core::listing::{
    list_local, list_remote, local_item, permission_text, FileInfo, FileItem, LocalEntry,
    Permissions, RemoteEntry, SftpFileInfo,
};
use termlink_core::order::{key_precedes, sort_keyed, text_precedes, Keyed, SortKey};

fn none() -> Permissions {
    Permissions {
        group_read: false,
        group_write: false,
        group_exec: false,
        other_read: false,
        other_write: false,
        other_exec: false,
    }
}

fn remote(name: &str, is_dir: bool, size: u64) -> RemoteEntry {
    RemoteEntry { name: name.to_string(), is_dir, size, modified: Some(7), permissions: none() }
}

fn local(name: &str, is_directory: bool) -> LocalEntry {
    LocalEntry {
        name: name.to_string(),
        path: format!("/home/u/{}", name),
        is_directory,
        len: Some(10),
        modified: Some(1_700_000_000),
    }
}

fn v(s: &str) -> Vec<char> {
    s.chars().collect()
}

#[test]
fn permissions_show_group_and_others_behind_three_dashes() {
    assert_eq!(permission_text(none()), "---------");
    let all = Permissions {
        group_read: true,
        group_write: true,
        group_exec: true,
        other_read: true,
        other_write: true,
        other_exec: true,
    };
    assert_eq!(permission_text(all), "---rwxrwx");
    let some = Permissions { group_read: true, group_exec: true, other_read: true, ..none() };
    assert_eq!(permission_text(some), "---r-xr--");
    let other = Permissions { group_write: true, other_write: true, other_exec: true, ..none() };
    assert_eq!(permission_text(other), "----w--wx");
}

#[test]
fn remote_listing_puts_directories_first_then_orders_by_name() {
    let entries = vec![
        remote("zeta.txt", false, 1),
        remote("src", true, 0),
        remote("Alpha.txt", false, 2),
        remote("alpha.txt", false, 3),
        remote("bin", true, 0),
    ];
    let names: Vec<String> = list_remote(entries).into_iter().map(|f| f.name).collect();
    assert_eq!(names, vec!["bin", "src", "Alpha.txt", "alpha.txt", "zeta.txt"]);
}

#[test]
fn remote_listing_carries_the_fields_over() {
    let entry = RemoteEntry {
        name: "notes.md".to_string(),
        is_dir: false,
        size: 4096,
        modified: None,
        permissions: Permissions { group_read: true, ..none() },
    };
    assert_eq!(
        list_remote(vec![entry]),
        vec![SftpFileInfo {
            name: "notes.md".to_string(),
            is_dir: false,
            size: 4096,
            modified: None,
            permissions: "---r-----".to_string(),
        }]
    );
    assert_eq!(list_remote(Vec::new()), Vec::<SftpFileInfo>::new());
}

#[test]
fn remote_entries_of_one_name_keep_their_order() {
    let entries = vec![remote("same", false, 1), remote("a", false, 9), remote("same", false, 2)];
    let sizes: Vec<u64> = list_remote(entries).into_iter().map(|f| f.size).collect();
    assert_eq!(sizes, vec![9, 1, 2]);
}

#[test]
fn remote_names_are_ordered_by_code_point_like_strings() {
    let mut names = vec!["b", "a", "ab", "", "B", "é", "z", "a0", "aa", "京", "\u{10000}", "~"];
    let entries: Vec<RemoteEntry> = names.iter().map(|n| remote(n, false, 0)).collect();
    let listed: Vec<String> = list_remote(entries).into_iter().map(|f| f.name).collect();
    names.sort();
    assert_eq!(listed, names);
}

#[test]
fn local_listing_orders_by_name_without_regard_to_case() {
    let entries = vec![local("b.txt", false), local("A.txt", false), local("Docs", true), local("c", false), local("apps", true)];
    let names: Vec<String> = list_local(entries, true).into_iter().map(|f| f.name).collect();
    assert_eq!(names, vec!["apps", "Docs", "A.txt", "b.txt", "c"]);
}

#[test]
fn local_listing_lower_cases_beyond_ascii() {
    let entries = vec![local("Éclair", false), local("école", false), local("Zebra", false)];
    let names: Vec<String> = list_local(entries, true).into_iter().map(|f| f.name).collect();
    assert_eq!(names, vec!["Zebra", "Éclair", "école"]);
}

#[test]
fn hidden_entries_are_left_out_unless_asked_for() {
    let entries = || vec![local(".git", true), local("src", true), local(".env", false), local("a", false)];
    let shown: Vec<String> = list_local(entries(), false).into_iter().map(|f| f.name).collect();
    assert_eq!(shown, vec!["src", "a"]);
    let all = list_local(entries(), true);
    let names: Vec<String> = all.iter().map(|f| f.name.clone()).collect();
    assert_eq!(names, vec![".git", "src", ".env", "a"]);
    let hidden: Vec<bool> = all.iter().map(|f| f.is_hidden).collect();
    assert_eq!(hidden, vec![true, false, true, false]);
}

#[test]
fn local_items_show_size_for_files_only_and_the_time_as_text() {
    let items = list_local(vec![local("file", false), local("dir", true)], false);
    assert_eq!(
        items,
        vec![
            FileItem {
                name: "dir".to_string(),
                path: "/home/u/dir".to_string(),
                is_directory: true,
                size: None,
                modified: Some("2023-11-14T22:13:20+00:00".to_string()),
                is_hidden: false,
            },
            FileItem {
                name: "file".to_string(),
                path: "/home/u/file".to_string(),
                is_directory: false,
                size: Some(10),
                modified: Some("2023-11-14T22:13:20+00:00".to_string()),
                is_hidden: false,
            },
        ]
    );
}

#[test]
fn local_times_cover_the_epoch_and_what_cannot_be_read() {
    let mut at_epoch = local("a", false);
    at_epoch.modified = Some(0);
    let mut unknown = local("b", false);
    unknown.modified = None;
    unknown.len = None;
    let mut too_far = local("c", false);
    too_far.modified = Some(i64::MAX as u64);
    let mut before = local("d", false);
    before.modified = Some(u64::MAX);
    let items = list_local(vec![at_epoch, unknown, too_far, before], false);
    assert_eq!(items[0].modified, Some("1970-01-01T00:00:00+00:00".to_string()));
    assert_eq!(items[1].modified, None);
    assert_eq!(items[1].size, None);
    assert_eq!(items[2].modified, None);
    assert_eq!(items[3].modified, Some("1969-12-31T23:59:59+00:00".to_string()));
}

#[test]
fn local_item_takes_the_time_it_is_given() {
    let item = local_item(local(".x", false), Some("then".to_string()));
    assert_eq!(item.modified, Some("then".to_string()));
    assert!(item.is_hidden);
    assert_eq!(item.size, Some(10));
    let dir = local_item(local("d", true), None);
    assert_eq!(dir.modified, None);
    assert_eq!(dir.size, None);
    assert!(!dir.is_hidden);
}

#[test]
fn texts_are_ordered_by_code_point_with_prefixes_first() {
    assert!(text_precedes(&v("a"), &v("b")));
    assert!(!text_precedes(&v("b"), &v("a")));
    assert!(!text_precedes(&v("a"), &v("a")));
    assert!(text_precedes(&v(""), &v("a")));
    assert!(!text_precedes(&v(""), &v("")));
    assert!(text_precedes(&v("ab"), &v("abc")));
    assert!(!text_precedes(&v("abc"), &v("ab")));
    assert!(text_precedes(&v("Z"), &v("a")));
    assert!(text_precedes(&v("z"), &v("é")));
}

#[test]
fn keys_put_directories_first() {
    let dir = SortKey { directory: true, name: v("z") };
    let file = SortKey { directory: false, name: v("a") };
    assert!(key_precedes(&dir, &file));
    assert!(!key_precedes(&file, &dir));
    let other = SortKey { directory: true, name: v("y") };
    assert!(key_precedes(&other, &dir));
    assert!(!key_precedes(&dir, &dir));
}

#[test]
fn sort_is_stable_and_keeps_every_item() {
    let keyed = |n: &str, d: bool, item: u32| Keyed { key: SortKey { directory: d, name: v(n) }, item };
    let items = vec![
        keyed("b", false, 1),
        keyed("a", false, 2),
        keyed("b", false, 3),
        keyed("a", true, 4),
        keyed("a", false, 5),
        keyed("b", false, 6),
    ];
    let order: Vec<u32> = sort_keyed(items).into_iter().map(|k| k.item).collect();
    assert_eq!(order, vec![4, 2, 5, 1, 3, 6]);
    assert_eq!(sort_keyed(Vec::<Keyed<u32>>::new()).len(), 0);
}

#[test]
fn file_text_is_the_decoded_content() {
    assert_eq!(file_text(b"plain".to_vec()), Ok("plain".to_string()));
    assert_eq!(file_text("héllo 京".as_bytes().to_vec()), Ok("héllo 京".to_string()));
    assert_eq!(file_text(Vec::new()), Ok(String::new()));
}

#[test]
fn file_that_is_no_text_is_a_protocol_error() {
    for bytes in [vec![0xffu8], vec![b'a', 0xc3], vec![0xed, 0xa0, 0x80], vec![0xc0, 0x80]] {
        assert_eq!(
            file_text(bytes),
            Err(CoreError::Protocol("file content is not valid UTF-8 text".to_string()))
        );
    }
}

#[test]
fn file_info_holds_what_is_known_before_a_download() {
    let info = FileInfo { name: "a.bin".to_string(), size: 10 * 1024 * 1024, modified: Some(1) };
    assert_eq!(info.clone(), info);
    assert_eq!(info.size, 10_485_760);
}
