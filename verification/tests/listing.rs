use store_browser::listing::{is_visible, is_visible_name, list, list_children};
use store_browser::{DirChild, EntryType, ListError, PasswordStoreEntry};

fn child(path: &str, is_dir: bool) -> DirChild {
    DirChild { path: path.to_string(), is_dir }
}

fn entry(path: &str, entry_type: EntryType) -> PasswordStoreEntry {
    PasswordStoreEntry { path: path.to_string(), entry_type }
}

#[test]
fn listing_shows_directories_and_secrets_and_nothing_hidden() {
    let read = vec![
        child("/store/a", true),
        child("/store/.secret.gpg", false),
        child("/store/b.gpg", false),
        child("/store/c.txt", false),
    ];
    assert_eq!(
        list(Some(read)),
        Ok(vec![
            entry("/store/a", EntryType::Directory),
            entry("/store/b.gpg", EntryType::File),
        ])
    );
}

#[test]
fn listing_keeps_the_order_of_reading() {
    let read = vec![
        child("/store/z.gpg", false),
        child("/store/m", true),
        child("/store/skip.txt", false),
        child("/store/a.gpg", false),
        child("/store/b", true),
    ];
    assert_eq!(
        list_children(&read),
        vec![
            entry("/store/z.gpg", EntryType::File),
            entry("/store/m", EntryType::Directory),
            entry("/store/a.gpg", EntryType::File),
            entry("/store/b", EntryType::Directory),
        ]
    );
}

#[test]
fn listing_an_unreadable_directory_fails() {
    assert_eq!(list(None), Err(ListError::Unreadable));
}

#[test]
fn listing_an_empty_directory_is_empty() {
    assert_eq!(list(Some(Vec::new())), Ok(Vec::new()));
    assert_eq!(list_children(&Vec::new()), Vec::new());
}

#[test]
fn listing_keeps_duplicates_and_everything_shown() {
    let read = vec![child("/s/a.gpg", false), child("/s/a.gpg", false), child("/s/.a", true)];
    assert_eq!(
        list_children(&read),
        vec![entry("/s/a.gpg", EntryType::File), entry("/s/a.gpg", EntryType::File)]
    );
}

#[test]
fn hidden_names_are_never_shown() {
    assert!(!is_visible_name(".git", true));
    assert!(!is_visible_name(".secret.gpg", false));
    assert!(!is_visible_name(".gpg", false));
    assert!(!is_visible_name(".", true));
    assert!(!is_visible_name("..", true));
}

#[test]
fn directories_are_shown_whatever_their_name() {
    assert!(is_visible_name("a", true));
    assert!(is_visible_name("mail.d", true));
    assert!(is_visible_name("x.gpg", true));
    assert!(is_visible_name("", true));
}

#[test]
fn files_are_shown_only_with_the_secret_suffix() {
    assert!(is_visible_name("b.gpg", false));
    assert!(is_visible_name("a.b.gpg", false));
    assert!(is_visible_name("x..gpg", false));
    assert!(!is_visible_name("c.txt", false));
    assert!(!is_visible_name("gpg", false));
    assert!(!is_visible_name("agpg", false));
    assert!(!is_visible_name("a.gpg.bak", false));
    assert!(!is_visible_name("a.GPG", false));
    assert!(!is_visible_name("a.gp", false));
    assert!(!is_visible_name("", false));
}

#[test]
fn names_are_taken_by_characters_not_bytes() {
    assert!(is_visible_name("\u{e9}.gpg", false));
    assert!(is_visible_name("\u{4e2d}\u{6587}.gpg", false));
    assert!(!is_visible_name("\u{e9}gpg", false));
    assert!(!is_visible_name(".\u{e9}", true));
    assert!(is_visible_name("\u{e9}", true));
}

#[test]
fn a_child_is_judged_by_the_last_component_of_its_path() {
    assert!(is_visible(&child("/store/.hidden/b.gpg", false)));
    assert!(!is_visible(&child("/store/a/.b.gpg", false)));
    assert!(is_visible(&child("/.store/a", true)));
    assert!(!is_visible(&child("/store.gpg/a", false)));
    assert!(is_visible(&child("b.gpg", false)));
    assert!(is_visible(&child("/store/b.gpg/", false)));
}

#[test]
fn a_path_without_a_last_component_has_an_empty_name() {
    assert!(is_visible(&child("/", true)));
    assert!(!is_visible(&child("/", false)));
    assert!(is_visible(&child("/store/..", true)));
    assert!(!is_visible(&child("/store/..", false)));
    assert!(is_visible(&child("", true)));
}

#[test]
fn an_entry_is_a_directory_exactly_if_the_child_was_one() {
    assert_eq!(
        PasswordStoreEntry::from(child("/store/a", true)),
        entry("/store/a", EntryType::Directory)
    );
    assert_eq!(
        PasswordStoreEntry::from(child("/store/a", false)),
        entry("/store/a", EntryType::File)
    );
    assert_eq!(
        PasswordStoreEntry::new("/store/a.gpg".to_string(), false),
        entry("/store/a.gpg", EntryType::File)
    );
    assert_eq!(
        PasswordStoreEntry::new("/store/a.gpg".to_string(), true),
        entry("/store/a.gpg", EntryType::Directory)
    );
}
