use paper::walk::{is_picture, random_step, step_to, Entry, EntryKind, Step, WalkError, MAX_WALK_DEPTH};

fn file(name: &str) -> Entry {
    Entry { name: String::from(name), kind: EntryKind::File }
}

#[test]
fn picture_extensions_are_case_sensitive() {
    assert!(is_picture("a.png"));
    assert!(is_picture("b.jpg"));
    assert!(is_picture("c.jpeg"));
    assert!(is_picture(".png"));
    assert!(!is_picture("a.PNG"));
    assert!(!is_picture("a.txt"));
    assert!(!is_picture("png"));
    assert!(!is_picture(""));
}

#[test]
fn entry_outcomes() {
    let entries = vec![
        file("a.png"),
        Entry { name: String::from("sub"), kind: EntryKind::Directory },
        file("notes.txt"),
        Entry { name: String::from("x.png"), kind: EntryKind::Directory },
        Entry { name: String::from("pipe.png"), kind: EntryKind::Other },
    ];
    assert!(step_to(&entries, 0) == Ok(Step::Open(0)));
    assert!(step_to(&entries, 1) == Ok(Step::Enter(1)));
    assert!(step_to(&entries, 2) == Err(WalkError::InvalidFileType));
    assert!(step_to(&entries, 3) == Ok(Step::Enter(3)));
    assert!(step_to(&entries, 4) == Err(WalkError::InvalidFileType));
}

#[test]
fn picture_and_text_resolve_only_to_the_picture() {
    let entries = vec![file("b.txt"), file("a.png")];
    let mut opened = 0;
    for _ in 0..200 {
        match random_step(0, &entries) {
            Ok(Step::Open(i)) => {
                assert_eq!(entries[i].name, "a.png");
                opened += 1;
            }
            Err(WalkError::InvalidFileType) => {}
            _ => panic!("unexpected step"),
        }
    }
    assert!(opened > 0);
}

#[test]
fn empty_directory_is_reported() {
    let entries: Vec<Entry> = Vec::new();
    assert!(random_step(0, &entries) == Err(WalkError::EmptyDirectory));
}

#[test]
fn walk_depth_is_bounded() {
    let entries = vec![file("a.png")];
    assert!(random_step(MAX_WALK_DEPTH, &entries) == Ok(Step::Open(0)));
    assert!(random_step(MAX_WALK_DEPTH + 1, &entries) == Err(WalkError::TooDeep));
}

#[test]
fn single_directory_is_entered() {
    let entries = vec![Entry { name: String::from("more"), kind: EntryKind::Directory }];
    assert!(random_step(3, &entries) == Ok(Step::Enter(0)));
}
