use msgxref::walker::{WalkEntry, Walker};

fn file(path: &str, name: &str) -> WalkEntry {
    WalkEntry {
        path: String::from(path),
        name: String::from(name),
        is_dir: false,
    }
}

fn dir(path: &str) -> WalkEntry {
    WalkEntry {
        path: String::from(path),
        name: String::from(""),
        is_dir: true,
    }
}

#[test]
fn walker_starts_at_the_root() {
    let mut w = Walker::new(String::from("root"), "Msg.java");
    assert_eq!(w.next_dir(), Some(String::from("root")));
    assert_eq!(w.next_dir(), None);
    assert!(w.matched.is_empty());
}

#[test]
fn walker_keeps_files_matching_the_suffix() {
    let mut w = Walker::new(String::from("root"), "Msg.java");
    assert_eq!(w.next_dir(), Some(String::from("root")));
    let listing = vec![
        file("root/AMsg.java", "AMsg.java"),
        file("root/Notes.txt", "Notes.txt"),
        file("root/BMsg.java", "BMsg.java"),
    ];
    w.feed(&listing);
    let names: Vec<&str> = w.matched.iter().map(|c| c.name.as_str()).collect();
    assert_eq!(names, vec!["AMsg.java", "BMsg.java"]);
    assert_eq!(w.next_dir(), None);
}

#[test]
fn walker_matches_suffix_case_insensitively() {
    let mut w = Walker::new(String::from("root"), "Msg.java");
    w.next_dir();
    let listing = vec![
        file("root/amsg.JAVA", "amsg.JAVA"),
        file("root/BMSG.java", "BMSG.java"),
        file("root/CMsg.javax", "CMsg.javax"),
    ];
    w.feed(&listing);
    let names: Vec<&str> = w.matched.iter().map(|c| c.name.as_str()).collect();
    assert_eq!(names, vec!["amsg.JAVA", "BMSG.java"]);
}

#[test]
fn walker_queues_subdirectories() {
    let mut w = Walker::new(String::from("root"), "Msg.java");
    assert_eq!(w.next_dir(), Some(String::from("root")));
    let listing = vec![
        dir("root/sub1"),
        file("root/AMsg.java", "AMsg.java"),
        dir("root/sub2"),
    ];
    w.feed(&listing);
    assert_eq!(w.next_dir(), Some(String::from("root/sub2")));
    w.feed(&vec![file("root/sub2/DeepMsg.java", "DeepMsg.java")]);
    assert_eq!(w.next_dir(), Some(String::from("root/sub1")));
    w.feed(&Vec::new());
    assert_eq!(w.next_dir(), None);
    let names: Vec<&str> = w.matched.iter().map(|c| c.name.as_str()).collect();
    assert_eq!(names, vec!["AMsg.java", "DeepMsg.java"]);
}

#[test]
fn walker_keeps_full_paths() {
    let mut w = Walker::new(String::from("root"), "Logic.java");
    w.next_dir();
    w.feed(&vec![file("root/deep/ALogic.java", "ALogic.java")]);
    assert_eq!(w.matched.len(), 1);
    assert_eq!(w.matched[0].path.as_str(), "root/deep/ALogic.java");
    assert_eq!(w.matched[0].name.as_str(), "ALogic.java");
}

#[test]
fn walker_never_keeps_a_directory() {
    let mut w = Walker::new(String::from("root"), "Msg.java");
    w.next_dir();
    w.feed(&vec![dir("root/SubMsg.java")]);
    assert!(w.matched.is_empty());
    assert_eq!(w.next_dir(), Some(String::from("root/SubMsg.java")));
}
