use msgxref::model::FileEntry;
use msgxref::pipeline::{derive_keywords, run_pipeline, select_root};
use msgxref::report::render_report;

fn entry(name: &str, lines: &[&str]) -> FileEntry {
    FileEntry {
        name: String::from(name),
        lines: lines.iter().map(|l| String::from(*l)).collect(),
    }
}

#[test]
fn derive_takes_stems_in_order() {
    let files = vec![
        entry("AMsg.java", &[]),
        entry("OrderMsg.java", &[]),
    ];
    let derived = derive_keywords(&files, "Msg.java");
    assert_eq!(derived, vec![String::from("A"), String::from("Order")]);
}

#[test]
fn derive_drops_empty_stems() {
    let files = vec![
        entry("Msg.java", &[]),
        entry("AMsg.java", &[]),
    ];
    let derived = derive_keywords(&files, "Msg.java");
    assert_eq!(derived, vec![String::from("A")]);
}

#[test]
fn derive_handles_suffix_longer_than_name() {
    let files = vec![entry("x", &[])];
    let derived = derive_keywords(&files, "Msg.java");
    assert!(derived.is_empty());
}

#[test]
fn pipeline_links_message_to_logic() {
    let msgs = vec![entry("AMsg.java", &["this uses Double precision"])];
    let logics = vec![entry("ALogic.java", &["handles A"])];
    let report = run_pipeline(&msgs, &logics);
    assert_eq!(report, vec![String::from("ALogic.java")]);
}

#[test]
fn pipeline_discards_message_without_marker() {
    let msgs = vec![
        entry("AMsg.java", &["this uses Double precision"]),
        entry("BMsg.java", &["nothing of note"]),
    ];
    let logics = vec![
        entry("ALogic.java", &["handles A"]),
        entry("BLogic.java", &["working well"]),
    ];
    let report = run_pipeline(&msgs, &logics);
    assert_eq!(report, vec![String::from("ALogic.java")]);
}

#[test]
fn pipeline_empty_tree_yields_empty_report() {
    let msgs: Vec<FileEntry> = Vec::new();
    let logics: Vec<FileEntry> = Vec::new();
    let report = run_pipeline(&msgs, &logics);
    assert!(report.is_empty());
    assert_eq!(render_report(&report), String::new());
}

#[test]
fn pipeline_no_survivors_matches_no_logic() {
    let msgs: Vec<FileEntry> = Vec::new();
    let logics = vec![entry("ALogic.java", &["handles A"])];
    let report = run_pipeline(&msgs, &logics);
    assert!(report.is_empty());
}

#[test]
fn pipeline_is_deterministic_across_runs() {
    let msgs = vec![
        entry("AMsg.java", &["double trouble"]),
        entry("CarMsg.java", &["a Double here"]),
    ];
    let logics = vec![
        entry("CarLogic.java", &["drives a car"]),
        entry("ALogic.java", &["handles A"]),
    ];
    let first = run_pipeline(&msgs, &logics);
    let second = run_pipeline(&msgs, &logics);
    assert_eq!(first, second);
}

#[test]
fn pipeline_matches_case_insensitively() {
    let msgs = vec![entry("CarMsg.java", &["uses DOUBLE everywhere"])];
    let logics = vec![
        entry("CarLogic.java", &["handles the CAR messages"]),
        entry("BoatLogic.java", &["nothing fitting"]),
    ];
    let report = run_pipeline(&msgs, &logics);
    assert_eq!(report, vec![String::from("CarLogic.java")]);
}

#[test]
fn render_writes_one_name_per_line() {
    let names = vec![String::from("ALogic.java"), String::from("BLogic.java")];
    assert_eq!(render_report(&names), String::from("ALogic.java\nBLogic.java\n"));
}

#[test]
fn render_of_empty_report_is_empty() {
    let names: Vec<String> = Vec::new();
    assert_eq!(render_report(&names), String::new());
}

#[test]
fn select_root_requires_an_argument() {
    let args: Vec<String> = Vec::new();
    assert_eq!(select_root(&args), None);
    let only_program = vec![String::from("prog")];
    assert_eq!(select_root(&only_program), None);
}

#[test]
fn select_root_takes_the_first_argument() {
    let args = vec![String::from("prog"), String::from("some/dir")];
    assert_eq!(select_root(&args), Some(String::from("some/dir")));
    let extra = vec![
        String::from("prog"),
        String::from("first"),
        String::from("second"),
    ];
    assert_eq!(select_root(&extra), Some(String::from("first")));
}
