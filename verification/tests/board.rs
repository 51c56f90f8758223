use cargo_scry::board::{default_baud, Board, Link, Loader, Memory, Region};

fn board(name: &str, start: u64, end: u64, max_payload: Option<u64>) -> Board {
    Board {
        name: name.to_owned(),
        link: Link::default(),
        memory: Memory { program: Region { start, end } },
        loader: Loader { baud: default_baud(), max_payload },
    }
}

#[test]
fn region_containment() {
    let region = Region {
        start: 0x100,
        end: 0x200,
    };
    assert!(region.contains_range(0x100, 0x200));
    assert!(region.contains_range(0x180, 0x190));
    assert!(!region.contains_range(0xff, 0x110));
    assert!(!region.contains_range(0x1f0, 0x201));
}

#[test]
fn loader_defaults_to_115200_baud_and_no_limit() {
    let loader = Loader::default();
    assert_eq!(loader.baud, 115_200);
    assert_eq!(loader.max_payload, None);
    assert_eq!(default_baud(), 115_200);
}

#[test]
fn a_profile_with_a_program_region_is_accepted() {
    let accepted = board("Minimal", 0x100, 0x200, None).validate().unwrap();
    assert_eq!(accepted.name, "Minimal");
    assert_eq!(accepted.memory.program.start, 0x100);
    assert_eq!(accepted.memory.program.end, 0x200);
}

#[test]
fn an_empty_program_region_is_rejected() {
    let error = board("x", 0x200, 0x200, None).validate().unwrap_err();
    assert!(error.contains("memory.program is empty"), "{error}");
    assert_eq!(
        error,
        "memory.program is empty: start 0x200 is not below end 0x200"
    );
    let error = board("x", 0x300, 0x200, None).validate().unwrap_err();
    assert_eq!(
        error,
        "memory.program is empty: start 0x300 is not below end 0x200"
    );
}

use cargo_scry::board::{looks_like_path, unknown_board_message};
use cargo_scry::manifest::{
    board_entry_outcome, board_from_manifest, explicit_manifest_path, TomlEntry,
};
use cargo_scry::order::{sort_texts, text_less};

#[test]
fn board_values_that_look_like_paths() {
    assert!(looks_like_path("mine.toml"));
    assert!(looks_like_path("boards/mine"));
    assert!(looks_like_path("boards\\mine"));
    assert!(!looks_like_path("scry5-nexys-a7"));
    assert!(!looks_like_path("toml"));
}

#[test]
fn unknown_boards_list_the_shipped_ones_in_order() {
    let known = vec!["zeta".to_owned(), "scry5-nexys-a7".to_owned(), "alpha".to_owned()];
    assert_eq!(
        unknown_board_message("nope", &known),
        "unknown board `nope`; boards shipped with the SDK: alpha, scry5-nexys-a7, zeta"
    );
    assert_eq!(
        unknown_board_message("nope", &vec![]),
        "unknown board `nope`; boards shipped with the SDK: none"
    );
}

#[test]
fn texts_sort_as_str_does() {
    let items: Vec<String> = ["b", "ab", "a", "B", "", "a"].iter().map(|s| s.to_string()).collect();
    let mut expected = items.clone();
    expected.sort();
    assert_eq!(sort_texts(&items), expected);
    assert!(text_less("a", "ab"));
    assert!(!text_less("ab", "a"));
    assert!(text_less("B", "a"));
    assert!(!text_less("a", "a"));
}

#[test]
fn the_manifest_names_the_board() {
    let manifest = "[package]\nname = \"x\"\n\n[package.metadata.scry]\nboard = \"scry5-nexys-a7\"\n";
    assert_eq!(
        board_from_manifest(manifest, "Cargo.toml").unwrap().as_deref(),
        Some("scry5-nexys-a7")
    );
    assert_eq!(board_from_manifest("[package]\nname = \"x\"\n", "Cargo.toml").unwrap(), None);
    let error = board_from_manifest(
        "[package.metadata.scry]\nboard = 3\n",
        "Cargo.toml",
    )
    .unwrap_err();
    assert_eq!(
        error,
        "`board` under [package.metadata.scry] in Cargo.toml must be a string"
    );
    let error = board_from_manifest("[package", "Cargo.toml").unwrap_err();
    assert!(error.starts_with("cannot parse Cargo.toml: "), "{error}");
}

#[test]
fn board_entries_mean_what_they_say() {
    assert_eq!(board_entry_outcome(Ok(TomlEntry::Missing), "m").unwrap(), None);
    assert_eq!(
        board_entry_outcome(Ok(TomlEntry::Text("b".to_owned())), "m").unwrap().as_deref(),
        Some("b")
    );
    assert_eq!(
        board_entry_outcome(Ok(TomlEntry::Table), "m").unwrap_err(),
        "`board` under [package.metadata.scry] in m must be a string"
    );
    assert_eq!(
        board_entry_outcome(Err("bad".to_owned()), "m").unwrap_err(),
        "cannot parse m: bad"
    );
}

#[test]
fn the_board_must_sit_under_package_metadata_scry() {
    let elsewhere = "[package.metadata.other]\nboard = \"scry5-nexys-a7\"\n";
    assert_eq!(board_from_manifest(elsewhere, "Cargo.toml").unwrap(), None);
    let table = "[package.metadata.scry.board]\nname = \"x\"\n";
    assert_eq!(
        board_from_manifest(table, "Cargo.toml").unwrap_err(),
        "`board` under [package.metadata.scry] in Cargo.toml must be a string"
    );
    let not_a_table = "[package]\nmetadata = 3\n";
    assert_eq!(board_from_manifest(not_a_table, "Cargo.toml").unwrap(), None);
}

fn strings(items: &[&str]) -> Vec<String> {
    items.iter().map(|s| s.to_string()).collect()
}

#[test]
fn the_manifest_path_comes_from_the_first_flag_that_names_one() {
    assert_eq!(explicit_manifest_path(&strings(&["build", "--release"])), None);
    assert_eq!(
        explicit_manifest_path(&strings(&["build", "--manifest-path", "a/Cargo.toml"])).as_deref(),
        Some("a/Cargo.toml")
    );
    assert_eq!(
        explicit_manifest_path(&strings(&["build", "--manifest-path=b/Cargo.toml", "--manifest-path", "c"]))
            .as_deref(),
        Some("b/Cargo.toml")
    );
    assert_eq!(explicit_manifest_path(&strings(&["build", "--manifest-path"])), None);
    assert_eq!(
        explicit_manifest_path(&strings(&["--manifest-path", "--manifest-path=x"])).as_deref(),
        Some("--manifest-path=x")
    );
}
