use cargo_scry::cli::{board_value, sdk_stamp, take_board_flag, toml_array, toml_path};

fn args(list: &[&str]) -> Vec<String> {
    list.iter().map(|arg| (*arg).to_owned()).collect()
}

#[test]
fn board_flag_is_removed_from_the_cargo_arguments() {
    let mut list = args(&["run", "--board", "scry5-nexys-a7", "--release"]);
    assert_eq!(
        take_board_flag(&mut list).unwrap().as_deref(),
        Some("scry5-nexys-a7")
    );
    assert_eq!(list, args(&["run", "--release"]));

    let mut list = args(&["build", "--board=boards/mine.toml"]);
    assert_eq!(
        take_board_flag(&mut list).unwrap().as_deref(),
        Some("boards/mine.toml")
    );
    assert_eq!(list, args(&["build"]));

    let mut list = args(&["build", "--release"]);
    assert_eq!(take_board_flag(&mut list).unwrap(), None);
    assert_eq!(list, args(&["build", "--release"]));
}

#[test]
fn arguments_after_the_separator_belong_to_the_runner() {
    let mut list = args(&[
        "run",
        "--board",
        "scry5-nexys-a7",
        "--",
        "--board",
        "other",
        "--check",
    ]);
    assert_eq!(
        take_board_flag(&mut list).unwrap().as_deref(),
        Some("scry5-nexys-a7")
    );
    assert_eq!(list, args(&["run", "--", "--board", "other", "--check"]));
}

#[test]
fn board_flag_without_a_value_is_an_error() {
    assert!(take_board_flag(&mut args(&["run", "--board"])).is_err());
    assert!(take_board_flag(&mut args(&["run", "--board", "--", "x"])).is_err());
}

#[test]
fn the_last_board_flag_wins_and_a_flag_takes_any_value() {
    let mut list = args(&["--board=a", "build", "--board", "b"]);
    assert_eq!(take_board_flag(&mut list).unwrap().as_deref(), Some("b"));
    assert_eq!(list, args(&["build"]));

    let mut list = args(&["--board", "--board"]);
    assert_eq!(take_board_flag(&mut list).unwrap().as_deref(), Some("--board"));
    assert!(list.is_empty());

    let mut list = args(&["--board="]);
    assert_eq!(take_board_flag(&mut list).unwrap().as_deref(), Some(""));
    assert!(list.is_empty());
}

#[test]
fn a_missing_value_names_the_flag() {
    let mut list = args(&["--board=a", "run", "--board"]);
    assert_eq!(
        take_board_flag(&mut list).unwrap_err(),
        "--board needs a board name or a profile file"
    );
}

#[test]
fn config_values_are_toml_arrays_and_paths() {
    assert_eq!(toml_array(&args(&[])), "[]");
    assert_eq!(toml_array(&args(&["a"])), "[\"a\"]");
    assert_eq!(
        toml_array(&args(&["-Zunstable-options", "--sysroot", "C:/sdk"])),
        "[\"-Zunstable-options\",\"--sysroot\",\"C:/sdk\"]"
    );
    assert_eq!(toml_path("C:\\sdk\\dist\\bin"), "C:/sdk/dist/bin");
    assert_eq!(toml_path("/opt/sdk"), "/opt/sdk");
}

#[test]
fn the_flag_comes_before_the_environment() {
    assert_eq!(
        board_value(Some("a".to_owned()), Some("b".to_owned())).as_deref(),
        Some("a")
    );
    assert_eq!(board_value(None, Some("b".to_owned())).as_deref(), Some("b"));
    assert_eq!(board_value(None, Some(String::new())), None);
    assert_eq!(board_value(None, None), None);
}

#[test]
fn the_stamp_is_fnv1a_of_the_values() {
    assert_eq!(sdk_stamp(&vec![]), 0xcbf2_9ce4_8422_2325);
    // FNV-1a of the eight bytes 01 00 00 00 00 00 00 00.
    let mut hash: u64 = 0xcbf2_9ce4_8422_2325;
    for byte in 1u64.to_le_bytes() {
        hash ^= u64::from(byte);
        hash = hash.wrapping_mul(0x0000_0100_0000_01b3);
    }
    assert_eq!(sdk_stamp(&vec![1]), hash);
    assert_ne!(sdk_stamp(&vec![1, 2]), sdk_stamp(&vec![2, 1]));
}
