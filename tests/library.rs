use mvc::cli::{join_words, parse_command, Command};
use mvc::digest::{compute_hash, to_lower_hex};
use mvc::error::MvcError;
use mvc::history::{snapshot_id_of, snapshot_ids};
use mvc::ignore::{include_root_entry, parse_ignore_list, removal_flags, should_ignore, DEFAULT_IGNORE};
use mvc::number::{parse_decimal, render_decimal};
use mvc::record::{check_integrity, metadata_json, read_record, restore_check, snapshot_metadata, SnapshotRecord};
use mvc::repo::{
    archive_path, head_text, metadata_path, next_snapshot_id, read_head, require_repository,
    require_uninitialized, INITIAL_HEAD,
};
use mvc::text::{list_contains, split_at_char, str_eq};

fn strings(v: &[&str]) -> Vec<String> {
    v.iter().map(|s| s.to_string()).collect()
}

const EMPTY_SHA: &str = "e3b0c44298fc1c149afbf4c8996fb92427ae41e4649b934ca495991b7852b855";
const ABC_SHA: &str = "ba7816bf8f01cfea414140de5dae2223b00361a396177a9cb410ff61f20015ad";

#[test]
fn default_ignore_list_has_four_entries() {
    assert_eq!(parse_ignore_list(DEFAULT_IGNORE), strings(&["target", ".mvc", "foo.tar", ".mvcignore"]));
}

#[test]
fn ignore_list_keeps_empty_segments() {
    assert_eq!(parse_ignore_list("a\n"), strings(&["a", ""]));
    assert_eq!(parse_ignore_list(""), strings(&[""]));
    assert_eq!(split_at_char("x,,y", ','), strings(&["x", "", "y"]));
}

#[test]
fn listed_directory_and_descendants_are_ignored() {
    let list = parse_ignore_list(DEFAULT_IGNORE);
    assert!(should_ignore("target", &list));
    assert!(should_ignore("target/debug/build.o", &list));
    assert!(should_ignore(".mvc/HEAD", &list));
    assert!(should_ignore(".mvcignore", &list));
    assert!(!should_ignore("src/main.rs", &list));
    assert!(!should_ignore("src", &list));
    assert!(!should_ignore("targets", &list));
}

#[test]
fn absolute_and_current_dir_paths_are_ignored() {
    let list = strings(&["target"]);
    assert!(should_ignore("/etc/passwd", &list));
    assert!(should_ignore(".", &list));
    assert!(should_ignore("./a", &list));
}

#[test]
fn nested_ignore_entry_matches_whole_prefix() {
    let list = strings(&["src/gen"]);
    assert!(should_ignore("src/gen/out.rs", &list));
    assert!(!should_ignore("src/main.rs", &list));
    assert!(!should_ignore("gen", &list));
}

#[test]
fn empty_ignore_segment_ignores_everything() {
    let list = strings(&["target", ""]);
    assert!(should_ignore("src/main.rs", &list));
}

#[test]
fn root_entries_are_selected_by_name() {
    let list = parse_ignore_list(DEFAULT_IGNORE);
    assert!(!include_root_entry("target", &list));
    assert!(!include_root_entry(".mvc", &list));
    assert!(include_root_entry("src", &list));
    assert!(include_root_entry("Cargo.toml", &list));
}

#[test]
fn cleaner_never_removes_ignored_paths() {
    let list = parse_ignore_list(DEFAULT_IGNORE);
    let paths = strings(&["src/a.rs", "src", "target/x", "target", ".mvc/HEAD", "README"]);
    let dirs = vec![false, true, false, true, false, false];
    assert_eq!(removal_flags(&paths, &dirs, &list), vec![true, true, false, false, false, true]);
}

#[test]
fn cleaner_keeps_directory_holding_ignored_content() {
    let list = strings(&["src/gen"]);
    let paths = strings(&["src/gen/out.rs", "src/gen", "src/main.rs", "src", "srcx/a"]);
    let dirs = vec![false, true, false, true, false];
    assert_eq!(removal_flags(&paths, &dirs, &list), vec![false, false, true, false, true]);
}

#[test]
fn decimal_rendering_and_parsing() {
    assert_eq!(render_decimal(0), "0");
    assert_eq!(render_decimal(1234), "1234");
    assert_eq!(render_decimal(u32::MAX), "4294967295");
    assert_eq!(parse_decimal("4294967295"), Some(u32::MAX));
    assert_eq!(parse_decimal("4294967296"), None);
    assert_eq!(parse_decimal("007"), Some(7));
    assert_eq!(parse_decimal(""), None);
    assert_eq!(parse_decimal("12a"), None);
    assert_eq!(parse_decimal("-1"), None);
    assert_eq!(parse_decimal("+3"), Some(3));
    assert_eq!(parse_decimal("+"), None);
    assert_eq!(parse_decimal("++3"), None);
}

#[test]
fn hash_of_known_contents() {
    assert_eq!(compute_hash(b""), EMPTY_SHA);
    assert_eq!(compute_hash(b"abc"), ABC_SHA);
}

#[test]
fn hash_is_deterministic_and_sensitive() {
    let a = compute_hash(b"hello world");
    let b = compute_hash(b"hello world");
    let c = compute_hash(b"hello worle");
    assert_eq!(a, b);
    assert_eq!(a.len(), 64);
    assert_ne!(a, c);
}

#[test]
fn hex_rendering() {
    assert_eq!(to_lower_hex(&[0x00, 0xff, 0x1a, 0x9c]), "00ff1a9c");
    assert_eq!(to_lower_hex(&[]), "");
}

#[test]
fn metadata_record_text() {
    assert_eq!(metadata_json("ab", "fix bug"), "{\"hash\":\"ab\",\"message\":\"fix bug\"}");
    assert_eq!(metadata_json("ab", "say \"hi\""), "{\"hash\":\"ab\",\"message\":\"say \\\"hi\\\"\"}");
}

#[test]
fn snapshot_metadata_stamps_archive_hash() {
    let t = snapshot_metadata(b"abc", "Initial");
    assert_eq!(t, format!("{{\"hash\":\"{}\",\"message\":\"Initial\"}}", ABC_SHA));
    let rec = read_record(&t).unwrap();
    assert_eq!(rec.hash, ABC_SHA);
    assert_eq!(rec.message, "Initial");
}

#[test]
fn unreadable_records_are_invalid_state() {
    assert!(matches!(read_record("not json"), Err(MvcError::InvalidState)));
    assert!(matches!(read_record("{\"hash\":\"ab\"}"), Err(MvcError::InvalidState)));
    assert!(matches!(read_record("{\"hash\":1,\"message\":\"m\"}"), Err(MvcError::InvalidState)));
}

#[test]
fn integrity_check_compares_hashes() {
    let good = SnapshotRecord { hash: ABC_SHA.to_string(), message: "m".to_string() };
    assert_eq!(check_integrity(&good, b"abc"), Ok(()));
    assert_eq!(check_integrity(&good, b"abd"), Err(MvcError::IntegrityMismatch));
}

#[test]
fn restore_of_tampered_archive_is_refused() {
    let meta = snapshot_metadata(b"original", "first");
    let r = restore_check(Some(b"tampered".to_vec()), Some(meta));
    assert!(matches!(r, Err(MvcError::IntegrityMismatch)));
}

#[test]
fn restore_of_missing_snapshot_is_not_found() {
    let meta = snapshot_metadata(b"x", "m");
    assert!(matches!(restore_check(None, Some(meta)), Err(MvcError::NotFound)));
    assert!(matches!(restore_check(Some(b"x".to_vec()), None), Err(MvcError::NotFound)));
    assert!(matches!(restore_check(None, None), Err(MvcError::NotFound)));
}

#[test]
fn restore_of_intact_snapshot_gives_its_message() {
    let meta = snapshot_metadata(b"content", "fix bug in parser");
    let rec = restore_check(Some(b"content".to_vec()), Some(meta)).unwrap();
    assert_eq!(rec.message, "fix bug in parser");
    assert!(matches!(restore_check(Some(b"c".to_vec()), Some("{".to_string())), Err(MvcError::InvalidState)));
}

#[test]
fn save_advances_head_by_one() {
    assert_eq!(next_snapshot_id(INITIAL_HEAD), Ok(1));
    assert_eq!(next_snapshot_id("41"), Ok(42));
    let id = next_snapshot_id("41").unwrap();
    assert_eq!(read_head(&head_text(id)), Ok(42));
    assert_eq!(next_snapshot_id("4294967295"), Err(MvcError::InvalidState));
    assert_eq!(next_snapshot_id("x"), Err(MvcError::InvalidState));
    assert_eq!(next_snapshot_id("+5"), Ok(6));
    assert_eq!(read_head(""), Err(MvcError::InvalidState));
}

#[test]
fn snapshot_paths() {
    assert_eq!(archive_path(3), ".mvc/archives/3.tar");
    assert_eq!(metadata_path(12), ".mvc/metadata/12.json");
}

#[test]
fn log_lists_ids_in_numeric_order() {
    let names = strings(&["2.json", "10.json", "1.json", "3.json"]);
    assert_eq!(snapshot_ids(&names), Ok(vec![1, 2, 3, 10]));
    assert_eq!(snapshot_ids(&strings(&["1.json", "2.json", "3.json"])), Ok(vec![1, 2, 3]));
    assert_eq!(snapshot_ids(&strings(&[])), Ok(vec![]));
    assert_eq!(snapshot_id_of("7.json"), Some(7));
    assert_eq!(snapshot_id_of("07.json"), None);
    assert_eq!(snapshot_id_of("+7.json"), None);
    assert_eq!(snapshot_id_of("7.tar"), None);
}

#[test]
fn log_refuses_foreign_or_clashing_names() {
    assert_eq!(snapshot_ids(&strings(&["1.json", "a.json"])), Err(MvcError::InvalidState));
    assert_eq!(snapshot_ids(&strings(&["1.json", "notes.txt"])), Err(MvcError::InvalidState));
    assert_eq!(snapshot_ids(&strings(&["01.json", "1.json"])), Err(MvcError::InvalidState));
    assert_eq!(snapshot_ids(&strings(&["1.json", "1.json"])), Err(MvcError::InvalidState));
    assert_eq!(snapshot_ids(&strings(&[".json"])), Err(MvcError::InvalidState));
}

#[test]
fn record_fields_are_read_back() {
    let rec = read_record("{\"message\": \"two words\", \"hash\": \"abc\"}").unwrap();
    assert_eq!(rec.hash, "abc");
    assert_eq!(rec.message, "two words");
    let rec = read_record(&metadata_json("h", "line\nbreak \"q\"")).unwrap();
    assert_eq!(rec.message, "line\nbreak \"q\"");
}

#[test]
fn repository_presence_rules() {
    assert_eq!(require_repository(true), Ok(()));
    assert_eq!(require_repository(false), Err(MvcError::NotInRepository));
    assert_eq!(require_uninitialized(false), Ok(()));
    assert_eq!(require_uninitialized(true), Err(MvcError::AlreadyInitialized));
}

#[test]
fn dispatch_single_word_commands() {
    assert_eq!(parse_command(&strings(&["mvc", "init"])), Ok(Command::Init));
    assert_eq!(parse_command(&strings(&["mvc", "log"])), Ok(Command::Log));
    assert_eq!(parse_command(&strings(&["mvc", "-v"])), Ok(Command::Version));
    assert_eq!(parse_command(&strings(&["mvc", "--version"])), Ok(Command::Version));
    assert_eq!(parse_command(&strings(&["mvc", "frobnicate"])), Ok(Command::Usage));
    assert_eq!(parse_command(&strings(&["mvc", "help"])), Ok(Command::Usage));
}

#[test]
fn dispatch_without_arguments_prints_usage() {
    assert_eq!(parse_command(&strings(&["mvc"])), Ok(Command::Usage));
    assert_eq!(parse_command(&strings(&[])), Ok(Command::Usage));
}

#[test]
fn dispatch_save_joins_words() {
    assert_eq!(
        parse_command(&strings(&["mvc", "save", "fix bug", "in parser"])),
        Ok(Command::Save("fix bug in parser".to_string()))
    );
    assert_eq!(parse_command(&strings(&["mvc", "save", "Initial"])), Ok(Command::Save("Initial".to_string())));
    assert_eq!(join_words(&strings(&["a", "b", "c"]), 1), "b c");
}

#[test]
fn dispatch_return_parses_id() {
    assert_eq!(parse_command(&strings(&["mvc", "return", "3"])), Ok(Command::Return(3)));
    assert_eq!(parse_command(&strings(&["mvc", "return", "+3"])), Ok(Command::Return(3)));
    assert_eq!(parse_command(&strings(&["mvc", "return", "three"])), Err(MvcError::InvalidInput));
    assert_eq!(parse_command(&strings(&["mvc", "unknown", "3"])), Ok(Command::Usage));
}

#[test]
fn text_helpers() {
    assert!(str_eq("abc", "abc"));
    assert!(!str_eq("abc", "abd"));
    assert!(list_contains(&strings(&["a", "b"]), "b"));
    assert!(!list_contains(&strings(&["a", "b"]), "c"));
    assert_eq!(MvcError::IntegrityMismatch.describe(), "Hashes do not match");
}
