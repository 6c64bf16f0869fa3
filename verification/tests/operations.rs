use pika::files::operations::{conflict_candidate, decimal_char_vec, pick_free, resolve_conflict};
use tempfile::{Builder, NamedTempFile, TempDir};

fn setup() -> TempDir {
    TempDir::new().unwrap()
}

/// Create the file `name` (exactly that name) in `dir`.
fn touch(dir: &TempDir, stem: &str, suffix: &str) -> NamedTempFile {
    Builder::new().prefix(stem).suffix(suffix).rand_bytes(0).tempfile_in(dir.path()).unwrap()
}

fn path_in(dir: &TempDir, name: &str) -> String {
    dir.path().join(name).to_string_lossy().to_string()
}

#[test]
fn test_resolve_conflict_no_conflict() {
    let tmp = setup();
    let target = path_in(&tmp, "file.txt");
    assert_eq!(resolve_conflict(&target), target);
}

#[test]
fn test_resolve_conflict_first_collision() {
    let tmp = setup();
    let target = path_in(&tmp, "file.txt");
    let _f = touch(&tmp, "file", ".txt");

    let resolved = resolve_conflict(&target);
    assert_eq!(resolved, path_in(&tmp, "file (copy).txt"));
}

#[test]
fn test_resolve_conflict_multiple_collisions() {
    let tmp = setup();
    let target = path_in(&tmp, "file.txt");
    let _f = touch(&tmp, "file", ".txt");
    let _g = touch(&tmp, "file (copy)", ".txt");

    let resolved = resolve_conflict(&target);
    assert_eq!(resolved, path_in(&tmp, "file (2).txt"));
}

#[test]
fn test_resolve_conflict_no_extension() {
    let tmp = setup();
    let target = path_in(&tmp, "README");
    let _f = touch(&tmp, "README", "");

    let resolved = resolve_conflict(&target);
    assert_eq!(resolved, path_in(&tmp, "README (copy)"));
}

#[test]
fn resolve_conflict_skips_three_taken_names() {
    let tmp = setup();
    let target = path_in(&tmp, "a.rs");
    let _f = touch(&tmp, "a", ".rs");
    let _g = touch(&tmp, "a (copy)", ".rs");
    let _h = touch(&tmp, "a (2)", ".rs");
    assert_eq!(resolve_conflict(&target), path_in(&tmp, "a (3).rs"));
}

#[test]
fn conflict_candidate_names() {
    assert_eq!(conflict_candidate("/tmp/x/file.txt", 1), "/tmp/x/file (copy).txt");
    assert_eq!(conflict_candidate("/tmp/x/file.txt", 2), "/tmp/x/file (2).txt");
    assert_eq!(conflict_candidate("/tmp/x/file.txt", 12), "/tmp/x/file (12).txt");
    assert_eq!(conflict_candidate("/tmp/x/README", 1), "/tmp/x/README (copy)");
    assert_eq!(conflict_candidate("/tmp/x/archive.tar.gz", 3), "/tmp/x/archive.tar (3).gz");
}

#[test]
fn decimal_chars_of_numbers() {
    let s: String = decimal_char_vec(0).into_iter().collect();
    assert_eq!(s, "0");
    let s: String = decimal_char_vec(407).into_iter().collect();
    assert_eq!(s, "407");
    let s: String = decimal_char_vec(u32::MAX).into_iter().collect();
    assert_eq!(s, "4294967295");
}

#[test]
fn pick_free_first_free_attempt() {

    assert_eq!(pick_free("/d/file.txt", &vec![false]), "/d/file.txt");
    assert_eq!(pick_free("/d/file.txt", &vec![true, false]), "/d/file (copy).txt");
    assert_eq!(pick_free("/d/file.txt", &vec![true, true, true, false]), "/d/file (3).txt");
    assert_eq!(pick_free("/d/file.txt", &vec![true, true]), "/d/file.txt");
}
