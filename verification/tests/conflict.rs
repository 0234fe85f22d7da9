use media_classifier::conflict::{
    generate_unique_name, resolve_conflict, ConflictProgress, ConflictResolution, ConflictStep,
    ATTEMPT_CEILING,
};
use media_classifier::paths::TargetPath;
use std::collections::HashSet;

fn target(file_name: &str) -> TargetPath {
    TargetPath {
        base_dir: "/out".to_string(),
        directory: "JPG/20251118".to_string(),
        file_name: file_name.to_string(),
    }
}

enum End {
    Resolved(ConflictResolution),
    Exhausted,
}

/// Resolves the conflict at `target` in a directory that holds the names
/// `taken`, and counts the questions asked.
fn resolve(target: &TargetPath, taken: &HashSet<String>, sizes: (u64, u64)) -> (End, usize) {
    let mut progress = ConflictProgress::Start;
    let mut asked = 0;
    loop {
        match resolve_conflict(target, progress) {
            ConflictStep::CheckTarget => {
                asked += 1;
                progress =
                    ConflictProgress::TargetChecked { present: taken.contains(&target.file_name) };
            },
            ConflictStep::ReadSizes => {
                asked += 1;
                progress = ConflictProgress::SizesRead { source: sizes.0, target: sizes.1 };
            },
            ConflictStep::CheckCandidate { attempt, candidate } => {
                asked += 1;
                assert_eq!(candidate.base_dir, target.base_dir);
                assert_eq!(candidate.directory, target.directory);
                progress = ConflictProgress::CandidateChecked {
                    attempt,
                    present: taken.contains(&candidate.file_name),
                };
            },
            ConflictStep::Resolved(resolution) => return (End::Resolved(resolution), asked),
            ConflictStep::Exhausted => return (End::Exhausted, asked),
        }
    }
}

fn names(list: &[&str]) -> HashSet<String> {
    list.iter().map(|s| s.to_string()).collect()
}

fn renamed_to(end: End) -> String {
    match end {
        End::Resolved(ConflictResolution::Rename(path)) => path.file_name,
        _ => panic!("no rename"),
    }
}

#[test]
fn test_generate_unique_name() {
    let base_path = target("test.jpg");

    let mut taken = names(&["test.jpg"]);
    let unique = renamed_to(resolve(&base_path, &taken, (4, 5)).0);
    assert_eq!(unique, "test_1.jpg");

    taken.insert(unique);

    let unique2 = renamed_to(resolve(&base_path, &taken, (4, 5)).0);
    assert_eq!(unique2, "test_2.jpg");
}

#[test]
fn a_free_destination_is_no_conflict() {
    let (end, asked) = resolve(&target("photo.jpg"), &names(&["other.jpg"]), (1, 2));
    match end {
        End::Resolved(ConflictResolution::NoConflict(path)) => {
            assert_eq!(path.base_dir, "/out");
            assert_eq!(path.directory, "JPG/20251118");
            assert_eq!(path.file_name, "photo.jpg");
        },
        _ => panic!("expected no conflict"),
    }
    assert_eq!(asked, 1);
}

#[test]
fn the_same_size_is_skipped_and_another_size_is_renamed() {
    let taken = names(&["photo.jpg"]);
    let (end, asked) = resolve(&target("photo.jpg"), &taken, (1234, 1234));
    match end {
        End::Resolved(ConflictResolution::Skip(reason)) => {
            assert_eq!(reason, "File already exists with same size (1234 bytes)");
        },
        _ => panic!("expected a skip"),
    }
    assert_eq!(asked, 2);

    // the same pair with different sizes, once photo_1.jpg is there too
    let taken = names(&["photo.jpg", "photo_1.jpg"]);
    let (end, asked) = resolve(&target("photo.jpg"), &taken, (1234, 99));
    assert_eq!(renamed_to(end), "photo_2.jpg");
    assert_eq!(asked, 4);

    let (end, _) = resolve(&target("photo.jpg"), &taken, (0, 0));
    assert!(matches!(end, End::Resolved(ConflictResolution::Skip(_))));
}

#[test]
fn the_first_free_number_is_taken() {
    let taken = names(&["a.jpg", "a_1.jpg", "a_2.jpg", "a_4.jpg"]);
    assert_eq!(renamed_to(resolve(&target("a.jpg"), &taken, (1, 2)).0), "a_3.jpg");
}

#[test]
fn the_search_gives_up_after_1000_names() {
    let mut taken = names(&["a.jpg"]);
    for n in 1..1000 {
        taken.insert(format!("a_{}.jpg", n));
    }
    let (end, asked) = resolve(&target("a.jpg"), &taken, (1, 2));
    assert_eq!(renamed_to(end), "a_1000.jpg");
    assert_eq!(asked, 2 + 1000);

    taken.insert("a_1000.jpg".to_string());
    let (end, asked) = resolve(&target("a.jpg"), &taken, (1, 2));
    assert!(matches!(end, End::Exhausted));
    assert_eq!(asked, 2 + 1000);
    assert_eq!(ATTEMPT_CEILING, 1000);
}

#[test]
fn single_steps() {
    let path = target("a.jpg");
    assert!(matches!(resolve_conflict(&path, ConflictProgress::Start), ConflictStep::CheckTarget));
    assert!(matches!(
        resolve_conflict(&path, ConflictProgress::TargetChecked { present: true }),
        ConflictStep::ReadSizes
    ));
    match resolve_conflict(&path, ConflictProgress::SizesRead { source: 1, target: 2 }) {
        ConflictStep::CheckCandidate { attempt, candidate } => {
            assert_eq!(attempt, 1);
            assert_eq!(candidate.file_name, "a_1.jpg");
        },
        _ => panic!("expected a candidate"),
    }
    match resolve_conflict(&path, ConflictProgress::CandidateChecked { attempt: 41, present: true }) {
        ConflictStep::CheckCandidate { attempt, candidate } => {
            assert_eq!(attempt, 42);
            assert_eq!(candidate.file_name, "a_42.jpg");
        },
        _ => panic!("expected a candidate"),
    }
    match resolve_conflict(&path, ConflictProgress::CandidateChecked { attempt: 999, present: true }) {
        ConflictStep::CheckCandidate { attempt, candidate } => {
            assert_eq!(attempt, 1000);
            assert_eq!(candidate.file_name, "a_1000.jpg");
        },
        _ => panic!("expected a candidate"),
    }
    match resolve_conflict(&path, ConflictProgress::CandidateChecked { attempt: 1000, present: false })
    {
        ConflictStep::Resolved(ConflictResolution::Rename(path)) => {
            assert_eq!(path.file_name, "a_1000.jpg")
        },
        _ => panic!("expected a rename"),
    }
    assert!(matches!(
        resolve_conflict(&path, ConflictProgress::CandidateChecked { attempt: 1000, present: true }),
        ConflictStep::Exhausted
    ));
    assert!(matches!(
        resolve_conflict(
            &path,
            ConflictProgress::CandidateChecked { attempt: u32::MAX, present: true }
        ),
        ConflictStep::Exhausted
    ));
}

#[test]
fn numbered_names() {
    assert_eq!(generate_unique_name(&target("photo.jpg"), 1).file_name, "photo_1.jpg");
    assert_eq!(generate_unique_name(&target("photo.jpg"), 999).file_name, "photo_999.jpg");
    assert_eq!(generate_unique_name(&target("notes"), 7).file_name, "notes_7");
    assert_eq!(generate_unique_name(&target("archive.tar.gz"), 2).file_name, "archive.tar_2.gz");
    assert_eq!(generate_unique_name(&target(".hidden"), 3).file_name, ".hidden_3");
    assert_eq!(generate_unique_name(&target("trailing."), 4).file_name, "trailing_4");
    assert_eq!(generate_unique_name(&target("photo.jpg"), 0).file_name, "photo_0.jpg");
    assert_eq!(
        generate_unique_name(&target("photo.jpg"), u32::MAX).file_name,
        "photo_4294967295.jpg"
    );
    let path = generate_unique_name(&target("photo.jpg"), 5);
    assert_eq!((path.base_dir.as_str(), path.directory.as_str()), ("/out", "JPG/20251118"));
}
