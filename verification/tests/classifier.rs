use media_classifier::classifier::{
    classify_file, classify_file_with_config, classify_step, ClassifyError, ClassifyResult,
    ConflictQuery, Phase, Reply, Request, Transition,
};
use media_classifier::config::{Config, ExcludeConfig, FileSizeFilter, GlobalConfig, Rule};
use media_classifier::media_types::{MediaInfo, MediaType};
use media_classifier::paths::{is_classified_file, SourcePath, TargetPath};
use media_classifier::report::Statistics;
use media_classifier::rule_matcher::RuleMatcher;
use media_classifier::template::DateStamp;
use std::collections::HashMap;

/// Takes a path apart at its slashes, for the tests.
fn source(path: &str) -> SourcePath {
    let mut parts: Vec<&str> = path.split('/').filter(|part| !part.is_empty()).collect();
    let file_name = parts.pop().map(|s| s.to_string());
    let parent_name = parts.pop().map(|s| s.to_string());
    let grandparent_name = parts.pop().map(|s| s.to_string());
    SourcePath { path: path.to_string(), file_name, parent_name, grandparent_name }
}

fn date(year: i32, month: u32, day: u32) -> DateStamp {
    DateStamp { year, month, day, hour: 14, minute: 30, second: 0, nanosecond: 0, utc_offset: 3600 }
}

fn joined(target: &TargetPath) -> String {
    format!("{}/{}/{}", target.base_dir, target.directory, target.file_name)
}

/// A file system for the tests: the sizes of the files that exist, and the
/// date of every file.
struct Disk {
    files: HashMap<String, u64>,
    date: Result<DateStamp, String>,
    moves: Vec<(String, String)>,
    requests: Vec<String>,
}

impl Disk {
    fn new(files: &[(&str, u64)]) -> Disk {
        Disk {
            files: files.iter().map(|(path, size)| (path.to_string(), *size)).collect(),
            date: Ok(date(2025, 11, 18)),
            moves: Vec::new(),
            requests: Vec::new(),
        }
    }

    /// Classifies `path`, answering every request from this disk.
    fn classify(&mut self, config: &Config, path: &str) -> Result<ClassifyResult, ClassifyError> {
        let matcher = RuleMatcher::new(config);
        let file = source(path);
        let mut next = classify_step(&matcher, "/out", &file, Phase::Start, Reply::Begin);
        loop {
            let reply = match next.request {
                Request::ReadFileSize => {
                    self.requests.push("size".to_string());
                    match self.files.get(path) {
                        Some(size) => Reply::FileSize(*size),
                        None => Reply::IoFailed("Failed to get file metadata".to_string()),
                    }
                },
                Request::ExtractDate { is_image } => {
                    self.requests.push(format!("date {}", is_image));
                    match &self.date {
                        Ok(stamp) => Reply::Date(*stamp),
                        Err(cause) => Reply::DateFailed(cause.clone()),
                    }
                },
                Request::CheckExists(target) => {
                    self.requests.push(format!("exists {}", joined(&target)));
                    Reply::Exists(self.files.contains_key(&joined(&target)))
                },
                Request::ReadSizes(target) => {
                    self.requests.push(format!("sizes {}", joined(&target)));
                    Reply::Sizes { source: self.files[path], target: self.files[&joined(&target)] }
                },
                Request::MoveFile { to } => {
                    self.requests.push(format!("move {}", joined(&to)));
                    let size = self.files.remove(path).unwrap();
                    self.files.insert(joined(&to), size);
                    self.moves.push((path.to_string(), joined(&to)));
                    Reply::Moved
                },
                Request::Finish(result) => {
                    assert!(matches!(next.phase, Phase::Finished));
                    return result;
                },
            };
            next = classify_step(&matcher, "/out", &file, next.phase, reply);
        }
    }
}

fn two_rules() -> Config {
    let rule = |name: &str, min: &str, max: &str, template: &str, format: &str| Rule {
        name: name.to_string(),
        description: String::new(),
        extensions: vec!["jpg".to_string()],
        file_size: Some(FileSizeFilter { min: Some(min.to_string()), max: Some(max.to_string()) }),
        directory_template: template.to_string(),
        date_format: Some(format.to_string()),
        enabled: true,
    };
    Config {
        global: GlobalConfig {
            date_format: "YYYYMMDD".to_string(),
            directory_template: "{ext}/{date}".to_string(),
            clean_empty_dirs: true,
            file_size: None,
        },
        rules: vec![
            rule("photos", "5MB", "0B", "Photos/{year}/{month}", "YYYY/MM"),
            rule("thumbnails", "0B", "5MB", "Thumbnails/{date}", "YYYYMMDD"),
        ],
        extension_aliases: Vec::new(),
        exclude: ExcludeConfig::default(),
    }
}

const MB: u64 = 1024 * 1024;

#[test]
fn test_is_classified_file() {
    let path1 = source("/home/user/JPG/20251118/photo.jpg");
    assert!(is_classified_file(&path1));

    let path2 = source("/home/user/photos/photo.jpg");
    assert!(!is_classified_file(&path2));

    let path3 = source("/home/user/NEF/20251115/DSC_1234.NEF");
    assert!(is_classified_file(&path3));
}

#[test]
fn classified_directories_need_eight_digits_below_capitals() {
    assert!(is_classified_file(&source("/x/MP4/20250101/a.mp4")));
    assert!(is_classified_file(&source("/x/3GP/00000000/a.3gp")));
    assert!(!is_classified_file(&source("/x/JPG/2025111/a.jpg")));
    assert!(!is_classified_file(&source("/x/JPG/202511180/a.jpg")));
    assert!(!is_classified_file(&source("/x/JPG/2025111a/a.jpg")));
    assert!(!is_classified_file(&source("/x/JPG/２０２５１１１８/a.jpg")));
    assert!(!is_classified_file(&source("/x/jpg/20251118/a.jpg")));
    assert!(!is_classified_file(&source("/x/Jpg/20251118/a.jpg")));
    assert!(!is_classified_file(&source("/x/J-G/20251118/a.jpg")));
    assert!(!is_classified_file(&source("/20251118/a.jpg")));
    assert!(!is_classified_file(&source("a.jpg")));
    let mut bare = source("/x/JPG/20251118/a.jpg");
    bare.grandparent_name = Some(String::new());
    assert!(is_classified_file(&bare));
}

#[test]
fn end_to_end_by_size() {
    let config = two_rules();
    let mut disk = Disk::new(&[("/in/big.jpg", 10 * MB), ("/in/small.jpg", MB)]);

    match disk.classify(&config, "/in/big.jpg").unwrap() {
        ClassifyResult::Success { from, to } => {
            assert_eq!(from, "/in/big.jpg");
            assert_eq!(joined(&to), "/out/Photos/2025/11/big.jpg");
        },
        other => panic!("{:?}", other),
    }
    match disk.classify(&config, "/in/small.jpg").unwrap() {
        ClassifyResult::Success { from, to } => {
            assert_eq!(from, "/in/small.jpg");
            assert_eq!(joined(&to), "/out/Thumbnails/20251118/small.jpg");
        },
        other => panic!("{:?}", other),
    }
    assert_eq!(
        disk.moves,
        vec![
            ("/in/big.jpg".to_string(), "/out/Photos/2025/11/big.jpg".to_string()),
            ("/in/small.jpg".to_string(), "/out/Thumbnails/20251118/small.jpg".to_string()),
        ]
    );
}

#[test]
fn the_requests_of_a_plain_move() {
    let config = two_rules();
    let mut disk = Disk::new(&[("/in/big.jpg", 10 * MB)]);
    disk.classify(&config, "/in/big.jpg").unwrap();
    assert_eq!(
        disk.requests,
        vec![
            "size",
            "date true",
            "exists /out/Photos/2025/11/big.jpg",
            "move /out/Photos/2025/11/big.jpg",
        ]
    );
}

#[test]
fn what_is_no_media_fails_without_a_request() {
    let config = Config::default();
    let mut disk = Disk::new(&[("/in/notes.txt", 5)]);
    match disk.classify(&config, "/in/notes.txt").unwrap() {
        ClassifyResult::Failed { path, error } => {
            assert_eq!(path, "/in/notes.txt");
            assert_eq!(error, "Not a media file");
        },
        other => panic!("{:?}", other),
    }
    assert!(disk.requests.is_empty());
    let nameless = SourcePath {
        path: "/".to_string(),
        file_name: None,
        parent_name: None,
        grandparent_name: None,
    };
    let next = classify_file("/out", &nameless, Phase::Start, Reply::Begin);
    assert!(matches!(next.request, Request::Finish(Ok(ClassifyResult::Failed { .. }))));
}

#[test]
fn no_rule_fails_after_the_size() {
    let config = Config::default();
    let mut disk = Disk::new(&[("/in/a.gif", 5)]);
    match disk.classify(&config, "/in/a.gif").unwrap() {
        ClassifyResult::Failed { path, error } => {
            assert_eq!(path, "/in/a.gif");
            assert_eq!(error, "No matching rule found");
        },
        other => panic!("{:?}", other),
    }
    assert_eq!(disk.requests, vec!["size"]);
}

#[test]
fn a_missing_date_fails_with_its_cause() {
    let config = Config::default();
    let mut disk = Disk::new(&[("/in/a.mp4", 5)]);
    disk.date = Err("no clock".to_string());
    match disk.classify(&config, "/in/a.mp4").unwrap() {
        ClassifyResult::Failed { path, error } => {
            assert_eq!(path, "/in/a.mp4");
            assert_eq!(error, "Failed to extract date: no clock");
        },
        other => panic!("{:?}", other),
    }
    assert_eq!(disk.requests, vec!["size", "date false"]);
}

#[test]
fn a_rule_without_date_format_asks_for_no_date() {
    let config = Config::default();
    let mut disk = Disk::new(&[("/in/song.mp3", 5)]);
    disk.date = Err("must not be asked".to_string());
    match disk.classify(&config, "/in/song.mp3").unwrap() {
        ClassifyResult::Success { to, .. } => assert_eq!(joined(&to), "/out/Music/MP3/song.mp3"),
        other => panic!("{:?}", other),
    }
    assert_eq!(disk.requests, vec!["size", "exists /out/Music/MP3/song.mp3", "move /out/Music/MP3/song.mp3"]);
}

#[test]
fn a_classified_file_is_skipped_before_its_path_is_built() {
    let config = Config::default();
    let mut disk = Disk::new(&[("/out/NEF/20251115/DSC_1234.NEF", 20 * MB)]);
    match disk.classify(&config, "/out/NEF/20251115/DSC_1234.NEF").unwrap() {
        ClassifyResult::Skipped { path, reason } => {
            assert_eq!(path, "/out/NEF/20251115/DSC_1234.NEF");
            assert_eq!(reason, None);
        },
        other => panic!("{:?}", other),
    }
    assert_eq!(disk.requests, vec!["size", "date true"]);
    assert!(disk.moves.is_empty());
}

#[test]
fn a_file_of_the_same_size_is_skipped() {
    let config = two_rules();
    let mut disk =
        Disk::new(&[("/in/big.jpg", 10 * MB), ("/out/Photos/2025/11/big.jpg", 10 * MB)]);
    match disk.classify(&config, "/in/big.jpg").unwrap() {
        ClassifyResult::Skipped { path, reason } => {
            assert_eq!(path, "/in/big.jpg");
            assert_eq!(
                reason.as_deref(),
                Some("File already exists with same size (10485760 bytes)")
            );
        },
        other => panic!("{:?}", other),
    }
    assert!(disk.moves.is_empty());
}

#[test]
fn a_file_of_another_size_is_renamed() {
    let config = two_rules();
    let mut disk = Disk::new(&[
        ("/in/big.jpg", 10 * MB),
        ("/out/Photos/2025/11/big.jpg", 11 * MB),
        ("/out/Photos/2025/11/big_1.jpg", 12 * MB),
    ]);
    match disk.classify(&config, "/in/big.jpg").unwrap() {
        ClassifyResult::Renamed { from, to } => {
            assert_eq!(from, "/in/big.jpg");
            assert_eq!(joined(&to), "/out/Photos/2025/11/big_2.jpg");
        },
        other => panic!("{:?}", other),
    }
    assert_eq!(
        disk.requests,
        vec![
            "size",
            "date true",
            "exists /out/Photos/2025/11/big.jpg",
            "sizes /out/Photos/2025/11/big.jpg",
            "exists /out/Photos/2025/11/big_1.jpg",
            "exists /out/Photos/2025/11/big_2.jpg",
            "move /out/Photos/2025/11/big_2.jpg",
        ]
    );
}

#[test]
fn exhausted_names_are_an_error() {
    let config = two_rules();
    let mut files: Vec<(String, u64)> =
        vec![("/in/a.jpg".to_string(), 10 * MB), ("/out/Photos/2025/11/a.jpg".to_string(), 1)];
    for n in 1..=1000 {
        files.push((format!("/out/Photos/2025/11/a_{}.jpg", n), 1));
    }
    let borrowed: Vec<(&str, u64)> = files.iter().map(|(p, s)| (p.as_str(), *s)).collect();
    let mut disk = Disk::new(&borrowed);
    let error = disk.classify(&config, "/in/a.jpg").unwrap_err();
    assert!(matches!(error, ClassifyError::UniqueNameExhausted));
    assert_eq!(error.message(), "Failed to generate unique name after 1000 attempts");
    assert!(disk.moves.is_empty());
}

#[test]
fn the_thousandth_name_is_still_taken() {
    let config = two_rules();
    let mut files: Vec<(String, u64)> =
        vec![("/in/a.jpg".to_string(), 10 * MB), ("/out/Photos/2025/11/a.jpg".to_string(), 1)];
    for n in 1..1000 {
        files.push((format!("/out/Photos/2025/11/a_{}.jpg", n), 1));
    }
    let borrowed: Vec<(&str, u64)> = files.iter().map(|(p, s)| (p.as_str(), *s)).collect();
    let mut disk = Disk::new(&borrowed);
    match disk.classify(&config, "/in/a.jpg").unwrap() {
        ClassifyResult::Renamed { to, .. } => {
            assert_eq!(joined(&to), "/out/Photos/2025/11/a_1000.jpg")
        },
        other => panic!("{:?}", other),
    }
}

#[test]
fn a_refused_operation_is_an_error_with_its_cause() {
    let config = two_rules();
    let mut disk = Disk::new(&[]);
    let error = disk.classify(&config, "/in/gone.jpg").unwrap_err();
    match &error {
        ClassifyError::FilesystemError(cause) => assert_eq!(cause, "Failed to get file metadata"),
        other => panic!("{:?}", other),
    }
    assert_eq!(error.message(), "Failed to get file metadata");

    let matcher = RuleMatcher::new(&config);
    let file = source("/in/big.jpg");
    let to = TargetPath {
        base_dir: "/out".to_string(),
        directory: "d".to_string(),
        file_name: "big.jpg".to_string(),
    };
    for phase in [
        Phase::PathBuilt { target: to.clone(), asked: ConflictQuery::Target },
        Phase::PathBuilt { target: to.clone(), asked: ConflictQuery::Sizes },
        Phase::PathBuilt { target: to.clone(), asked: ConflictQuery::Candidate(3) },
        Phase::ConflictResolved { to: to.clone(), renamed: false },
    ] {
        let next =
            classify_step(&matcher, "/out", &file, phase, Reply::IoFailed("disk full".to_string()));
        assert!(matches!(next.phase, Phase::Finished));
        match next.request {
            Request::Finish(Err(ClassifyError::FilesystemError(cause))) => {
                assert_eq!(cause, "disk full")
            },
            other => panic!("{:?}", other),
        }
    }
}

#[test]
fn a_date_that_cannot_be_rendered_is_an_error() {
    let mut config = two_rules();
    config.rules[0].date_format = Some("%Q".to_string());
    let mut disk = Disk::new(&[("/in/big.jpg", 10 * MB)]);
    let error = disk.classify(&config, "/in/big.jpg").unwrap_err();
    assert!(matches!(error, ClassifyError::UnrenderableDate));
}

#[test]
fn a_source_without_a_name_has_no_destination() {
    let config = Config::default();
    let matcher = RuleMatcher::new(&config);
    let nameless = SourcePath {
        path: "/".to_string(),
        file_name: None,
        parent_name: None,
        grandparent_name: None,
    };
    let info = MediaInfo { media_type: MediaType::Audio, extension: "MP3".to_string() };
    let next =
        classify_step(&matcher, "/out", &nameless, Phase::MediaDetected { info }, Reply::FileSize(5));
    assert!(matches!(next.phase, Phase::Finished));
    assert!(matches!(next.request, Request::Finish(Err(ClassifyError::MissingFileName))));
}

#[test]
fn a_reply_that_answers_nothing_is_an_error() {
    let config = two_rules();
    let matcher = RuleMatcher::new(&config);
    let file = source("/in/big.jpg");
    let info = || MediaInfo { media_type: MediaType::Image, extension: "JPG".to_string() };
    let to = TargetPath {
        base_dir: "/out".to_string(),
        directory: "d".to_string(),
        file_name: "big.jpg".to_string(),
    };
    let unexpected = |next: Transition| {
        assert!(matches!(next.phase, Phase::Finished));
        assert!(matches!(next.request, Request::Finish(Err(ClassifyError::UnexpectedReply))));
    };
    unexpected(classify_step(&matcher, "/out", &file, Phase::Start, Reply::Moved));
    unexpected(classify_step(&matcher, "/out", &file, Phase::Start, Reply::FileSize(1)));
    unexpected(classify_step(
        &matcher,
        "/out",
        &file,
        Phase::MediaDetected { info: info() },
        Reply::Exists(true),
    ));
    unexpected(classify_step(
        &matcher,
        "/out",
        &file,
        Phase::RuleMatched { info: info(), rule: 0 },
        Reply::FileSize(1),
    ));
    unexpected(classify_step(
        &matcher,
        "/out",
        &file,
        Phase::RuleMatched { info: info(), rule: 2 },
        Reply::Date(date(2025, 1, 1)),
    ));
    unexpected(classify_step(
        &matcher,
        "/out",
        &file,
        Phase::PathBuilt { target: to.clone(), asked: ConflictQuery::Sizes },
        Reply::Exists(true),
    ));
    unexpected(classify_step(
        &matcher,
        "/out",
        &file,
        Phase::PathBuilt { target: to.clone(), asked: ConflictQuery::Target },
        Reply::Moved,
    ));
    unexpected(classify_step(
        &matcher,
        "/out",
        &file,
        Phase::ConflictResolved { to: to.clone(), renamed: true },
        Reply::Begin,
    ));
    unexpected(classify_step(&matcher, "/out", &file, Phase::Finished, Reply::Begin));
    unexpected(classify_step(
        &matcher,
        "/out",
        &file,
        Phase::Finished,
        Reply::IoFailed("late".to_string()),
    ));
}

#[test]
fn classifying_with_the_default_config() {
    let file = source("/in/clip.mp4");
    let next = classify_file("/out", &file, Phase::Start, Reply::Begin);
    assert!(matches!(next.request, Request::ReadFileSize));
    let next = classify_file("/out", &file, next.phase, Reply::FileSize(100 * MB));
    assert!(matches!(next.request, Request::ExtractDate { is_image: false }));
    let config = Config::default();
    let next =
        classify_file_with_config(&config, "/out", &file, next.phase, Reply::Date(date(2024, 2, 29)));
    match &next.request {
        Request::CheckExists(target) => assert_eq!(joined(target), "/out/Videos/2024/clip.mp4"),
        other => panic!("{:?}", other),
    }
    let next = classify_file("/out", &file, next.phase, Reply::Exists(false));
    assert!(matches!(next.request, Request::MoveFile { .. }));
    let next = classify_file("/out", &file, next.phase, Reply::Moved);
    assert!(matches!(next.request, Request::Finish(Ok(ClassifyResult::Success { .. }))));
}

#[test]
fn error_messages() {
    assert_eq!(ClassifyError::UnrecognizedMediaType.message(), "Not a media file");
    assert_eq!(ClassifyError::NoMatchingRule.message(), "No matching rule found");
    assert_eq!(
        ClassifyError::DateExtractionFailed("x".to_string()).message(),
        "Failed to extract date: x"
    );
    assert_eq!(ClassifyError::FilesystemError("y".to_string()).message(), "y");
    assert_eq!(ClassifyError::MissingFileName.message(), "Failed to get filename");
    assert_eq!(ClassifyError::UnrenderableDate.message(), "Failed to format date");
    assert_eq!(ClassifyError::UnexpectedReply.message(), "Unexpected reply");
}

#[test]
fn statistics_count_each_kind() {
    let to = || TargetPath {
        base_dir: "/out".to_string(),
        directory: "d".to_string(),
        file_name: "f".to_string(),
    };
    let mut stats = Statistics::new();
    assert_eq!(stats.total(), 0);
    stats.record(&ClassifyResult::Success { from: "a".to_string(), to: to() });
    stats.record(&ClassifyResult::Success { from: "b".to_string(), to: to() });
    stats.record(&ClassifyResult::Skipped { path: "c".to_string(), reason: None });
    stats.record(&ClassifyResult::Renamed { from: "d".to_string(), to: to() });
    stats.record(&ClassifyResult::Failed { path: "e".to_string(), error: "x".to_string() });
    assert_eq!(stats, Statistics { success: 2, skipped: 1, renamed: 1, failed: 1 });
    assert_eq!(stats.total(), 5);
}
