//! Classifying one file, step by step. The library decides; the caller
//! reads sizes and dates, asks what exists, and moves the file.
//!
//! A classification goes through the phases `Start`, `MediaDetected`,
//! `RuleMatched`, `PathBuilt` and `ConflictResolved` to `Finished`.
//! `classify_step` takes the phase and the caller's reply to the last
//! request, and gives the next phase and the next request. The last request
//! is `Finish`, with the result for the file or with an error.

use crate::config::{default_config_view, Config, ConfigView};
use crate::conflict::{
    candidate, conflict_step, first_free, resolution, resolve_conflict, ConflictProgress,
    ConflictResolution, ConflictStep, Outcome, ResolutionView, StepView, Surroundings,
    ATTEMPT_CEILING,
};
use crate::media_types::{get_media_info, media_info_of, MediaInfo, MediaInfoView, MediaType};
use crate::paths::{is_classified, is_classified_file, SourcePath, SourceView, TargetPath, TargetView};
use crate::rule_matcher::{
    law_answer_is_first_or_fallback, matched_rule, target_path, PathError, RuleMatcher,
};
use crate::template::DateStamp;
use crate::text::{append_chars, from_chars, lowercase_of, str_to_string, to_chars};
use vstd::prelude::*;

verus! {

/// What became of a file.
#[derive(Debug)]
pub enum ClassifyResult {
    /// The file was moved to its destination.
    Success { from: String, to: TargetPath },
    /// The file stayed where it is: it was classified before, or a file of
    /// the same size is at its destination, for which `reason` is given.
    Skipped { path: String, reason: Option<String> },
    /// The file was moved under a new name, its destination being taken.
    Renamed { from: String, to: TargetPath },
    /// The file cannot be classified.
    Failed { path: String, error: String },
}

/// A `ClassifyResult` as plain text.
pub enum ResultView {
    Success { from: Seq<char>, to: TargetView },
    Skipped { path: Seq<char>, reason: Option<Seq<char>> },
    Renamed { from: Seq<char>, to: TargetView },
    Failed { path: Seq<char>, error: Seq<char> },
}

impl View for ClassifyResult {
    type V = ResultView;

    open spec fn view(&self) -> ResultView {
        match self {
            ClassifyResult::Success { from, to } => ResultView::Success { from: from@, to: to@ },
            ClassifyResult::Skipped { path, reason } => ResultView::Skipped {
                path: path@,
                reason: reason.deep_view(),
            },
            ClassifyResult::Renamed { from, to } => ResultView::Renamed { from: from@, to: to@ },
            ClassifyResult::Failed { path, error } => ResultView::Failed {
                path: path@,
                error: error@,
            },
        }
    }
}

/// Why a file is not classified. The first three are outcomes for the one
/// file and are reported as `ClassifyResult::Failed`; the others end the
/// classification of the file with an error.
#[derive(Debug)]
pub enum ClassifyError {
    /// The file's extension names no media.
    UnrecognizedMediaType,
    /// No rule takes the file.
    NoMatchingRule,
    /// The file's date cannot be found, for the cause given.
    DateExtractionFailed(String),
    /// The file system refused an operation, for the cause given.
    FilesystemError(String),
    /// Every numbered name for the file is taken.
    UniqueNameExhausted,
    /// The source path ends in no file name.
    MissingFileName,
    /// The date cannot be rendered as the rule's date format asks.
    UnrenderableDate,
    /// The reply does not answer the request of the phase.
    UnexpectedReply,
}

/// A `ClassifyError` as plain text.
pub enum ErrorView {
    UnrecognizedMediaType,
    NoMatchingRule,
    DateExtractionFailed(Seq<char>),
    FilesystemError(Seq<char>),
    UniqueNameExhausted,
    MissingFileName,
    UnrenderableDate,
    UnexpectedReply,
}

impl View for ClassifyError {
    type V = ErrorView;

    open spec fn view(&self) -> ErrorView {
        match self {
            ClassifyError::UnrecognizedMediaType => ErrorView::UnrecognizedMediaType,
            ClassifyError::NoMatchingRule => ErrorView::NoMatchingRule,
            ClassifyError::DateExtractionFailed(cause) => ErrorView::DateExtractionFailed(cause@),
            ClassifyError::FilesystemError(cause) => ErrorView::FilesystemError(cause@),
            ClassifyError::UniqueNameExhausted => ErrorView::UniqueNameExhausted,
            ClassifyError::MissingFileName => ErrorView::MissingFileName,
            ClassifyError::UnrenderableDate => ErrorView::UnrenderableDate,
            ClassifyError::UnexpectedReply => ErrorView::UnexpectedReply,
        }
    }
}

/// The words that an error is reported with.
pub open spec fn error_message(error: ErrorView) -> Seq<char> {
    match error {
        ErrorView::UnrecognizedMediaType => "Not a media file"@,
        ErrorView::NoMatchingRule => "No matching rule found"@,
        ErrorView::DateExtractionFailed(cause) => "Failed to extract date: "@ + cause,
        ErrorView::FilesystemError(cause) => cause,
        ErrorView::UniqueNameExhausted => "Failed to generate unique name after 1000 attempts"@,
        ErrorView::MissingFileName => "Failed to get filename"@,
        ErrorView::UnrenderableDate => "Failed to format date"@,
        ErrorView::UnexpectedReply => "Unexpected reply"@,
    }
}

impl ClassifyError {
    /// The words that the error is reported with.
    pub fn message(&self) -> (text: String)
        ensures
            text@ == error_message(self@),
    {
        match self {
            ClassifyError::UnrecognizedMediaType => str_to_string("Not a media file"),
            ClassifyError::NoMatchingRule => str_to_string("No matching rule found"),
            ClassifyError::DateExtractionFailed(cause) => {
                let mut text = to_chars("Failed to extract date: ");
                let more = to_chars(cause.as_str());
                append_chars(&mut text, &more);
                from_chars(&text)
            },
            ClassifyError::FilesystemError(cause) => cause.clone(),
            ClassifyError::UniqueNameExhausted => str_to_string(
                "Failed to generate unique name after 1000 attempts",
            ),
            ClassifyError::MissingFileName => str_to_string("Failed to get filename"),
            ClassifyError::UnrenderableDate => str_to_string("Failed to format date"),
            ClassifyError::UnexpectedReply => str_to_string("Unexpected reply"),
        }
    }
}

/// What the resolver of conflicts asked last.
#[derive(Debug, Clone, Copy, PartialEq, Eq, Structural)]
pub enum ConflictQuery {
    /// Whether the destination exists.
    Target,
    /// The sizes of the source and of the file at the destination.
    Sizes,
    /// Whether the name with this number exists.
    Candidate(u32),
}

/// Where the classification of a file stands.
#[derive(Debug)]
pub enum Phase {
    /// Nothing is known yet.
    Start,
    /// The file is a media file; its size was asked for.
    MediaDetected { info: MediaInfo },
    /// The rule at `rule` takes the file; its date was asked for.
    RuleMatched { info: MediaInfo, rule: usize },
    /// The destination is `target`; `asked` was asked to resolve a conflict
    /// there.
    PathBuilt { target: TargetPath, asked: ConflictQuery },
    /// The file goes to `to`, under a new name if `renamed`; the move was
    /// asked for.
    ConflictResolved { to: TargetPath, renamed: bool },
    /// The classification has ended.
    Finished,
}

/// A `Phase` as plain text.
pub enum PhaseView {
    Start,
    MediaDetected { info: MediaInfoView },
    RuleMatched { info: MediaInfoView, rule: usize },
    PathBuilt { target: TargetView, asked: ConflictQuery },
    ConflictResolved { to: TargetView, renamed: bool },
    Finished,
}

impl View for Phase {
    type V = PhaseView;

    open spec fn view(&self) -> PhaseView {
        match self {
            Phase::Start => PhaseView::Start,
            Phase::MediaDetected { info } => PhaseView::MediaDetected { info: info@ },
            Phase::RuleMatched { info, rule } => PhaseView::RuleMatched { info: info@, rule: *rule },
            Phase::PathBuilt { target, asked } => PhaseView::PathBuilt {
                target: target@,
                asked: *asked,
            },
            Phase::ConflictResolved { to, renamed } => PhaseView::ConflictResolved {
                to: to@,
                renamed: *renamed,
            },
            Phase::Finished => PhaseView::Finished,
        }
    }
}

/// What the caller found out or did since the last request.
#[derive(Debug)]
pub enum Reply {
    /// Nothing yet: the classification begins.
    Begin,
    /// The size of the source file in bytes.
    FileSize(u64),
    /// The date of the source file.
    Date(DateStamp),
    /// That no date was found for the source file, and why.
    DateFailed(String),
    /// Whether the path asked about exists.
    Exists(bool),
    /// The sizes in bytes of the source file and of the file at the
    /// destination.
    Sizes { source: u64, target: u64 },
    /// That the file was moved.
    Moved,
    /// That the file system refused what was asked, and why.
    IoFailed(String),
}

/// A `Reply` as plain text.
pub enum ReplyView {
    Begin,
    FileSize(u64),
    Date(DateStamp),
    DateFailed(Seq<char>),
    Exists(bool),
    Sizes { source: u64, target: u64 },
    Moved,
    IoFailed(Seq<char>),
}

impl View for Reply {
    type V = ReplyView;

    open spec fn view(&self) -> ReplyView {
        match self {
            Reply::Begin => ReplyView::Begin,
            Reply::FileSize(size) => ReplyView::FileSize(*size),
            Reply::Date(stamp) => ReplyView::Date(*stamp),
            Reply::DateFailed(cause) => ReplyView::DateFailed(cause@),
            Reply::Exists(present) => ReplyView::Exists(*present),
            Reply::Sizes { source, target } => ReplyView::Sizes {
                source: *source,
                target: *target,
            },
            Reply::Moved => ReplyView::Moved,
            Reply::IoFailed(cause) => ReplyView::IoFailed(cause@),
        }
    }
}

/// What the caller is to do next.
#[derive(Debug)]
pub enum Request {
    /// Read the size of the source file; reply with `FileSize`.
    ReadFileSize,
    /// Find the date of the source file, from its picture data first if
    /// `is_image`; reply with `Date` or `DateFailed`.
    ExtractDate { is_image: bool },
    /// Find out whether this path exists; reply with `Exists`.
    CheckExists(TargetPath),
    /// Read the sizes of the source file and of the file at this path;
    /// reply with `Sizes`.
    ReadSizes(TargetPath),
    /// Make the directories of this path and move the source file there;
    /// reply with `Moved`.
    MoveFile { to: TargetPath },
    /// Nothing more: this is the result for the file.
    Finish(Result<ClassifyResult, ClassifyError>),
}

/// A `Request` as plain text.
pub enum RequestView {
    ReadFileSize,
    ExtractDate { is_image: bool },
    CheckExists(TargetView),
    ReadSizes(TargetView),
    MoveFile { to: TargetView },
    Finish(Result<ResultView, ErrorView>),
}

impl View for Request {
    type V = RequestView;

    open spec fn view(&self) -> RequestView {
        match self {
            Request::ReadFileSize => RequestView::ReadFileSize,
            Request::ExtractDate { is_image } => RequestView::ExtractDate { is_image: *is_image },
            Request::CheckExists(path) => RequestView::CheckExists(path@),
            Request::ReadSizes(path) => RequestView::ReadSizes(path@),
            Request::MoveFile { to } => RequestView::MoveFile { to: to@ },
            Request::Finish(result) => RequestView::Finish(
                match result {
                    Ok(done) => Ok(done@),
                    Err(error) => Err(error@),
                },
            ),
        }
    }
}

/// The next phase of a classification and the request that leads on.
#[derive(Debug)]
pub struct Transition {
    pub phase: Phase,
    pub request: Request,
}

/// A `Transition` as plain text.
pub struct TransitionView {
    pub phase: PhaseView,
    pub request: RequestView,
}

impl View for Transition {
    type V = TransitionView;

    open spec fn view(&self) -> TransitionView {
        TransitionView { phase: self.phase@, request: self.request@ }
    }
}

/// The end of a classification with a result for the file.
pub open spec fn finish(result: ResultView) -> TransitionView {
    TransitionView { phase: PhaseView::Finished, request: RequestView::Finish(Ok(result)) }
}

/// The end of a classification with an error.
pub open spec fn abort(error: ErrorView) -> TransitionView {
    TransitionView { phase: PhaseView::Finished, request: RequestView::Finish(Err(error)) }
}

/// The end of a classification with a failure that is an outcome for the
/// file.
pub open spec fn fail(source: SourceView, error: ErrorView) -> TransitionView {
    finish(ResultView::Failed { path: source.path, error: error_message(error) })
}

/// The question that a conflict query stands for, with its answer.
pub open spec fn progress_of(asked: ConflictQuery, reply: ReplyView) -> Option<ConflictProgress> {
    match (asked, reply) {
        (ConflictQuery::Target, ReplyView::Exists(present)) => Some(
            ConflictProgress::TargetChecked { present },
        ),
        (ConflictQuery::Sizes, ReplyView::Sizes { source, target }) => Some(
            ConflictProgress::SizesRead { source, target },
        ),
        (ConflictQuery::Candidate(attempt), ReplyView::Exists(present)) => Some(
            ConflictProgress::CandidateChecked { attempt, present },
        ),
        _ => None,
    }
}

/// What follows on a step of conflict resolution.
pub open spec fn after_conflict_step(source: SourceView, target: TargetView, step: StepView) -> TransitionView {
    match step {
        StepView::CheckTarget => TransitionView {
            phase: PhaseView::PathBuilt { target, asked: ConflictQuery::Target },
            request: RequestView::CheckExists(target),
        },
        StepView::ReadSizes => TransitionView {
            phase: PhaseView::PathBuilt { target, asked: ConflictQuery::Sizes },
            request: RequestView::ReadSizes(target),
        },
        StepView::CheckCandidate { attempt, candidate } => TransitionView {
            phase: PhaseView::PathBuilt { target, asked: ConflictQuery::Candidate(attempt) },
            request: RequestView::CheckExists(candidate),
        },
        StepView::Resolved(ResolutionView::NoConflict(to)) => TransitionView {
            phase: PhaseView::ConflictResolved { to, renamed: false },
            request: RequestView::MoveFile { to },
        },
        StepView::Resolved(ResolutionView::Skip(reason)) => finish(
            ResultView::Skipped { path: source.path, reason: Some(reason) },
        ),
        StepView::Resolved(ResolutionView::Rename(to)) => TransitionView {
            phase: PhaseView::ConflictResolved { to, renamed: true },
            request: RequestView::MoveFile { to },
        },
        StepView::Exhausted => abort(ErrorView::UniqueNameExhausted),
    }
}

/// What follows once the date is settled: a file that was classified before
/// is skipped; else its destination is built and the conflict there is
/// looked into.
pub open spec fn after_date(
    config: ConfigView,
    base_dir: Seq<char>,
    source: SourceView,
    info: MediaInfoView,
    rule: int,
    date: Option<DateStamp>,
) -> TransitionView {
    if is_classified(source) {
        finish(ResultView::Skipped { path: source.path, reason: None })
    } else {
        match target_path(base_dir, source, info, date, config.rules[rule]) {
            Err(PathError::MissingFileName) => abort(ErrorView::MissingFileName),
            Err(PathError::UnrenderableDate) => abort(ErrorView::UnrenderableDate),
            Ok(target) => after_conflict_step(
                source,
                target,
                conflict_step(target, ConflictProgress::Start),
            ),
        }
    }
}

/// The transition of a classification: from a phase and the reply to its
/// request to the next phase and request.
pub open spec fn classify_transition(
    config: ConfigView,
    base_dir: Seq<char>,
    source: SourceView,
    phase: PhaseView,
    reply: ReplyView,
) -> TransitionView {
    match (phase, reply) {
        (PhaseView::Start, ReplyView::Begin) => match source.file_name {
            None => fail(source, ErrorView::UnrecognizedMediaType),
            Some(name) => match media_info_of(name) {
                None => fail(source, ErrorView::UnrecognizedMediaType),
                Some(info) => TransitionView {
                    phase: PhaseView::MediaDetected { info },
                    request: RequestView::ReadFileSize,
                },
            },
        },
        (PhaseView::MediaDetected { info }, ReplyView::FileSize(size)) => match matched_rule(
            config,
            lowercase_of(info.extension),
            size,
        ) {
            None => fail(source, ErrorView::NoMatchingRule),
            Some(rule) => if config.rules[rule].date_format is Some {
                TransitionView {
                    phase: PhaseView::RuleMatched { info, rule: rule as usize },
                    request: RequestView::ExtractDate {
                        is_image: info.media_type == MediaType::Image,
                    },
                }
            } else {
                after_date(config, base_dir, source, info, rule, None)
            },
        },
        (PhaseView::RuleMatched { info, rule }, ReplyView::Date(stamp)) => if rule
            < config.rules.len() {
            after_date(config, base_dir, source, info, rule as int, Some(stamp))
        } else {
            abort(ErrorView::UnexpectedReply)
        },
        (PhaseView::RuleMatched { info, rule }, ReplyView::DateFailed(cause)) => fail(
            source,
            ErrorView::DateExtractionFailed(cause),
        ),
        (PhaseView::PathBuilt { target, asked }, ReplyView::IoFailed(cause)) => abort(
            ErrorView::FilesystemError(cause),
        ),
        (PhaseView::PathBuilt { target, asked }, answer) => match progress_of(asked, answer) {
            Some(progress) => after_conflict_step(source, target, conflict_step(target, progress)),
            None => abort(ErrorView::UnexpectedReply),
        },
        (PhaseView::ConflictResolved { to, renamed }, ReplyView::Moved) => if renamed {
            finish(ResultView::Renamed { from: source.path, to })
        } else {
            finish(ResultView::Success { from: source.path, to })
        },
        (PhaseView::Finished, _) => abort(ErrorView::UnexpectedReply),
        (_, ReplyView::IoFailed(cause)) => abort(ErrorView::FilesystemError(cause)),
        _ => abort(ErrorView::UnexpectedReply),
    }
}

/// Ends a classification with a result for the file.
fn finished(result: ClassifyResult) -> (next: Transition)
    ensures
        next@ == finish(result@),
{
    Transition { phase: Phase::Finished, request: Request::Finish(Ok(result)) }
}

/// Ends a classification with an error.
fn aborted(error: ClassifyError) -> (next: Transition)
    ensures
        next@ == abort(error@),
{
    Transition { phase: Phase::Finished, request: Request::Finish(Err(error)) }
}

/// Ends a classification with a failure that is an outcome for the file.
fn failed(source: &SourcePath, error: ClassifyError) -> (next: Transition)
    ensures
        next@ == fail(source@, error@),
{
    finished(ClassifyResult::Failed { path: source.path.clone(), error: error.message() })
}

/// Follows a step of conflict resolution.
fn follow_conflict(source: &SourcePath, target: TargetPath, step: ConflictStep) -> (next: Transition)
    ensures
        next@ == after_conflict_step(source@, target@, step@),
{
    match step {
        ConflictStep::CheckTarget => {
            let request = Request::CheckExists(target.duplicate());
            Transition { phase: Phase::PathBuilt { target, asked: ConflictQuery::Target }, request }
        },
        ConflictStep::ReadSizes => {
            let request = Request::ReadSizes(target.duplicate());
            Transition { phase: Phase::PathBuilt { target, asked: ConflictQuery::Sizes }, request }
        },
        ConflictStep::CheckCandidate { attempt, candidate } => Transition {
            phase: Phase::PathBuilt { target, asked: ConflictQuery::Candidate(attempt) },
            request: Request::CheckExists(candidate),
        },
        ConflictStep::Resolved(ConflictResolution::NoConflict(to)) => {
            let request = Request::MoveFile { to: to.duplicate() };
            Transition { phase: Phase::ConflictResolved { to, renamed: false }, request }
        },
        ConflictStep::Resolved(ConflictResolution::Skip(reason)) => finished(
            ClassifyResult::Skipped { path: source.path.clone(), reason: Some(reason) },
        ),
        ConflictStep::Resolved(ConflictResolution::Rename(to)) => {
            let request = Request::MoveFile { to: to.duplicate() };
            Transition { phase: Phase::ConflictResolved { to, renamed: true }, request }
        },
        ConflictStep::Exhausted => aborted(ClassifyError::UniqueNameExhausted),
    }
}

/// Goes on once the date is settled.
fn follow_date(
    matcher: &RuleMatcher,
    base_dir: &str,
    source: &SourcePath,
    info: MediaInfo,
    rule: usize,
    date: Option<DateStamp>,
) -> (next: Transition)
    requires
        rule < matcher.config().rules.len(),
    ensures
        next@ == after_date(matcher.config()@, base_dir@, source@, info@, rule as int, date),
{
    if is_classified_file(source) {
        return finished(ClassifyResult::Skipped { path: source.path.clone(), reason: None });
    }
    let config = matcher.configuration();
    assert(config@.rules[rule as int] == config.rules[rule as int]@);
    let built = match &date {
        Some(stamp) => matcher.build_target_path(
            base_dir,
            source,
            &info,
            Some(stamp),
            &config.rules[rule],
        ),
        None => matcher.build_target_path(base_dir, source, &info, None, &config.rules[rule]),
    };
    match built {
        Err(PathError::MissingFileName) => aborted(ClassifyError::MissingFileName),
        Err(PathError::UnrenderableDate) => aborted(ClassifyError::UnrenderableDate),
        Ok(target) => {
            let step = resolve_conflict(&target, ConflictProgress::Start);
            follow_conflict(source, target, step)
        },
    }
}

/// Computes `progress_of`.
fn progress_from(asked: ConflictQuery, reply: &Reply) -> (progress: Option<ConflictProgress>)
    ensures
        progress == progress_of(asked, reply@),
{
    match (asked, reply) {
        (ConflictQuery::Target, Reply::Exists(present)) => Some(
            ConflictProgress::TargetChecked { present: *present },
        ),
        (ConflictQuery::Sizes, Reply::Sizes { source, target }) => Some(
            ConflictProgress::SizesRead { source: *source, target: *target },
        ),
        (ConflictQuery::Candidate(attempt), Reply::Exists(present)) => Some(
            ConflictProgress::CandidateChecked { attempt, present: *present },
        ),
        _ => None,
    }
}

/// One step of classifying `source` into a directory below `base_dir`:
/// from the phase of the classification and the reply to its last request
/// to the next phase and request. A classification begins in the phase
/// `Start` with the reply `Begin`.
pub fn classify_step(
    matcher: &RuleMatcher,
    base_dir: &str,
    source: &SourcePath,
    phase: Phase,
    reply: Reply,
) -> (next: Transition)
    ensures
        next@ == classify_transition(matcher.config()@, base_dir@, source@, phase@, reply@),
{
    match phase {
        Phase::Start => match reply {
            Reply::Begin => {
                let detected = match &source.file_name {
                    Some(name) => get_media_info(name.as_str()),
                    None => None,
                };
                match detected {
                    Some(info) => Transition {
                        phase: Phase::MediaDetected { info },
                        request: Request::ReadFileSize,
                    },
                    None => failed(source, ClassifyError::UnrecognizedMediaType),
                }
            },
            Reply::IoFailed(cause) => aborted(ClassifyError::FilesystemError(cause)),
            _ => aborted(ClassifyError::UnexpectedReply),
        },
        Phase::MediaDetected { info } => match reply {
            Reply::FileSize(size) => {
                let config = matcher.configuration();
                match matcher.match_index(info.extension.as_str(), size) {
                    None => failed(source, ClassifyError::NoMatchingRule),
                    Some(rule) => {
                        assert(config@.rules[rule as int] == config.rules[rule as int]@);
                        if config.rules[rule].date_format.is_some() {
                            let is_image = info.media_type == MediaType::Image;
                            Transition {
                                phase: Phase::RuleMatched { info, rule },
                                request: Request::ExtractDate { is_image },
                            }
                        } else {
                            follow_date(matcher, base_dir, source, info, rule, None)
                        }
                    },
                }
            },
            Reply::IoFailed(cause) => aborted(ClassifyError::FilesystemError(cause)),
            _ => aborted(ClassifyError::UnexpectedReply),
        },
        Phase::RuleMatched { info, rule } => match reply {
            Reply::Date(stamp) => {
                if rule < matcher.configuration().rules.len() {
                    follow_date(matcher, base_dir, source, info, rule, Some(stamp))
                } else {
                    aborted(ClassifyError::UnexpectedReply)
                }
            },
            Reply::DateFailed(cause) => failed(source, ClassifyError::DateExtractionFailed(cause)),
            Reply::IoFailed(cause) => aborted(ClassifyError::FilesystemError(cause)),
            _ => aborted(ClassifyError::UnexpectedReply),
        },
        Phase::PathBuilt { target, asked } => match reply {
            Reply::IoFailed(cause) => aborted(ClassifyError::FilesystemError(cause)),
            answer => match progress_from(asked, &answer) {
                Some(progress) => {
                    let step = resolve_conflict(&target, progress);
                    follow_conflict(source, target, step)
                },
                None => aborted(ClassifyError::UnexpectedReply),
            },
        },
        Phase::ConflictResolved { to, renamed } => match reply {
            Reply::Moved => {
                if renamed {
                    finished(ClassifyResult::Renamed { from: source.path.clone(), to })
                } else {
                    finished(ClassifyResult::Success { from: source.path.clone(), to })
                }
            },
            Reply::IoFailed(cause) => aborted(ClassifyError::FilesystemError(cause)),
            _ => aborted(ClassifyError::UnexpectedReply),
        },
        Phase::Finished => aborted(ClassifyError::UnexpectedReply),
    }
}

/// One step of classifying a file by the rules of `config`; see
/// `classify_step`.
pub fn classify_file_with_config(
    config: &Config,
    target_dir: &str,
    source: &SourcePath,
    phase: Phase,
    reply: Reply,
) -> (next: Transition)
    ensures
        next@ == classify_transition(config@, target_dir@, source@, phase@, reply@),
{
    let matcher = RuleMatcher::new(config);
    classify_step(&matcher, target_dir, source, phase, reply)
}

/// One step of classifying a file by the rules of the default
/// configuration; see `classify_step`.
pub fn classify_file(target_dir: &str, source: &SourcePath, phase: Phase, reply: Reply) -> (next:
    Transition)
    ensures
        next@ == classify_transition(
            default_config_view(),
            target_dir@,
            source@,
            phase@,
            reply@,
        ),
{
    let config = Config::default_config();
    classify_file_with_config(&config, target_dir, source, phase, reply)
}

/// How far a classification has come: each phase comes later than the one
/// before it, and each name tried in a conflict later than the one before.
pub open spec fn rank(phase: PhaseView) -> nat {
    match phase {
        PhaseView::Start => 0,
        PhaseView::MediaDetected { info } => 1,
        PhaseView::RuleMatched { info, rule } => 2,
        PhaseView::PathBuilt { target, asked: ConflictQuery::Target } => 3,
        PhaseView::PathBuilt { target, asked: ConflictQuery::Sizes } => 4,
        PhaseView::PathBuilt { target, asked: ConflictQuery::Candidate(attempt) } => 5
            + attempt as nat,
        PhaseView::ConflictResolved { to, renamed } => 0x1_0000_0005,
        PhaseView::Finished => 0x1_0000_0006,
    }
}

/// A classification only moves forward: every step leads to a later phase,
/// so nothing is tried twice, and no more than 1000 names are tried in a
/// conflict.
pub proof fn law_steps_advance(
    config: ConfigView,
    base_dir: Seq<char>,
    source: SourceView,
    phase: PhaseView,
    reply: ReplyView,
)
    requires
        phase !is Finished,
    ensures
        rank(classify_transition(config, base_dir, source, phase, reply).phase) > rank(phase),
        phase matches PhaseView::PathBuilt { target, asked: ConflictQuery::Candidate(attempt) }
            ==> (classify_transition(config, base_dir, source, phase, reply).phase matches PhaseView::PathBuilt {
            target: same,
            asked: ConflictQuery::Candidate(next),
        } ==> next == attempt + 1 && next <= ATTEMPT_CEILING),
{
}

/// A classification ends with exactly one result or error: the request
/// `Finish` comes with the phase `Finished`, and with no other.
pub proof fn law_finish_is_final(
    config: ConfigView,
    base_dir: Seq<char>,
    source: SourceView,
    phase: PhaseView,
    reply: ReplyView,
)
    ensures
        classify_transition(config, base_dir, source, phase, reply).request is Finish
            <==> classify_transition(config, base_dir, source, phase, reply).phase is Finished,
{
}

/// What the caller finds when it does what it is asked, where no operation
/// fails: the size of the source file, the size of whatever lies at a
/// destination, the date of the source file or why it has none, and which
/// paths exist.
pub struct World {
    pub source_size: u64,
    pub target_size: u64,
    pub date: Result<DateStamp, Seq<char>>,
    pub present: spec_fn(TargetView) -> bool,
}

impl World {
    /// The part of the world that a conflict is resolved in.
    pub open spec fn around(self) -> Surroundings {
        Surroundings {
            present: self.present,
            source_size: self.source_size,
            target_size: self.target_size,
        }
    }
}

/// The reply that the world gives to a request.
pub open spec fn answer(world: World, request: RequestView) -> ReplyView {
    match request {
        RequestView::ReadFileSize => ReplyView::FileSize(world.source_size),
        RequestView::ExtractDate { is_image } => match world.date {
            Ok(stamp) => ReplyView::Date(stamp),
            Err(cause) => ReplyView::DateFailed(cause),
        },
        RequestView::CheckExists(path) => ReplyView::Exists((world.present)(path)),
        RequestView::ReadSizes(path) => ReplyView::Sizes {
            source: world.source_size,
            target: world.target_size,
        },
        RequestView::MoveFile { to } => ReplyView::Moved,
        RequestView::Finish(result) => ReplyView::Begin,
    }
}

/// How a classification ends when `classify_step` is called over and over
/// from `phase` and `reply` on, at most `steps` times, and each request is
/// answered by the world; `None` where the steps are used up before the
/// end.
pub open spec fn run_steps(
    config: ConfigView,
    base_dir: Seq<char>,
    source: SourceView,
    world: World,
    phase: PhaseView,
    reply: ReplyView,
    steps: nat,
) -> Option<Result<ResultView, ErrorView>>
    decreases steps,
{
    if steps == 0 {
        None
    } else {
        let next = classify_transition(config, base_dir, source, phase, reply);
        match next.request {
            RequestView::Finish(result) => Some(result),
            request => run_steps(
                config,
                base_dir,
                source,
                world,
                next.phase,
                answer(world, request),
                (steps - 1) as nat,
            ),
        }
    }
}

/// What becomes of a file whose destination is `target`: it is moved there
/// where nothing is in the way, skipped where a file of its size is there,
/// and else moved to the first free numbered name.
pub open spec fn settled(source: SourceView, target: TargetView, world: World) -> Result<
    ResultView,
    ErrorView,
> {
    match resolution(target, world.around()) {
        Outcome::Resolved(ResolutionView::NoConflict(to)) => Ok(
            ResultView::Success { from: source.path, to },
        ),
        Outcome::Resolved(ResolutionView::Skip(reason)) => Ok(
            ResultView::Skipped { path: source.path, reason: Some(reason) },
        ),
        Outcome::Resolved(ResolutionView::Rename(to)) => Ok(
            ResultView::Renamed { from: source.path, to },
        ),
        Outcome::Exhausted => Err(ErrorView::UniqueNameExhausted),
        Outcome::Unfinished => Err(ErrorView::UnexpectedReply),
    }
}

/// What becomes of a file in a world where no operation fails. A file
/// whose name names no media fails, and so does one that no rule takes, and
/// one whose rule needs a date where none is found. A file that was
/// classified before is skipped. Every other file goes to the destination
/// that its rule gives it, as `settled` says.
pub open spec fn classification(
    config: ConfigView,
    base_dir: Seq<char>,
    source: SourceView,
    world: World,
) -> Result<ResultView, ErrorView> {
    let failed = |error: ErrorView|
        Ok::<ResultView, ErrorView>(
            ResultView::Failed { path: source.path, error: error_message(error) },
        );
    match source.file_name {
        None => failed(ErrorView::UnrecognizedMediaType),
        Some(name) => match media_info_of(name) {
            None => failed(ErrorView::UnrecognizedMediaType),
            Some(info) => match matched_rule(
                config,
                lowercase_of(info.extension),
                world.source_size,
            ) {
                None => failed(ErrorView::NoMatchingRule),
                Some(rule) => {
                    let dated = config.rules[rule].date_format is Some;
                    if dated && world.date is Err {
                        failed(ErrorView::DateExtractionFailed(world.date->Err_0))
                    } else if is_classified(source) {
                        Ok(ResultView::Skipped { path: source.path, reason: None })
                    } else {
                        let date = if dated {
                            Some(world.date->Ok_0)
                        } else {
                            None
                        };
                        match target_path(base_dir, source, info, date, config.rules[rule]) {
                            Err(PathError::MissingFileName) => Err(ErrorView::MissingFileName),
                            Err(PathError::UnrenderableDate) => Err(ErrorView::UnrenderableDate),
                            Ok(target) => settled(source, target, world),
                        }
                    }
                },
            },
        },
    }
}

/// The search for a free name within a classification, once the name
/// numbered `attempt` is asked about, ends as `first_free` says.
proof fn lemma_search_in_steps(
    config: ConfigView,
    base_dir: Seq<char>,
    source: SourceView,
    world: World,
    target: TargetView,
    attempt: u32,
    steps: nat,
)
    requires
        1 <= attempt <= ATTEMPT_CEILING,
        steps >= ATTEMPT_CEILING - attempt + 2,
    ensures
        run_steps(
            config,
            base_dir,
            source,
            world,
            PhaseView::PathBuilt { target, asked: ConflictQuery::Candidate(attempt) },
            ReplyView::Exists((world.present)(candidate(target, attempt as nat))),
            steps,
        ) == Some(
            match first_free(target, world.present, attempt as nat) {
                Some(n) => Ok::<ResultView, ErrorView>(
                    ResultView::Renamed { from: source.path, to: candidate(target, n) },
                ),
                None => Err(ErrorView::UniqueNameExhausted),
            },
        ),
    decreases ATTEMPT_CEILING - attempt,
{
    let phase = PhaseView::PathBuilt { target, asked: ConflictQuery::Candidate(attempt) };
    let taken = (world.present)(candidate(target, attempt as nat));
    let next = classify_transition(config, base_dir, source, phase, ReplyView::Exists(taken));
    if !taken {
        let to = candidate(target, attempt as nat);
        assert(next.phase == PhaseView::ConflictResolved { to, renamed: true });
        assert(next.request == RequestView::MoveFile { to });
        assert(run_steps(config, base_dir, source, world, next.phase, ReplyView::Moved, 1)
            == Some(
            Ok::<ResultView, ErrorView>(ResultView::Renamed { from: source.path, to }),
        ));
        reveal_with_fuel(run_steps, 3);
    } else if attempt < ATTEMPT_CEILING {
        lemma_search_in_steps(
            config,
            base_dir,
            source,
            world,
            target,
            (attempt + 1) as u32,
            (steps - 1) as nat,
        );
    } else {
        assert(first_free(target, world.present, (attempt + 1) as nat) == None::<nat>);
    }
}

/// A destination, once built, is settled as `settled` says.
proof fn lemma_settling(
    config: ConfigView,
    base_dir: Seq<char>,
    source: SourceView,
    world: World,
    target: TargetView,
    steps: nat,
)
    requires
        steps >= ATTEMPT_CEILING + 3,
    ensures
        run_steps(
            config,
            base_dir,
            source,
            world,
            PhaseView::PathBuilt { target, asked: ConflictQuery::Target },
            ReplyView::Exists((world.present)(target)),
            steps,
        ) == Some(settled(source, target, world)),
{
    reveal_with_fuel(run_steps, 3);
    if (world.present)(target) && world.source_size != world.target_size {
        let sized = PhaseView::PathBuilt { target, asked: ConflictQuery::Sizes };
        let sizes = ReplyView::Sizes { source: world.source_size, target: world.target_size };
        let after = classify_transition(config, base_dir, source, sized, sizes);
        assert(after.request == RequestView::CheckExists(candidate(target, 1)));
        lemma_search_in_steps(config, base_dir, source, world, target, 1, (steps - 2) as nat);
    }
}

/// Classifying a file step by step, each request answered by a world where
/// no operation fails, ends as `classification` says. 1007 steps are
/// enough for that.
pub proof fn law_steps_classify(
    config: ConfigView,
    base_dir: Seq<char>,
    source: SourceView,
    world: World,
)
    requires
        config.rules.len() <= usize::MAX,
    ensures
        run_steps(config, base_dir, source, world, PhaseView::Start, ReplyView::Begin, 1007)
            == Some(classification(config, base_dir, source, world)),
{
    reveal_with_fuel(run_steps, 4);
    let info = match source.file_name {
        Some(name) => media_info_of(name),
        None => None,
    };
    if info is Some {
        let info = info->0;
        let key = lowercase_of(info.extension);
        law_answer_is_first_or_fallback(config, key, world.source_size);
        let found = matched_rule(config, key, world.source_size);
        if found is Some {
            let rule = found->0;
            let dated = config.rules[rule].date_format is Some;
            if !(dated && world.date is Err) && !is_classified(source) {
                let date = if dated {
                    Some(world.date->Ok_0)
                } else {
                    None
                };
                match target_path(base_dir, source, info, date, config.rules[rule]) {
                    Ok(target) => {
                        let steps: nat = if dated {
                            1004
                        } else {
                            1005
                        };
                        lemma_settling(config, base_dir, source, world, target, steps);
                    },
                    Err(_) => {},
                }
            }
        }
    }
}

/// A file that was classified before is never moved again: whatever the
/// rules and the world, it ends skipped or failed, not moved and not
/// renamed.
pub proof fn law_classified_files_stay(
    config: ConfigView,
    base_dir: Seq<char>,
    source: SourceView,
    world: World,
)
    requires
        is_classified(source),
    ensures
        classification(config, base_dir, source, world) matches Ok(result) && (result is Skipped
            || result is Failed),
{
}

} // verus!
