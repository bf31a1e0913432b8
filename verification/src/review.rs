//! Read-only review of a changeset: request and option validation, the
//! status and evidence of each check, the findings that failed checks leave,
//! and the order in which a review stops.

use vstd::prelude::*;
use vstd::utf8::{decode_utf8, encode_utf8, valid_utf8};
use crate::error::PersistenceError;
use crate::finalization::ChangesetState;
use crate::text::{i64_to_decimal, signed_decimal};
use crate::time::Duration;

verus! {

/// Most checks one review may request.
pub const MAX_REVIEW_CHECKS: usize = 5;

/// Longest timeout a check may be given, in seconds.
pub const MAX_REVIEW_TIMEOUT_SECS: u64 = 600;

/// The checks a review can run.
#[derive(Debug, Clone, Copy, PartialEq, Eq, Hash, Structural)]
pub enum ReviewCheckKind {
    Format,
    Typecheck,
    Test,
    SecretScan,
    DependencyAudit,
}

/// The finding category of each check.
pub open spec fn category_of(kind: ReviewCheckKind) -> Seq<char> {
    match kind {
        ReviewCheckKind::Format => "review_format"@,
        ReviewCheckKind::Typecheck => "review_typecheck"@,
        ReviewCheckKind::Test => "review_test"@,
        ReviewCheckKind::SecretScan => "review_secret_scan"@,
        ReviewCheckKind::DependencyAudit => "review_dependency_audit"@,
    }
}

/// The name of each check as it appears in finding titles.
pub open spec fn kind_name(kind: ReviewCheckKind) -> Seq<char> {
    match kind {
        ReviewCheckKind::Format => "Format"@,
        ReviewCheckKind::Typecheck => "Typecheck"@,
        ReviewCheckKind::Test => "Test"@,
        ReviewCheckKind::SecretScan => "SecretScan"@,
        ReviewCheckKind::DependencyAudit => "DependencyAudit"@,
    }
}

impl ReviewCheckKind {
    /// The category of the finding a failed check of this kind leaves.
    pub fn category(self) -> (s: &'static str)
        ensures
            s@ == category_of(self),
    {
        match self {
            ReviewCheckKind::Format => "review_format",
            ReviewCheckKind::Typecheck => "review_typecheck",
            ReviewCheckKind::Test => "review_test",
            ReviewCheckKind::SecretScan => "review_secret_scan",
            ReviewCheckKind::DependencyAudit => "review_dependency_audit",
        }
    }

    /// The name of the kind as finding titles spell it.
    pub fn name(self) -> (s: &'static str)
        ensures
            s@ == kind_name(self),
    {
        match self {
            ReviewCheckKind::Format => "Format",
            ReviewCheckKind::Typecheck => "Typecheck",
            ReviewCheckKind::Test => "Test",
            ReviewCheckKind::SecretScan => "SecretScan",
            ReviewCheckKind::DependencyAudit => "DependencyAudit",
        }
    }
}

/// How a check ended.
#[derive(Debug, Clone, Copy, PartialEq, Eq, Structural)]
pub enum ReviewCheckStatus {
    Passed,
    Failed,
    Unavailable,
    TimedOut,
    Mutated,
}

/// The name of each status as it appears in finding titles.
pub open spec fn status_name(status: ReviewCheckStatus) -> Seq<char> {
    match status {
        ReviewCheckStatus::Passed => "Passed"@,
        ReviewCheckStatus::Failed => "Failed"@,
        ReviewCheckStatus::Unavailable => "Unavailable"@,
        ReviewCheckStatus::TimedOut => "TimedOut"@,
        ReviewCheckStatus::Mutated => "Mutated"@,
    }
}

impl ReviewCheckStatus {
    /// The name of the status as finding titles spell it.
    pub fn name(self) -> (s: &'static str)
        ensures
            s@ == status_name(self),
    {
        match self {
            ReviewCheckStatus::Passed => "Passed",
            ReviewCheckStatus::Failed => "Failed",
            ReviewCheckStatus::Unavailable => "Unavailable",
            ReviewCheckStatus::TimedOut => "TimedOut",
            ReviewCheckStatus::Mutated => "Mutated",
        }
    }
}

/// The outcome of one check, with its bounded evidence text.
#[derive(Debug, Clone, PartialEq, Eq)]
pub struct ReviewCheckResult {
    pub kind: ReviewCheckKind,
    pub status: ReviewCheckStatus,
    pub evidence: String,
}

/// Limits a review runs under.
#[derive(Debug, Clone)]
pub struct ReviewOptions {
    pub timeout: Duration,
    pub output_limit: usize,
    pub allow_unsandboxed_checks: bool,
}

impl ReviewOptions {
    /// The default options: the longest timeout, output bounded by the
    /// largest semantic text, and no unsandboxed checks.
    pub fn standard(max_semantic_text_bytes: usize) -> (o: ReviewOptions)
        ensures
            o.timeout.total_millis() == MAX_REVIEW_TIMEOUT_SECS * 1000,
            o.timeout.spec_secs() == MAX_REVIEW_TIMEOUT_SECS,
            o.timeout.spec_nanos() == 0,
            o.output_limit == max_semantic_text_bytes,
            !o.allow_unsandboxed_checks,
    {
        ReviewOptions {
            timeout: Duration::from_secs(MAX_REVIEW_TIMEOUT_SECS),
            output_limit: max_semantic_text_bytes,
            allow_unsandboxed_checks: false,
        }
    }
}

/// Why a review was refused or failed.
#[derive(Debug, Clone, PartialEq, Eq)]
pub enum ReviewError {
    InvalidOptions,
    MissingSearchPath,
    UnsafeSearchPath,
    InvalidReviewState,
    HeadChanged,
    WorktreeChanged,
    NoChangedPaths,
    TooManyChecks,
    DuplicateCheck,
    UnsupportedChangedPath(String),
    ChangedFileTooLarge(String),
    Io(String),
    Git(String),
    Execution(String),
    Persistence(PersistenceError),
}

/// Options are usable: a positive timeout of at most the maximum, and a
/// positive output limit of at most the largest semantic text.
pub open spec fn options_valid(options: ReviewOptions, max_semantic_text_bytes: nat) -> bool {
    &&& !(options.timeout.spec_secs() == 0 && options.timeout.spec_nanos() == 0)
    &&& options.timeout.spec_secs() < MAX_REVIEW_TIMEOUT_SECS
        || (options.timeout.spec_secs() == MAX_REVIEW_TIMEOUT_SECS && options.timeout.spec_nanos() == 0)
    &&& 0 < options.output_limit <= max_semantic_text_bytes
}

/// Refuses options outside the local safety limits.
pub fn validate_options(options: &ReviewOptions, max_semantic_text_bytes: usize) -> (r: Result<(), ReviewError>)
    ensures
        r is Ok <==> options_valid(*options, max_semantic_text_bytes as nat),
        r is Err ==> r == Err::<(), ReviewError>(ReviewError::InvalidOptions),
{
    let secs = options.timeout.as_secs();
    let beyond_max = secs > MAX_REVIEW_TIMEOUT_SECS || (secs == MAX_REVIEW_TIMEOUT_SECS
        && options.timeout.subsec_nanos() != 0);
    if options.timeout.is_zero() || beyond_max || options.output_limit == 0
        || options.output_limit > max_semantic_text_bytes
    {
        return Err(ReviewError::InvalidOptions);
    }
    Ok(())
}

/// Some check kind occurs twice in `checks`.
pub open spec fn has_duplicate(checks: Seq<ReviewCheckKind>) -> bool {
    exists|i: int, j: int| 0 <= i < j < checks.len() && checks[i] == checks[j]
}

/// The identities a review request ties together.
#[derive(Debug, Clone, Copy, PartialEq, Eq)]
pub struct ReviewSubject {
    pub repository_id: u128,
    pub changeset_id: u128,
    pub changeset_repository_id: u128,
    pub changeset_state: ChangesetState,
    pub worktree_changeset_id: u128,
}

/// What a review request is answered before any work is done.
pub open spec fn review_request_check(subject: ReviewSubject, checks: Seq<ReviewCheckKind>) -> Result<(), ReviewError> {
    if !(subject.changeset_state == ChangesetState::Reviewable
        && subject.changeset_repository_id == subject.repository_id
        && subject.worktree_changeset_id == subject.changeset_id) {
        Err(ReviewError::InvalidReviewState)
    } else if checks.len() > MAX_REVIEW_CHECKS {
        Err(ReviewError::TooManyChecks)
    } else if has_duplicate(checks) {
        Err(ReviewError::DuplicateCheck)
    } else {
        Ok(())
    }
}

/// Refuses a review of a changeset that is not reviewable in its worktree,
/// of too many checks, or of a check requested twice.
pub fn validate_review_request(subject: &ReviewSubject, requested_checks: &[ReviewCheckKind]) -> (r: Result<(), ReviewError>)
    ensures
        r == review_request_check(*subject, requested_checks@),
{
    if !(subject.changeset_state == ChangesetState::Reviewable
        && subject.changeset_repository_id == subject.repository_id
        && subject.worktree_changeset_id == subject.changeset_id)
    {
        return Err(ReviewError::InvalidReviewState);
    }
    if requested_checks.len() > MAX_REVIEW_CHECKS {
        return Err(ReviewError::TooManyChecks);
    }
    let n = requested_checks.len();
    let mut j: usize = 0;
    while j < n
        invariant
            n == requested_checks@.len(),
            n <= MAX_REVIEW_CHECKS,
            review_request_check(*subject, seq![]) is Ok,
            j <= n,
            forall|a: int, b: int| 0 <= a < b < j ==> requested_checks@[a] != requested_checks@[b],
        decreases n - j,
    {
        let mut i: usize = 0;
        while i < j
            invariant
                n == requested_checks@.len(),
                n <= MAX_REVIEW_CHECKS,
                review_request_check(*subject, seq![]) is Ok,
                i <= j < n,
                forall|a: int| 0 <= a < i ==> requested_checks@[a] != requested_checks@[j as int],
            decreases j - i,
        {
            if requested_checks[i] == requested_checks[j] {
                assert(requested_checks@[i as int] == requested_checks@[j as int]);
                return Err(ReviewError::DuplicateCheck);
            }
            i = i + 1;
        }
        j = j + 1;
    }
    Ok(())
}

/// How a supervised check process ended.
#[derive(Debug, Clone, Copy, PartialEq, Eq, Structural)]
pub enum TerminalOutcome {
    Completed(i32),
    Cancelled,
    TimedOut,
    Failed,
}

/// The status a check gets from its process: output beyond the limit fails
/// it; otherwise a zero exit passes, a timeout times out, and anything else
/// fails.
pub open spec fn status_of(outcome: TerminalOutcome, truncated: bool) -> ReviewCheckStatus {
    if truncated {
        ReviewCheckStatus::Failed
    } else {
        match outcome {
            TerminalOutcome::Completed(code) => if code == 0 {
                ReviewCheckStatus::Passed
            } else {
                ReviewCheckStatus::Failed
            },
            TerminalOutcome::TimedOut => ReviewCheckStatus::TimedOut,
            _ => ReviewCheckStatus::Failed,
        }
    }
}

/// The status of a check whose process ended with `outcome`.
pub fn check_status(outcome: TerminalOutcome, truncated: bool) -> (s: ReviewCheckStatus)
    ensures
        s == status_of(outcome, truncated),
{
    if truncated {
        return ReviewCheckStatus::Failed;
    }
    match outcome {
        TerminalOutcome::Completed(code) => if code == 0 {
            ReviewCheckStatus::Passed
        } else {
            ReviewCheckStatus::Failed
        },
        TerminalOutcome::TimedOut => ReviewCheckStatus::TimedOut,
        TerminalOutcome::Cancelled | TerminalOutcome::Failed => ReviewCheckStatus::Failed,
    }
}

/// The diagnostic line that heads a check's evidence, if any.
pub open spec fn diagnostic_of(outcome: TerminalOutcome, truncated: bool) -> Option<Seq<char>> {
    if truncated {
        Some("process output exceeded the review limit"@)
    } else {
        match outcome {
            TerminalOutcome::Completed(code) => if code == 0 {
                None
            } else {
                Some("process exited with status "@ + signed_decimal(code as int))
            },
            TerminalOutcome::Cancelled => Some("process was cancelled"@),
            TerminalOutcome::TimedOut => Some("process exceeded the review timeout"@),
            TerminalOutcome::Failed => Some("process supervision failed"@),
        }
    }
}

/// Describes how a check process ended, unless it simply succeeded.
pub fn process_diagnostic(outcome: TerminalOutcome, truncated: bool) -> (d: Option<String>)
    ensures
        match d {
            Some(t) => diagnostic_of(outcome, truncated) == Some(t@),
            None => diagnostic_of(outcome, truncated) is None,
        },
{
    if truncated {
        return Some(String::from_str("process output exceeded the review limit"));
    }
    match outcome {
        TerminalOutcome::Completed(code) => {
            if code == 0 {
                None
            } else {
                let mut t = String::from_str("process exited with status ");
                let digits = i64_to_decimal(code as i64);
                t.append(digits.as_str());
                Some(t)
            }
        },
        TerminalOutcome::Cancelled => Some(String::from_str("process was cancelled")),
        TerminalOutcome::TimedOut => Some(String::from_str("process exceeded the review timeout")),
        TerminalOutcome::Failed => Some(String::from_str("process supervision failed")),
    }
}

/// `s` cut to at most `limit` items.
pub open spec fn clip<T>(s: Seq<T>, limit: nat) -> Seq<T> {
    if s.len() <= limit {
        s
    } else {
        s.take(limit as int)
    }
}

/// `target` followed by as much of `source` as fits below `limit` bytes.
pub open spec fn appended(target: Seq<u8>, source: Seq<u8>, limit: nat) -> Seq<u8> {
    let remaining: nat = if target.len() <= limit { (limit - target.len()) as nat } else { 0 };
    if source.len() <= remaining {
        target + source
    } else {
        target + source.take(remaining as int)
    }
}

/// Appending to a clipped text under the same limit clips the whole.
pub proof fn lemma_appended_clips(whole: Seq<u8>, source: Seq<u8>, limit: nat)
    ensures
        appended(clip(whole, limit), source, limit) == clip(whole + source, limit),
{
    if whole.len() <= limit {
        if whole.len() + source.len() > limit {
            assert(whole + source.take(limit - whole.len()) =~= (whole + source).take(limit as int));
        }
    } else {
        assert(whole.take(limit as int) + source.take(0) =~= (whole + source).take(limit as int));
    }
}

/// Appends as much of `source` as fits below `limit` bytes.
pub fn append_bytes(target: &mut Vec<u8>, source: &[u8], limit: usize)
    ensures
        final(target)@ == appended(old(target)@, source@, limit as nat),
{
    let remaining = limit.saturating_sub(target.len());
    let n = if source.len() < remaining { source.len() } else { remaining };
    let mut i: usize = 0;
    let ghost start = target@;
    while i < n
        invariant
            n <= source@.len(),
            i <= n,
            target@ == start + source@.take(i as int),
        decreases n - i,
    {
        target.push(source[i]);
        assert(source@.take(i + 1) =~= source@.take(i as int).push(source@[i as int]));
        i = i + 1;
    }
    assert(source@.take(source@.len() as int) =~= source@);
}

/// The line feed that separates parts of the evidence.
pub open spec fn newline() -> Seq<u8> {
    seq![10u8]
}

/// The full evidence text: the diagnostic, a line feed if output follows it,
/// standard output, a line feed if both streams are non-empty, and standard
/// error.
pub open spec fn evidence_text(diagnostic: Seq<u8>, stdout: Seq<u8>, stderr: Seq<u8>) -> Seq<u8> {
    diagnostic
        + (if diagnostic.len() > 0 && (stdout.len() > 0 || stderr.len() > 0) { newline() } else { seq![] })
        + stdout
        + (if stdout.len() > 0 && stderr.len() > 0 { newline() } else { seq![] })
        + stderr
}

/// The bytes of an optional diagnostic.
pub open spec fn diagnostic_bytes(diagnostic: Option<&str>) -> Seq<u8> {
    match diagnostic {
        Some(d) => encode_utf8(d@),
        None => seq![],
    }
}

/// The evidence bytes of a check: its full evidence text cut at `limit`.
pub fn evidence_bytes(diagnostic: Option<&str>, stdout: &[u8], stderr: &[u8], limit: usize) -> (e: Vec<u8>)
    ensures
        e@ == clip(evidence_text(diagnostic_bytes(diagnostic), stdout@, stderr@), limit as nat),
        e@.len() <= limit,
{
    let ghost l = limit as nat;
    let ghost d = diagnostic_bytes(diagnostic);
    let mut evidence: Vec<u8> = Vec::new();
    let mut diagnostic_len: usize = 0;
    if let Some(text) = diagnostic {
        let b = text.as_bytes();
        diagnostic_len = b.len();
        append_bytes(&mut evidence, b, limit);
    }
    proof {
        assert(clip(seq![], l) =~= Seq::<u8>::empty());
        lemma_appended_clips(seq![], d, l);
        assert(Seq::<u8>::empty() + d =~= d);
        assert(evidence@ == clip(d, l));
    }
    let sep1 = diagnostic_len > 0 && (stdout.len() > 0 || stderr.len() > 0);
    let ghost sep1_bytes = if sep1 { newline() } else { seq![] };
    if evidence.len() > 0 && (stdout.len() > 0 || stderr.len() > 0) {
        let nl: [u8; 1] = [10u8];
        append_bytes(&mut evidence, nl.as_slice(), limit);
        proof {
            lemma_appended_clips(d, newline(), l);
            assert(nl@ =~= newline());
        }
    } else if sep1 {
        proof {
            assert(l == 0);
            assert(clip(d + newline(), l) =~= Seq::<u8>::empty());
            assert(evidence@ =~= Seq::<u8>::empty());
        }
    } else {
        assert(d + sep1_bytes =~= d);
    }
    assert(evidence@ == clip(d + sep1_bytes, l));
    append_bytes(&mut evidence, stdout, limit);
    proof {
        lemma_appended_clips(d + sep1_bytes, stdout@, l);
    }
    let ghost sep2_bytes = if stdout.len() > 0 && stderr.len() > 0 { newline() } else { seq![] };
    if stdout.len() > 0 && stderr.len() > 0 {
        let nl: [u8; 1] = [10u8];
        append_bytes(&mut evidence, nl.as_slice(), limit);
        proof {
            lemma_appended_clips(d + sep1_bytes + stdout@, newline(), l);
            assert(nl@ =~= newline());
        }
    } else {
        assert(d + sep1_bytes + stdout@ + sep2_bytes =~= d + sep1_bytes + stdout@);
    }
    append_bytes(&mut evidence, stderr, limit);
    proof {
        lemma_appended_clips(d + sep1_bytes + stdout@ + sep2_bytes, stderr@, l);
        assert(evidence_text(d, stdout@, stderr@) =~= d + sep1_bytes + stdout@ + sep2_bytes + stderr@);
    }
    evidence
}

/// What `String::from_utf8_lossy` makes of `bytes`.
pub uninterp spec fn utf8_lossy(bytes: Seq<u8>) -> Seq<char>;

/// Calls `String::from_utf8_lossy`. Claims that the text is the one named
/// `utf8_lossy(bytes)` and, as its documentation states, the decoded text
/// itself when the bytes are valid UTF-8. The replacement of invalid
/// sequences is not stated.
#[verifier::external_body]
fn lossy_text(bytes: &[u8]) -> (s: String)
    ensures
        s@ == utf8_lossy(bytes@),
        valid_utf8(bytes@) ==> s@ == decode_utf8(bytes@),
{
    String::from_utf8_lossy(bytes).into_owned()
}

/// The evidence of a check: diagnostic, standard output and standard error
/// joined by line feeds and cut at `limit` bytes, decoded as UTF-8 with
/// invalid sequences replaced.
pub fn bounded_evidence(diagnostic: Option<&str>, stdout: &[u8], stderr: &[u8], limit: usize) -> (s: String)
    ensures
        s@ == utf8_lossy(clip(evidence_text(diagnostic_bytes(diagnostic), stdout@, stderr@), limit as nat)),
        valid_utf8(clip(evidence_text(diagnostic_bytes(diagnostic), stdout@, stderr@), limit as nat)) ==> s@
            == decode_utf8(clip(evidence_text(diagnostic_bytes(diagnostic), stdout@, stderr@), limit as nat)),
{
    let bytes = evidence_bytes(diagnostic, stdout, stderr, limit);
    lossy_text(bytes.as_slice())
}

/// `additional` put before `existing` on a line of its own, cut at `limit`.
pub open spec fn prepended_text(additional: Seq<u8>, existing: Seq<u8>) -> Seq<u8> {
    additional + (if existing.len() > 0 { newline() } else { seq![] }) + existing
}

/// The bytes of `additional` and then `existing`, cut at `limit`.
pub fn prepend_bytes(additional: &str, existing: &str, limit: usize) -> (e: Vec<u8>)
    ensures
        e@ == clip(prepended_text(encode_utf8(additional@), encode_utf8(existing@)), limit as nat),
        e@.len() <= limit,
{
    let ghost l = limit as nat;
    let ghost a = encode_utf8(additional@);
    let ghost x = encode_utf8(existing@);
    let mut evidence: Vec<u8> = Vec::new();
    append_bytes(&mut evidence, additional.as_bytes(), limit);
    proof {
        assert(clip(seq![], l) =~= Seq::<u8>::empty());
        lemma_appended_clips(seq![], a, l);
        assert(Seq::<u8>::empty() + a =~= a);
    }
    let tail = existing.as_bytes();
    let ghost sep = if x.len() > 0 { newline() } else { seq![] };
    if tail.len() > 0 {
        let nl: [u8; 1] = [10u8];
        append_bytes(&mut evidence, nl.as_slice(), limit);
        proof {
            lemma_appended_clips(a, newline(), l);
            assert(nl@ =~= newline());
        }
    } else {
        assert(a + sep =~= a);
    }
    append_bytes(&mut evidence, tail, limit);
    proof {
        lemma_appended_clips(a + sep, x, l);
    }
    evidence
}

/// Puts `additional` before the evidence `existing`, keeping the whole
/// within `limit` bytes.
pub fn prepend_bounded(additional: &str, existing: &str, limit: usize) -> (s: String)
    ensures
        s@ == utf8_lossy(clip(prepended_text(encode_utf8(additional@), encode_utf8(existing@)), limit as nat)),
        valid_utf8(clip(prepended_text(encode_utf8(additional@), encode_utf8(existing@)), limit as nat)) ==> s@
            == decode_utf8(clip(prepended_text(encode_utf8(additional@), encode_utf8(existing@)), limit as nat)),
{
    let bytes = prepend_bytes(additional, existing, limit);
    lossy_text(bytes.as_slice())
}

/// The environment a check process gets: the review search path and fixed
/// settings that keep Git and the locale from reading user configuration.
pub open spec fn review_environment(search_path: Seq<char>) -> Seq<(Seq<char>, Seq<char>)> {
    seq![
        ("PATH"@, search_path),
        ("HOME"@, "/dev/null"@),
        ("LC_ALL"@, "C"@),
        ("GIT_TERMINAL_PROMPT"@, "0"@),
        ("GIT_CONFIG_NOSYSTEM"@, "1"@),
        ("GIT_CONFIG_GLOBAL"@, "/dev/null"@),
        ("GIT_ATTR_NOSYSTEM"@, "1"@),
        ("GIT_OPTIONAL_LOCKS"@, "0"@),
    ]
}

/// The view of a list of name and value pairs.
pub open spec fn pairs_view(v: Seq<(String, String)>) -> Seq<(Seq<char>, Seq<char>)> {
    v.map_values(|p: (String, String)| (p.0@, p.1@))
}

fn push_pair(env: &mut Vec<(String, String)>, name: &str, value: &str)
    ensures
        pairs_view(final(env)@) == pairs_view(old(env)@).push((name@, value@)),
{
    env.push((name.to_owned(), value.to_owned()));
    proof {
        assert(pairs_view(env@) =~= pairs_view(old(env)@).push((name@, value@)));
    }
}

/// The minimal environment of a check process, each name given once.
pub fn minimal_environment(search_path: &str) -> (env: Vec<(String, String)>)
    ensures
        pairs_view(env@) == review_environment(search_path@),
        forall|i: int, j: int| 0 <= i < j < env@.len() ==> env@[i].0@ != env@[j].0@,
{
    let mut env: Vec<(String, String)> = Vec::new();
    push_pair(&mut env, "PATH", search_path);
    push_pair(&mut env, "HOME", "/dev/null");
    push_pair(&mut env, "LC_ALL", "C");
    push_pair(&mut env, "GIT_TERMINAL_PROMPT", "0");
    push_pair(&mut env, "GIT_CONFIG_NOSYSTEM", "1");
    push_pair(&mut env, "GIT_CONFIG_GLOBAL", "/dev/null");
    push_pair(&mut env, "GIT_ATTR_NOSYSTEM", "1");
    push_pair(&mut env, "GIT_OPTIONAL_LOCKS", "0");
    proof {
        reveal_strlit("PATH");
        reveal_strlit("HOME");
        reveal_strlit("LC_ALL");
        reveal_strlit("GIT_TERMINAL_PROMPT");
        reveal_strlit("GIT_CONFIG_NOSYSTEM");
        reveal_strlit("GIT_CONFIG_GLOBAL");
        reveal_strlit("GIT_ATTR_NOSYSTEM");
        reveal_strlit("GIT_OPTIONAL_LOCKS");
        assert(pairs_view(env@) =~= review_environment(search_path@));
        let keys = pairs_view(env@);
        assert forall|i: int, j: int| 0 <= i < j < env@.len() implies env@[i].0@ != env@[j].0@ by {
            assert(keys[i].0 == env@[i].0@);
            assert(keys[j].0 == env@[j].0@);
            if keys[i].0 == keys[j].0 {
                assert(keys[i].0.len() == keys[j].0.len());
                assert(keys[i].0[keys[i].0.len() - 1] == keys[j].0[keys[j].0.len() - 1]);
                assert(keys[i].0[4] == keys[j].0[4]);
            }
        }
    }
    env
}

/// The message of a check whose tool is not installed.
pub open spec fn not_installed(name: Seq<char>) -> Seq<char> {
    name + " is not installed"@
}

/// Every entry of a `:`-separated search path is an absolute directory:
/// the path starts with `/`, every `:` is followed by `/`, and it does not
/// end with `:` (which would leave an empty entry).
pub open spec fn search_path_is_absolute(s: Seq<char>) -> bool {
    &&& s.len() > 0
    &&& s[0] == '/'
    &&& forall|i: int| 0 <= i < s.len() && #[trigger] s[i] == ':' ==> i + 1 < s.len() && s[i + 1] == '/'
}

/// Keeps a search path only when every entry is an absolute directory;
/// otherwise it is unsafe to search.
pub fn normalize_search_path(search_path: &str) -> (r: Result<String, ReviewError>)
    ensures
        search_path_is_absolute(search_path@) ==> (r matches Ok(s) && s@ == search_path@),
        !search_path_is_absolute(search_path@) ==> r == Err::<String, ReviewError>(ReviewError::UnsafeSearchPath),
{
    let n = search_path.unicode_len();
    if n == 0 || search_path.get_char(0) != '/' {
        return Err(ReviewError::UnsafeSearchPath);
    }
    let mut i: usize = 0;
    while i < n
        invariant
            n == search_path@.len(),
            i <= n,
            search_path@[0] == '/',
            forall|k: int| 0 <= k < i && #[trigger] search_path@[k] == ':' ==> k + 1 < n && search_path@[k + 1] == '/',
        decreases n - i,
    {
        if search_path.get_char(i) == ':' && (i + 1 >= n || search_path.get_char(i + 1) != '/') {
            return Err(ReviewError::UnsafeSearchPath);
        }
        i = i + 1;
    }
    Ok(search_path.to_owned())
}

/// The installed program, or why the check cannot run without it.
pub fn require_program<'a>(program: Option<&'a String>, name: &str) -> (r: Result<&'a String, String>)
    ensures
        match program {
            Some(p) => r == Ok::<&String, String>(p),
            None => r is Err && r->Err_0@ == not_installed(name@),
        },
{
    match program {
        Some(p) => Ok(p),
        None => {
            let mut message = name.to_owned();
            message.append(" is not installed");
            Err(message)
        },
    }
}

/// Paths of the review tools found on the search path, and the path itself.
#[derive(Debug, Clone)]
pub struct ReviewPrograms {
    pub cargo: Option<String>,
    pub cargo_deny: Option<String>,
    pub gitleaks: Option<String>,
    pub search_path: String,
}

/// The tool that runs each check: `cargo`, `cargo-deny` or `gitleaks`.
pub open spec fn tool_name(kind: ReviewCheckKind) -> Seq<char> {
    match kind {
        ReviewCheckKind::SecretScan => "gitleaks"@,
        ReviewCheckKind::DependencyAudit => "cargo-deny"@,
        _ => "cargo"@,
    }
}

/// Where the tool of a check was found, if anywhere.
pub open spec fn tool_path(programs: ReviewPrograms, kind: ReviewCheckKind) -> Option<String> {
    match kind {
        ReviewCheckKind::SecretScan => programs.gitleaks,
        ReviewCheckKind::DependencyAudit => programs.cargo_deny,
        _ => programs.cargo,
    }
}

/// The arguments each check passes to its tool.
pub open spec fn check_arguments(kind: ReviewCheckKind) -> Seq<Seq<char>> {
    match kind {
        ReviewCheckKind::Format => seq!["fmt"@, "--all"@, "--"@, "--check"@],
        ReviewCheckKind::Typecheck => seq!["check"@, "--workspace"@, "--all-targets"@, "--all-features"@],
        ReviewCheckKind::Test => seq!["test"@, "--workspace"@, "--all-features"@],
        ReviewCheckKind::SecretScan => seq!["detect"@, "--no-banner"@, "--redact"@, "."@],
        ReviewCheckKind::DependencyAudit => seq!["check"@],
    }
}

/// The view of a list of strings.
pub open spec fn strings_view(v: Seq<String>) -> Seq<Seq<char>> {
    v.map_values(|s: String| s@)
}

fn push_str(v: &mut Vec<String>, s: &str)
    ensures
        strings_view(final(v)@) == strings_view(old(v)@).push(s@),
{
    v.push(s.to_owned());
    proof {
        assert(strings_view(v@) =~= strings_view(old(v)@).push(s@));
    }
}

fn arguments_for(kind: ReviewCheckKind) -> (args: Vec<String>)
    ensures
        strings_view(args@) == check_arguments(kind),
{
    let mut args: Vec<String> = Vec::new();
    proof {
        assert(strings_view(args@) =~= Seq::<Seq<char>>::empty());
    }
    match kind {
        ReviewCheckKind::Format => {
            push_str(&mut args, "fmt");
            push_str(&mut args, "--all");
            push_str(&mut args, "--");
            push_str(&mut args, "--check");
        },
        ReviewCheckKind::Typecheck => {
            push_str(&mut args, "check");
            push_str(&mut args, "--workspace");
            push_str(&mut args, "--all-targets");
            push_str(&mut args, "--all-features");
        },
        ReviewCheckKind::Test => {
            push_str(&mut args, "test");
            push_str(&mut args, "--workspace");
            push_str(&mut args, "--all-features");
        },
        ReviewCheckKind::SecretScan => {
            push_str(&mut args, "detect");
            push_str(&mut args, "--no-banner");
            push_str(&mut args, "--redact");
            push_str(&mut args, ".");
        },
        ReviewCheckKind::DependencyAudit => {
            push_str(&mut args, "check");
        },
    }
    proof {
        assert(strings_view(args@) =~= check_arguments(kind));
    }
    args
}

/// A check process to start: program, arguments, environment, working
/// directory and limits.
#[derive(Debug, Clone)]
pub struct CheckInvocation {
    pub program: String,
    pub arguments: Vec<String>,
    pub environment: Vec<(String, String)>,
    pub current_dir: String,
    pub timeout: Duration,
    pub output_limit: usize,
}

/// Why a check cannot run without local sandboxing.
pub open spec fn untrusted_message() -> Seq<char> {
    "check requires explicit trust because local sandboxing is unavailable"@
}

/// The process that runs a check in `worktree`, or why the check is
/// unavailable: unsandboxed checks were not allowed, or its tool is missing.
pub fn check_spec(programs: &ReviewPrograms, options: &ReviewOptions, kind: ReviewCheckKind, worktree: &str) -> (r: Result<CheckInvocation, String>)
    ensures
        !options.allow_unsandboxed_checks ==> r is Err && r->Err_0@ == untrusted_message(),
        options.allow_unsandboxed_checks && tool_path(*programs, kind) is None ==> r is Err
            && r->Err_0@ == not_installed(tool_name(kind)),
        options.allow_unsandboxed_checks && tool_path(*programs, kind) is Some ==> r is Ok && ({
            let c = r->Ok_0;
            &&& c.program@ == tool_path(*programs, kind)->0@
            &&& strings_view(c.arguments@) == check_arguments(kind)
            &&& pairs_view(c.environment@) == review_environment(programs.search_path@)
            &&& c.current_dir@ == worktree@
            &&& c.timeout == options.timeout
            &&& c.output_limit == options.output_limit
        }),
{
    if !options.allow_unsandboxed_checks {
        return Err(String::from_str("check requires explicit trust because local sandboxing is unavailable"));
    }
    let found = match kind {
        ReviewCheckKind::SecretScan => require_program(programs.gitleaks.as_ref(), "gitleaks"),
        ReviewCheckKind::DependencyAudit => require_program(programs.cargo_deny.as_ref(), "cargo-deny"),
        _ => require_program(programs.cargo.as_ref(), "cargo"),
    };
    let program = match found {
        Ok(p) => p.clone(),
        Err(message) => return Err(message),
    };
    Ok(CheckInvocation {
        program,
        arguments: arguments_for(kind),
        environment: minimal_environment(programs.search_path.as_str()),
        current_dir: worktree.to_owned(),
        timeout: options.timeout,
        output_limit: options.output_limit,
    })
}

/// The process that runs a check, or, where the check cannot run (it was
/// not trusted, or its tool is missing), its `Unavailable` result with the
/// reason as evidence.
pub fn prepare_check(programs: &ReviewPrograms, options: &ReviewOptions, kind: ReviewCheckKind, worktree: &str) -> (r: Result<
    CheckInvocation,
    ReviewCheckResult,
>)
    ensures
        !options.allow_unsandboxed_checks ==> (r matches Err(u) && u.kind == kind
            && u.status == ReviewCheckStatus::Unavailable && u.evidence@ == untrusted_message()),
        options.allow_unsandboxed_checks && tool_path(*programs, kind) is None ==> (r matches Err(u) && u.kind == kind
            && u.status == ReviewCheckStatus::Unavailable && u.evidence@ == not_installed(tool_name(kind))),
        options.allow_unsandboxed_checks && tool_path(*programs, kind) is Some ==> r is Ok && ({
            let c = r->Ok_0;
            &&& c.program@ == tool_path(*programs, kind)->0@
            &&& strings_view(c.arguments@) == check_arguments(kind)
            &&& pairs_view(c.environment@) == review_environment(programs.search_path@)
            &&& c.current_dir@ == worktree@
            &&& c.timeout == options.timeout
            &&& c.output_limit == options.output_limit
        }),
{
    match check_spec(programs, options, kind, worktree) {
        Ok(invocation) => Ok(invocation),
        Err(evidence) => Err(ReviewCheckResult { kind, status: ReviewCheckStatus::Unavailable, evidence }),
    }
}

/// Why a check was marked as having changed the worktree.
pub open spec fn mutation_message() -> Seq<char> {
    "check changed the worktree or HEAD"@
}

/// The result of a check whose process ended with `outcome`: its status and
/// evidence, or `Mutated` with that noted first when the worktree or HEAD no
/// longer matches the reviewed snapshot.
pub fn check_result(
    kind: ReviewCheckKind,
    outcome: TerminalOutcome,
    stdout: &[u8],
    stderr: &[u8],
    stdout_truncated: bool,
    stderr_truncated: bool,
    snapshot_unchanged: bool,
    limit: usize,
) -> (r: ReviewCheckResult)
    ensures
        r.kind == kind,
        ({
            let truncated = stdout_truncated || stderr_truncated;
            let diag = match diagnostic_of(outcome, truncated) {
                Some(t) => encode_utf8(t),
                None => seq![],
            };
            let clipped = clip(evidence_text(diag, stdout@, stderr@), limit as nat);
            let evidence = utf8_lossy(clipped);
            let noted = clip(prepended_text(encode_utf8(mutation_message()), encode_utf8(evidence)), limit as nat);
            if snapshot_unchanged {
                &&& r.status == status_of(outcome, truncated)
                &&& r.evidence@ == evidence
                &&& valid_utf8(clipped) ==> r.evidence@ == decode_utf8(clipped)
            } else {
                &&& r.status == ReviewCheckStatus::Mutated
                &&& r.evidence@ == utf8_lossy(noted)
                &&& valid_utf8(noted) ==> r.evidence@ == decode_utf8(noted)
                &&& valid_utf8(clipped) ==> evidence == decode_utf8(clipped)
            }
        }),
{
    let truncated = stdout_truncated || stderr_truncated;
    let status = check_status(outcome, truncated);
    let diagnostic = process_diagnostic(outcome, truncated);
    let evidence = match &diagnostic {
        Some(t) => bounded_evidence(Some(t.as_str()), stdout, stderr, limit),
        None => bounded_evidence(None, stdout, stderr, limit),
    };
    if snapshot_unchanged {
        ReviewCheckResult { kind, status, evidence }
    } else {
        let noted = prepend_bounded("check changed the worktree or HEAD", evidence.as_str(), limit);
        ReviewCheckResult { kind, status: ReviewCheckStatus::Mutated, evidence: noted }
    }
}

/// A finding that a check which did not pass leaves on the changeset.
#[derive(Debug, Clone, PartialEq, Eq)]
pub struct ReviewFinding {
    pub changeset_id: u128,
    pub blob_identity: String,
    pub category: String,
    pub severity: String,
    pub title: String,
    pub evidence: String,
}

/// Checks that changed the worktree or timed out are errors; failed or
/// unavailable checks are warnings.
pub open spec fn severity_of(status: ReviewCheckStatus) -> Seq<char> {
    match status {
        ReviewCheckStatus::Mutated | ReviewCheckStatus::TimedOut => "error"@,
        ReviewCheckStatus::Failed | ReviewCheckStatus::Unavailable => "warning"@,
        ReviewCheckStatus::Passed => "info"@,
    }
}

/// The finding title: the check's name, `check`, and its status.
pub open spec fn finding_title(kind: ReviewCheckKind, status: ReviewCheckStatus) -> Seq<char> {
    kind_name(kind) + " check "@ + status_name(status)
}

/// The finding recorded for a check result.
pub fn finding_for_result(changeset_id: u128, blob_identity: &str, result: &ReviewCheckResult) -> (f: ReviewFinding)
    ensures
        f.changeset_id == changeset_id,
        f.blob_identity@ == blob_identity@,
        f.category@ == category_of(result.kind),
        f.severity@ == severity_of(result.status),
        f.title@ == finding_title(result.kind, result.status),
        f.evidence@ == result.evidence@,
{
    let severity = match result.status {
        ReviewCheckStatus::Mutated | ReviewCheckStatus::TimedOut => "error",
        ReviewCheckStatus::Failed | ReviewCheckStatus::Unavailable => "warning",
        ReviewCheckStatus::Passed => "info",
    };
    let mut title = result.kind.name().to_owned();
    title.append(" check ");
    title.append(result.status.name());
    ReviewFinding {
        changeset_id,
        blob_identity: blob_identity.to_owned(),
        category: result.kind.category().to_owned(),
        severity: severity.to_owned(),
        title,
        evidence: result.evidence.clone(),
    }
}

/// What the filesystem shows at a changed path.
#[derive(Debug, Clone, Copy, PartialEq, Eq)]
pub enum ChangedFileMetadata {
    /// Nothing is there: the change deletes the file.
    Missing,
    /// A regular file of `len` bytes.
    Regular { len: u64 },
    /// A symbolic link, a directory or another kind of entry.
    Other,
}

/// The first changed path that a review cannot take, with why.
pub open spec fn changed_files_check(paths: Seq<(String, ChangedFileMetadata)>, max_file_bytes: u64) -> Result<(), ReviewError>
    decreases paths.len(),
{
    if paths.len() == 0 {
        Ok(())
    } else {
        let rest = changed_files_check(paths.drop_last(), max_file_bytes);
        if rest is Err {
            rest
        } else {
            match paths.last().1 {
                ChangedFileMetadata::Other => Err(ReviewError::UnsupportedChangedPath(paths.last().0)),
                ChangedFileMetadata::Regular { len } => if len > max_file_bytes {
                    Err(ReviewError::ChangedFileTooLarge(paths.last().0))
                } else {
                    Ok(())
                },
                ChangedFileMetadata::Missing => Ok(()),
            }
        }
    }
}

/// Refuses the first changed path that is not a regular file, or whose file
/// is larger than `max_file_bytes`; deleted paths pass.
pub fn validate_changed_files(paths: &[(String, ChangedFileMetadata)], max_file_bytes: u64) -> (r: Result<(), ReviewError>)
    ensures
        r == changed_files_check(paths@, max_file_bytes),
{
    let mut i: usize = 0;
    while i < paths.len()
        invariant
            i <= paths@.len(),
            changed_files_check(paths@.take(i as int), max_file_bytes) is Ok,
        decreases paths.len() - i,
    {
        proof {
            assert(paths@.take(i + 1).drop_last() =~= paths@.take(i as int));
        }
        let entry = &paths[i];
        match entry.1 {
            ChangedFileMetadata::Other => {
                let r = Err(ReviewError::UnsupportedChangedPath(entry.0.clone()));
                proof {
                    lemma_changed_files_prefix(paths@, max_file_bytes, i as int + 1);
                }
                return r;
            },
            ChangedFileMetadata::Regular { len } => {
                if len > max_file_bytes {
                    let r = Err(ReviewError::ChangedFileTooLarge(entry.0.clone()));
                    proof {
                        lemma_changed_files_prefix(paths@, max_file_bytes, i as int + 1);
                    }
                    return r;
                }
            },
            ChangedFileMetadata::Missing => {},
        }
        i = i + 1;
    }
    assert(paths@.take(paths@.len() as int) =~= paths@);
    Ok(())
}

/// Once a prefix of the paths is refused, the whole list is refused with
/// the same error.
pub proof fn lemma_changed_files_prefix(paths: Seq<(String, ChangedFileMetadata)>, max_file_bytes: u64, n: int)
    requires
        0 <= n <= paths.len(),
        changed_files_check(paths.take(n), max_file_bytes) is Err,
    ensures
        changed_files_check(paths, max_file_bytes) == changed_files_check(paths.take(n), max_file_bytes),
    decreases paths.len() - n,
{
    if n < paths.len() {
        assert(paths.take(n + 1).drop_last() =~= paths.take(n));
        lemma_changed_files_prefix(paths, max_file_bytes, n + 1);
    } else {
        assert(paths.take(n) =~= paths);
    }
}

/// What a review needs before its first check: the changeset's head is
/// still checked out, something changed, and the snapshot held still while
/// its diff was read.
pub open spec fn preflight_check(head_matches: bool, changed_paths: nat, snapshot_stable: bool) -> Result<(), ReviewError> {
    if !head_matches {
        Err(ReviewError::HeadChanged)
    } else if changed_paths == 0 {
        Err(ReviewError::NoChangedPaths)
    } else if !snapshot_stable {
        Err(ReviewError::WorktreeChanged)
    } else {
        Ok(())
    }
}

/// Refuses a review whose head moved, that has nothing to review, or whose
/// worktree changed while the snapshot was taken.
pub fn review_preflight(initial_head: &str, changeset_head: &str, changed_paths: usize, snapshot_stable: bool) -> (r: Result<(), ReviewError>)
    ensures
        r == preflight_check(initial_head@ == changeset_head@, changed_paths as nat, snapshot_stable),
{
    if !crate::text::str_equals(initial_head, changeset_head) {
        return Err(ReviewError::HeadChanged);
    }
    if changed_paths == 0 {
        return Err(ReviewError::NoChangedPaths);
    }
    if !snapshot_stable {
        return Err(ReviewError::WorktreeChanged);
    }
    Ok(())
}

/// The checks run so far, the findings they left, and whether the last one
/// changed the worktree.
#[derive(Debug, Clone)]
pub struct ReviewProgress {
    pub checks: Vec<ReviewCheckResult>,
    pub findings: Vec<ReviewFinding>,
    pub mutation_detected: bool,
}

impl ReviewProgress {
    /// A review before its first check.
    pub fn new() -> (p: ReviewProgress)
        ensures
            p.checks@.len() == 0,
            p.findings@.len() == 0,
            !p.mutation_detected,
    {
        ReviewProgress { checks: Vec::new(), findings: Vec::new(), mutation_detected: false }
    }

    /// Records a check: a check that did not pass leaves a finding, and a
    /// check that changed the worktree ends the review. Returns whether the
    /// review must stop.
    pub fn record(&mut self, changeset_id: u128, blob_identity: &str, result: ReviewCheckResult) -> (stop: bool)
        ensures
            final(self).checks@ == old(self).checks@.push(result),
            result.status == ReviewCheckStatus::Passed ==> final(self).findings@ == old(self).findings@,
            result.status != ReviewCheckStatus::Passed ==> ({
                let f = final(self).findings@.last();
                &&& final(self).findings@.len() == old(self).findings@.len() + 1
                &&& final(self).findings@.drop_last() == old(self).findings@
                &&& f.changeset_id == changeset_id
                &&& f.blob_identity@ == blob_identity@
                &&& f.category@ == category_of(result.kind)
                &&& f.severity@ == severity_of(result.status)
                &&& f.title@ == finding_title(result.kind, result.status)
                &&& f.evidence@ == result.evidence@
            }),
            final(self).mutation_detected == (result.status == ReviewCheckStatus::Mutated),
            stop == final(self).mutation_detected,
    {
        if result.status != ReviewCheckStatus::Passed {
            let finding = finding_for_result(changeset_id, blob_identity, &result);
            self.findings.push(finding);
        }
        self.mutation_detected = result.status == ReviewCheckStatus::Mutated;
        self.checks.push(result);
        self.mutation_detected
    }
}

/// After the last check: unless a check already reported a mutation, the
/// worktree must still match the reviewed snapshot.
pub fn finish_review(mutation_detected: bool, snapshot_unchanged: bool) -> (r: Result<(), ReviewError>)
    ensures
        r is Err <==> (!mutation_detected && !snapshot_unchanged),
        r is Err ==> r == Err::<(), ReviewError>(ReviewError::WorktreeChanged),
{
    if !mutation_detected && !snapshot_unchanged {
        return Err(ReviewError::WorktreeChanged);
    }
    Ok(())
}

/// Each check runs the subcommand it is named for: formatting runs
/// `cargo fmt`, type checking `cargo check`, the test check `cargo test`
/// (so it runs the tests rather than only compiling them), the secret scan
/// `gitleaks detect` and the dependency audit `cargo-deny check`; the three
/// cargo checks run three different subcommands, over the whole workspace
/// where the subcommand takes one.
pub proof fn lemma_checks_run_their_subcommands(kind: ReviewCheckKind)
    ensures
        check_arguments(kind).len() >= 1,
        check_arguments(ReviewCheckKind::Format)[0] == "fmt"@,
        check_arguments(ReviewCheckKind::Typecheck)[0] == "check"@,
        check_arguments(ReviewCheckKind::Test)[0] == "test"@,
        check_arguments(ReviewCheckKind::SecretScan)[0] == "detect"@,
        check_arguments(ReviewCheckKind::DependencyAudit)[0] == "check"@,
        check_arguments(ReviewCheckKind::Test)[0] != check_arguments(ReviewCheckKind::Typecheck)[0],
        check_arguments(ReviewCheckKind::Test)[0] != check_arguments(ReviewCheckKind::Format)[0],
        check_arguments(ReviewCheckKind::Typecheck)[0] != check_arguments(ReviewCheckKind::Format)[0],
        check_arguments(ReviewCheckKind::Test).contains("--workspace"@),
        check_arguments(ReviewCheckKind::Typecheck).contains("--workspace"@),
        tool_name(ReviewCheckKind::Test) == "cargo"@,
{
    reveal_strlit("test");
    reveal_strlit("check");
    reveal_strlit("fmt");
    assert("test"@ != "check"@) by {
        assert("test"@[0] != "check"@[0]);
    }
    assert("test"@ != "fmt"@) by {
        assert("test"@.len() != "fmt"@.len());
    }
    assert("check"@ != "fmt"@) by {
        assert("check"@.len() != "fmt"@.len());
    }
    assert(check_arguments(ReviewCheckKind::Test)[1] == "--workspace"@);
    assert(check_arguments(ReviewCheckKind::Typecheck)[1] == "--workspace"@);
}

/// How a finished process is classified: a check passes exactly when its
/// process completed with exit status 0 and its output was not cut short,
/// and only then has no diagnostic; it times out exactly when its process
/// timed out with its output whole; every other ending fails it. A process
/// alone never marks a check mutated or unavailable.
pub proof fn lemma_process_outcomes_classify_checks(outcome: TerminalOutcome, truncated: bool)
    ensures
        status_of(outcome, truncated) == ReviewCheckStatus::Passed <==> !truncated && outcome
            == TerminalOutcome::Completed(0),
        status_of(outcome, truncated) == ReviewCheckStatus::TimedOut <==> !truncated && outcome
            == TerminalOutcome::TimedOut,
        status_of(outcome, truncated) != ReviewCheckStatus::Mutated,
        status_of(outcome, truncated) != ReviewCheckStatus::Unavailable,
        diagnostic_of(outcome, truncated) is None <==> status_of(outcome, truncated) == ReviewCheckStatus::Passed,
{
}

} // verus!
