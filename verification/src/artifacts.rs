//! Captured process output stored as redacted, segmented, digest-checked
//! artifacts under per-run and global byte quotas.

use vstd::prelude::*;
use crate::digest::{digest, digest_text, is_sha256_text, parse_uuid, parse_uuid_text};
use crate::error::PersistenceError;
use crate::store::SqliteStore;
use crate::random::new_random_id;
use crate::text::{decimal, is_lower_hex_of_len, str_equals, u64_to_decimal};
use crate::time::Duration;
use crate::redaction::{redact_bounded, redacted, redaction_limited, secret_views, take_at_most};

verus! {

/// Limits and retention of the local artifact store.
#[derive(Debug, Clone, Copy, PartialEq, Eq)]
pub struct ArtifactPolicy {
    pub segment_bytes: usize,
    pub per_run_bytes: usize,
    pub total_bytes: usize,
    pub retention: Duration,
}

/// A policy is usable: non-zero limits with segment <= per-run <= total, and
/// a positive retention whose milliseconds fit an `i64`.
pub open spec fn policy_valid(p: ArtifactPolicy) -> bool {
    &&& p.segment_bytes != 0
    &&& p.per_run_bytes != 0
    &&& p.total_bytes != 0
    &&& p.segment_bytes <= p.per_run_bytes
    &&& p.per_run_bytes <= p.total_bytes
    &&& !(p.retention.spec_secs() == 0 && p.retention.spec_nanos() == 0)
    &&& p.retention.total_millis() <= i64::MAX
}

/// Bytes per stored segment by default.
pub const DEFAULT_SEGMENT_BYTES: usize = 262_144;

/// How long artifacts are kept by default, in seconds.
pub const DEFAULT_RETENTION_SECS: u64 = 604_800;

impl ArtifactPolicy {
    /// The default policy: 256 KiB segments, a week of retention, and the
    /// given per-run and total limits.
    pub fn standard(max_captured_stream_bytes: usize, max_local_artifact_bytes: usize) -> (p: ArtifactPolicy)
        ensures
            p.segment_bytes == DEFAULT_SEGMENT_BYTES,
            p.per_run_bytes == max_captured_stream_bytes,
            p.total_bytes == max_local_artifact_bytes,
            p.retention.spec_secs() == DEFAULT_RETENTION_SECS,
            p.retention.spec_nanos() == 0,
    {
        ArtifactPolicy {
            segment_bytes: DEFAULT_SEGMENT_BYTES,
            per_run_bytes: max_captured_stream_bytes,
            total_bytes: max_local_artifact_bytes,
            retention: Duration::from_secs(DEFAULT_RETENTION_SECS),
        }
    }

    /// Returns the policy when it is usable.
    pub fn validate(self) -> (r: Result<Self, PersistenceError>)
        ensures
            r == (if policy_valid(self) { Ok(self) } else { Err(PersistenceError::InvalidArtifactPolicy) }),
    {
        if self.segment_bytes == 0 || self.per_run_bytes == 0 || self.total_bytes == 0
            || self.segment_bytes > self.per_run_bytes || self.per_run_bytes > self.total_bytes
            || self.retention.is_zero() || self.retention.as_millis() > i64::MAX as u128 {
            return Err(PersistenceError::InvalidArtifactPolicy);
        }
        Ok(self)
    }
}

/// Which process stream an artifact captured.
#[derive(Debug, Clone, Copy, PartialEq, Eq, Structural)]
pub enum ArtifactStream {
    Stdout,
    Stderr,
}

/// The stored kind name of a stream.
pub open spec fn stream_kind_text(stream: ArtifactStream) -> Seq<char> {
    match stream {
        ArtifactStream::Stdout => "provider_stdout"@,
        ArtifactStream::Stderr => "provider_stderr"@,
    }
}

impl ArtifactStream {
    /// The stored kind name.
    pub fn kind(self) -> (s: &'static str)
        ensures
            s@ == stream_kind_text(self),
    {
        match self {
            ArtifactStream::Stdout => "provider_stdout",
            ArtifactStream::Stderr => "provider_stderr",
        }
    }

    /// Reads a stored kind name.
    pub fn parse(value: &str) -> (r: Result<Self, PersistenceError>)
        ensures
            r == (if value@ == stream_kind_text(ArtifactStream::Stdout) {
                Ok(ArtifactStream::Stdout)
            } else if value@ == stream_kind_text(ArtifactStream::Stderr) {
                Ok(ArtifactStream::Stderr)
            } else {
                Err(PersistenceError::ArtifactMetadataCorrupt)
            }),
    {
        if str_equals(value, "provider_stdout") {
            Ok(ArtifactStream::Stdout)
        } else if str_equals(value, "provider_stderr") {
            Ok(ArtifactStream::Stderr)
        } else {
            Err(PersistenceError::ArtifactMetadataCorrupt)
        }
    }
}

/// Lifecycle of a stored artifact.
#[derive(Debug, Clone, Copy, PartialEq, Eq, Structural)]
pub enum ArtifactState {
    Writing,
    Complete,
    Deleting,
}

/// The stored status name of a state.
pub open spec fn state_text(state: ArtifactState) -> Seq<char> {
    match state {
        ArtifactState::Writing => "writing"@,
        ArtifactState::Complete => "complete"@,
        ArtifactState::Deleting => "deleting"@,
    }
}

impl ArtifactState {
    /// The stored status name.
    pub fn as_str(self) -> (s: &'static str)
        ensures
            s@ == state_text(self),
    {
        match self {
            ArtifactState::Writing => "writing",
            ArtifactState::Complete => "complete",
            ArtifactState::Deleting => "deleting",
        }
    }

    /// Reads a stored status name.
    pub fn parse(value: &str) -> (r: Result<Self, PersistenceError>)
        ensures
            r == (if value@ == state_text(ArtifactState::Writing) {
                Ok(ArtifactState::Writing)
            } else if value@ == state_text(ArtifactState::Complete) {
                Ok(ArtifactState::Complete)
            } else if value@ == state_text(ArtifactState::Deleting) {
                Ok(ArtifactState::Deleting)
            } else {
                Err(PersistenceError::ArtifactMetadataCorrupt)
            }),
    {
        if str_equals(value, "writing") {
            Ok(ArtifactState::Writing)
        } else if str_equals(value, "complete") {
            Ok(ArtifactState::Complete)
        } else if str_equals(value, "deleting") {
            Ok(ArtifactState::Deleting)
        } else {
            Err(PersistenceError::ArtifactMetadataCorrupt)
        }
    }
}

/// One stored segment of an artifact.
#[derive(Debug, Clone, PartialEq, Eq)]
pub struct ArtifactSegment {
    pub sequence: u32,
    pub stored_bytes: usize,
    pub sha256: String,
}

/// The manifest of a captured stream.
#[derive(Debug, Clone, PartialEq, Eq)]
pub struct RunArtifact {
    pub id: u128,
    pub changeset_id: u128,
    pub run_id: u128,
    pub supervision_id: u128,
    pub stream: ArtifactStream,
    pub state: ArtifactState,
    pub source_bytes: usize,
    pub stored_bytes: usize,
    pub segments: Vec<ArtifactSegment>,
    pub sha256: String,
    pub redacted: bool,
    pub process_truncated: bool,
    pub quota_limited: bool,
    pub created_at_unix_ms: i64,
    pub updated_at_unix_ms: i64,
    pub expires_at_unix_ms: i64,
}

/// A 64-digit lower-case hexadecimal SHA-256 text.
pub fn is_sha256(value: &str) -> (r: bool)
    ensures
        r == is_sha256_text(value@),
{
    is_lower_hex_of_len(value, 64)
}

/// The segments that splitting `content` into chunks of `segment_bytes`
/// gives, numbered from `first`: each as (sequence, length, digest).
pub open spec fn expected_segments(content: Seq<u8>, segment_bytes: nat, first: nat) -> Seq<(nat, nat, Seq<char>)>
    decreases content.len(),
{
    if content.len() == 0 || segment_bytes == 0 {
        seq![]
    } else {
        let n = if content.len() < segment_bytes { content.len() } else { segment_bytes };
        seq![(first, n, digest_text(content.take(n as int)))] + expected_segments(
            content.skip(n as int),
            segment_bytes,
            first + 1,
        )
    }
}

/// The (sequence, length, digest) description of stored segments.
pub open spec fn segment_views(segments: Seq<ArtifactSegment>) -> Seq<(nat, nat, Seq<char>)> {
    segments.map_values(|s: ArtifactSegment| (s.sequence as nat, s.stored_bytes as nat, s.sha256@))
}

proof fn lemma_expected_segments_len(content: Seq<u8>, segment_bytes: nat, first: nat)
    requires
        segment_bytes > 0,
    ensures
        expected_segments(content, segment_bytes, first).len() <= content.len(),
        content.len() > 0 ==> expected_segments(content, segment_bytes, first).len() >= 1,
    decreases content.len(),
{
    if content.len() > 0 {
        let n = if content.len() < segment_bytes { content.len() } else { segment_bytes };
        lemma_expected_segments_len(content.skip(n as int), segment_bytes, first + 1);
    }
}

/// Splits `content` into segments of `segment_bytes` bytes (the last may be
/// shorter), numbered from 0, each with its SHA-256 digest. Refused when a
/// sequence number would not fit a `u32`.
pub fn segment_metadata(content: &[u8], segment_bytes: usize) -> (r: Result<Vec<ArtifactSegment>, PersistenceError>)
    requires
        segment_bytes > 0,
    ensures
        expected_segments(content@, segment_bytes as nat, 0).len() <= 0x1_0000_0000 ==> r is Ok
            && segment_views(r.unwrap()@) == expected_segments(content@, segment_bytes as nat, 0),
        expected_segments(content@, segment_bytes as nat, 0).len() > 0x1_0000_0000 ==> r
            == Err::<Vec<ArtifactSegment>, PersistenceError>(PersistenceError::ArtifactMetadataCorrupt),
{
    let ghost whole = expected_segments(content@, segment_bytes as nat, 0);
    let mut segments: Vec<ArtifactSegment> = Vec::new();
    let mut start: usize = 0;
    let mut index: usize = 0;
    assert(content@.skip(0) =~= content@);
    assert(segment_views(segments@) =~= seq![]);
    while start < content.len()
        invariant
            segment_bytes > 0,
            start <= content@.len(),
            index <= start,
            index == segments@.len(),
            index <= 0x1_0000_0000,
            whole == expected_segments(content@, segment_bytes as nat, 0),
            whole == segment_views(segments@) + expected_segments(content@.skip(start as int), segment_bytes as nat, index as nat),
        decreases content.len() - start,
    {
        let remaining = content.len() - start;
        let n = if remaining < segment_bytes { remaining } else { segment_bytes };
        let ghost rest = content@.skip(start as int);
        proof {
            assert(rest.len() > 0);
            assert(rest.take(n as int) =~= content@.subrange(start as int, start + n));
            assert(rest.skip(n as int) =~= content@.skip(start + n));
        }
        if index > 0xFFFF_FFFF {
            proof {
                lemma_expected_segments_len(rest, segment_bytes as nat, index as nat);
                assert(whole.len() > 0x1_0000_0000);
            }
            return Err(PersistenceError::ArtifactMetadataCorrupt);
        }
        let chunk = vstd::slice::slice_subrange(content, start, start + n);
        let sha256 = digest(chunk);
        let ghost before = segments@;
        segments.push(ArtifactSegment { sequence: index as u32, stored_bytes: n, sha256 });
        proof {
            assert(segment_views(segments@) =~= segment_views(before).push((index as nat, n as nat, digest_text(rest.take(n as int)))));
            assert(expected_segments(rest, segment_bytes as nat, index as nat) == seq![(index as nat, n as nat, digest_text(rest.take(n as int)))]
                + expected_segments(rest.skip(n as int), segment_bytes as nat, index as nat + 1));
            assert(whole =~= segment_views(segments@) + expected_segments(content@.skip(start + n), segment_bytes as nat, index as nat + 1));
        }
        start = start + n;
        index = index + 1;
    }
    proof {
        assert(content@.skip(start as int).len() == 0);
        assert(whole =~= segment_views(segments@));
    }
    Ok(segments)
}

/// The manifest of a complete artifact is well formed: it has content,
/// numbered segments of plausible sizes that add up to the artifact size,
/// and well-formed digests.
pub open spec fn layout_valid(a: RunArtifact, max_stream_bytes: nat) -> bool {
    &&& a.state == ArtifactState::Complete
    &&& a.stored_bytes != 0
    &&& a.stored_bytes <= max_stream_bytes
    &&& a.segments@.len() > 0
    &&& is_sha256_text(a.sha256@)
    &&& a.segments@.len() <= 0x1_0000_0000
    &&& forall|i: int| 0 <= i < a.segments@.len() ==> {
        let s = #[trigger] a.segments@[i];
        &&& s.sequence == i
        &&& s.stored_bytes != 0
        &&& s.stored_bytes <= max_stream_bytes
        &&& is_sha256_text(s.sha256@)
    }
    &&& sum_stored(a.segments@) == a.stored_bytes
}

/// Total of the segment sizes.
pub open spec fn sum_stored(segments: Seq<ArtifactSegment>) -> nat
    decreases segments.len(),
{
    if segments.len() == 0 { 0 } else { sum_stored(segments.drop_last()) + segments.last().stored_bytes as nat }
}

proof fn lemma_sum_stored_monotone(segments: Seq<ArtifactSegment>, i: int)
    requires
        0 <= i <= segments.len(),
    ensures
        sum_stored(segments.take(i)) <= sum_stored(segments),
    decreases segments.len() - i,
{
    if i < segments.len() {
        lemma_sum_stored_monotone(segments, i + 1);
        assert(segments.take(i + 1).drop_last() =~= segments.take(i));
    } else {
        assert(segments.take(i) =~= segments);
    }
}

/// Checks that a complete artifact's manifest is well formed; streams are
/// at most `max_stream_bytes` bytes.
pub fn validate_artifact_layout(artifact: &RunArtifact, max_stream_bytes: usize) -> (r: Result<(), PersistenceError>)
    ensures
        r == (if layout_valid(*artifact, max_stream_bytes as nat) {
            Ok(())
        } else {
            Err(PersistenceError::ArtifactMetadataCorrupt)
        }),
{
    if artifact.state != ArtifactState::Complete || artifact.stored_bytes == 0
        || artifact.stored_bytes > max_stream_bytes || artifact.segments.len() == 0
        || !is_sha256(artifact.sha256.as_str()) {
        return Err(PersistenceError::ArtifactMetadataCorrupt);
    }
    let ghost segs = artifact.segments@;
    let mut stored_bytes: usize = 0;
    let mut index: usize = 0;
    while index < artifact.segments.len()
        invariant
            segs == artifact.segments@,
            index <= segs.len(),
            stored_bytes == sum_stored(segs.take(index as int)),
            forall|i: int| 0 <= i < index ==> {
                let s = #[trigger] segs[i];
                &&& s.sequence == i
                &&& s.stored_bytes != 0
                &&& s.stored_bytes <= max_stream_bytes
                &&& is_sha256_text(s.sha256@)
            },
        decreases artifact.segments.len() - index,
    {
        let segment = &artifact.segments[index];
        proof {
            assert(segs.take(index + 1).drop_last() =~= segs.take(index as int));
        }
        if index > 0xFFFF_FFFF {
            return Err(PersistenceError::ArtifactMetadataCorrupt);
        }
        if segment.sequence != index as u32 || segment.stored_bytes == 0 || segment.stored_bytes > max_stream_bytes
            || !is_sha256(segment.sha256.as_str()) {
            return Err(PersistenceError::ArtifactMetadataCorrupt);
        }
        stored_bytes = match stored_bytes.checked_add(segment.stored_bytes) {
            Some(total) => total,
            None => {
                proof {
                    lemma_sum_stored_monotone(segs, index + 1);
                }
                return Err(PersistenceError::ArtifactMetadataCorrupt);
            },
        };
        index = index + 1;
    }
    assert(segs.take(segs.len() as int) =~= segs);
    if stored_bytes != artifact.stored_bytes {
        return Err(PersistenceError::ArtifactMetadataCorrupt);
    }
    Ok(())
}


/// The scalar columns of a stored artifact row.
pub struct ArtifactRow {
    pub id: String,
    pub changeset_id: String,
    pub run_id: String,
    pub kind: String,
    pub created_at_unix_ms: i64,
    pub status: String,
    pub stored_bytes: i64,
    pub updated_at_unix_ms: i64,
    pub expires_at_unix_ms: Option<i64>,
}

/// The outcome of checking an artifact row's columns against its manifest
/// body, in the order the columns are compared: the first failing
/// comparison decides.
pub open spec fn artifact_row_check(row: ArtifactRow, a: RunArtifact) -> Result<(), PersistenceError> {
    match parse_uuid_text(row.id@) {
        None => Err(PersistenceError::CorruptIdentifier("artifact id")),
        Some(id) => if a.id != id {
            Err(PersistenceError::ArtifactMetadataCorrupt)
        } else {
            match parse_uuid_text(row.changeset_id@) {
                None => Err(PersistenceError::CorruptIdentifier("artifact changeset id")),
                Some(changeset_id) => if a.changeset_id != changeset_id {
                    Err(PersistenceError::ArtifactMetadataCorrupt)
                } else {
                    match parse_uuid_text(row.run_id@) {
                        None => Err(PersistenceError::CorruptIdentifier("artifact run id")),
                        Some(run_id) => if a.run_id != run_id {
                            Err(PersistenceError::ArtifactMetadataCorrupt)
                        } else if row.kind@ != stream_kind_text(ArtifactStream::Stdout)
                            && row.kind@ != stream_kind_text(ArtifactStream::Stderr) {
                            Err(PersistenceError::ArtifactMetadataCorrupt)
                        } else if stream_kind_text(a.stream) != row.kind@ {
                            Err(PersistenceError::ArtifactMetadataCorrupt)
                        } else if row.status@ != state_text(ArtifactState::Writing)
                            && row.status@ != state_text(ArtifactState::Complete)
                            && row.status@ != state_text(ArtifactState::Deleting) {
                            Err(PersistenceError::ArtifactMetadataCorrupt)
                        } else if state_text(a.state) != row.status@ {
                            Err(PersistenceError::ArtifactMetadataCorrupt)
                        } else if a.created_at_unix_ms != row.created_at_unix_ms {
                            Err(PersistenceError::ArtifactMetadataCorrupt)
                        } else if row.stored_bytes < 0 || row.stored_bytes > usize::MAX {
                            Err(PersistenceError::ArtifactMetadataCorrupt)
                        } else if a.stored_bytes != row.stored_bytes || a.updated_at_unix_ms != row.updated_at_unix_ms
                            || row.expires_at_unix_ms != Some(a.expires_at_unix_ms) {
                            Err(PersistenceError::ArtifactMetadataCorrupt)
                        } else {
                            Ok(())
                        },
                    }
                },
            }
        },
    }
}

proof fn lemma_kind_texts_differ()
    ensures
        stream_kind_text(ArtifactStream::Stdout) != stream_kind_text(ArtifactStream::Stderr),
        state_text(ArtifactState::Writing) != state_text(ArtifactState::Complete),
        state_text(ArtifactState::Writing) != state_text(ArtifactState::Deleting),
        state_text(ArtifactState::Complete) != state_text(ArtifactState::Deleting),
{
    reveal_strlit("provider_stdout");
    reveal_strlit("provider_stderr");
    reveal_strlit("writing");
    reveal_strlit("complete");
    reveal_strlit("deleting");
    assert(stream_kind_text(ArtifactStream::Stdout)[12] != stream_kind_text(ArtifactStream::Stderr)[12]);
    assert(state_text(ArtifactState::Writing)[0] != state_text(ArtifactState::Complete)[0]);
    assert(state_text(ArtifactState::Writing)[0] != state_text(ArtifactState::Deleting)[0]);
    assert(state_text(ArtifactState::Complete)[0] != state_text(ArtifactState::Deleting)[0]);
}

/// Checks that a stored artifact row's columns agree with its manifest body
/// and returns the manifest.
pub fn validate_artifact_row(row: &ArtifactRow, artifact: RunArtifact) -> (r: Result<RunArtifact, PersistenceError>)
    ensures
        match artifact_row_check(*row, artifact) {
            Ok(()) => r == Ok::<RunArtifact, PersistenceError>(artifact),
            Err(e) => r == Err::<RunArtifact, PersistenceError>(e),
        },
{
    proof {
        lemma_kind_texts_differ();
    }
    let id = match parse_uuid(row.id.as_str()) {
        Some(id) => id,
        None => return Err(PersistenceError::CorruptIdentifier("artifact id")),
    };
    if artifact.id != id {
        return Err(PersistenceError::ArtifactMetadataCorrupt);
    }
    let changeset_id = match parse_uuid(row.changeset_id.as_str()) {
        Some(id) => id,
        None => return Err(PersistenceError::CorruptIdentifier("artifact changeset id")),
    };
    if artifact.changeset_id != changeset_id {
        return Err(PersistenceError::ArtifactMetadataCorrupt);
    }
    let run_id = match parse_uuid(row.run_id.as_str()) {
        Some(id) => id,
        None => return Err(PersistenceError::CorruptIdentifier("artifact run id")),
    };
    if artifact.run_id != run_id {
        return Err(PersistenceError::ArtifactMetadataCorrupt);
    }
    let stream = ArtifactStream::parse(row.kind.as_str())?;
    if artifact.stream != stream {
        return Err(PersistenceError::ArtifactMetadataCorrupt);
    }
    let state = ArtifactState::parse(row.status.as_str())?;
    if artifact.state != state || artifact.created_at_unix_ms != row.created_at_unix_ms {
        return Err(PersistenceError::ArtifactMetadataCorrupt);
    }
    if row.stored_bytes < 0 || row.stored_bytes as u64 > usize::MAX as u64 {
        return Err(PersistenceError::ArtifactMetadataCorrupt);
    }
    let stored_bytes = row.stored_bytes as usize;
    let expires_matches = match row.expires_at_unix_ms {
        Some(expires) => expires == artifact.expires_at_unix_ms,
        None => false,
    };
    if artifact.stored_bytes != stored_bytes || artifact.updated_at_unix_ms != row.updated_at_unix_ms
        || !expires_matches {
        return Err(PersistenceError::ArtifactMetadataCorrupt);
    }
    Ok(artifact)
}

/// `digits` left-padded with zeros to at least `width` characters.
pub open spec fn zero_pad(digits: Seq<char>, width: nat) -> Seq<char> {
    if digits.len() >= width { digits } else { Seq::new((width - digits.len()) as nat, |i: int| '0') + digits }
}

/// The file name of a segment.
pub open spec fn segment_name_text(sequence: u32) -> Seq<char> {
    zero_pad(decimal(sequence as nat), 8) + ".segment"@
}

/// The file name of a segment: its sequence number in at least eight
/// decimal digits, then `.segment`.
pub fn segment_name(sequence: u32) -> (s: String)
    ensures
        s@ == segment_name_text(sequence),
{
    let digits = u64_to_decimal(sequence as u64);
    let len = digits.as_str().unicode_len();
    let mut s = String::new();
    let mut pad: usize = 0;
    let ghost width: nat = if len >= 8 { 0 } else { (8 - len) as nat };
    while len + pad < 8
        invariant
            len == digits@.len(),
            pad <= width,
            width == (if len >= 8 { 0nat } else { (8 - len) as nat }),
            s@ == Seq::new(pad as nat, |i: int| '0'),
        decreases 8 - len - pad,
    {
        proof {
            reveal_strlit("0");
        }
        s.append("0");
        proof {
            assert(s@ =~= Seq::new((pad + 1) as nat, |i: int| '0'));
        }
        pad = pad + 1;
    }
    s.append(digits.as_str());
    s.append(".segment");
    proof {
        if len >= 8 {
            assert(s@ =~= zero_pad(digits@, 8) + ".segment"@);
        } else {
            assert(s@ =~= zero_pad(digits@, 8) + ".segment"@);
        }
    }
    s
}

/// Converts a size to an `i64`, refusing sizes that do not fit.
pub fn to_i64(value: usize) -> (r: Result<i64, PersistenceError>)
    ensures
        r == (if value <= i64::MAX { Ok(value as i64) } else { Err(PersistenceError::ArtifactMetadataCorrupt) }),
{
    if value as u64 > i64::MAX as u64 {
        return Err(PersistenceError::ArtifactMetadataCorrupt);
    }
    Ok(value as i64)
}

/// `a - b`, or 0 when `b` exceeds `a`.
pub open spec fn sub_sat(a: nat, b: nat) -> nat {
    if a >= b { (a - b) as nat } else { 0 }
}

/// Bytes still available to a run: the smaller of the global and the
/// per-run remainders.
pub open spec fn capacity(policy: ArtifactPolicy, total_used: nat, run_used: nat) -> nat {
    let global = sub_sat(policy.total_bytes as nat, total_used);
    let run = sub_sat(policy.per_run_bytes as nat, run_used);
    if global < run { global } else { run }
}

/// What the store reserves for one captured stream.
pub struct ArtifactReservation<'a> {
    pub run_id: u128,
    pub changeset_id: u128,
    pub supervision_id: u128,
    pub stream: ArtifactStream,
    pub source_bytes: usize,
    pub content: &'a [u8],
    pub process_truncated: bool,
    pub quota_limited: bool,
    pub now_unix_ms: i64,
}

/// `a + b` clamped to the `i64` range.
pub open spec fn add_sat_i64(a: i64, b: i64) -> i64 {
    if a + b > i64::MAX { i64::MAX } else if a + b < i64::MIN { i64::MIN } else { (a + b) as i64 }
}

/// The manifest of a new reservation, whose id was drawn at random.
pub open spec fn reserved_manifest(
    policy: ArtifactPolicy,
    r: ArtifactReservation,
    stored: nat,
    a: RunArtifact,
) -> bool {
    let kept = r.content@.take(stored as int);
    &&& a.changeset_id == r.changeset_id
    &&& a.run_id == r.run_id
    &&& a.supervision_id == r.supervision_id
    &&& a.stream == r.stream
    &&& a.state == ArtifactState::Writing
    &&& a.source_bytes == r.source_bytes
    &&& a.stored_bytes == stored
    &&& segment_views(a.segments@) == expected_segments(kept, policy.segment_bytes as nat, 0)
    &&& a.sha256@ == digest_text(kept)
    &&& a.redacted
    &&& a.process_truncated == r.process_truncated
    &&& a.quota_limited == (r.quota_limited || stored < r.content@.len())
    &&& a.created_at_unix_ms == r.now_unix_ms
    &&& a.updated_at_unix_ms == r.now_unix_ms
    &&& a.expires_at_unix_ms == add_sat_i64(r.now_unix_ms, policy.retention.total_millis() as i64)
}

/// The redacted bytes a captured stream keeps within the capacity left by
/// `usage` (bytes stored in total and by the run).
pub open spec fn stream_content(
    p: ArtifactPolicy,
    source: Seq<u8>,
    truncated: bool,
    secrets: Seq<Seq<u8>>,
    usage: (usize, usize),
) -> Seq<u8> {
    take_at_most(redacted(source, secrets, truncated), capacity(p, usage.0 as nat, usage.1 as nat))
}

/// A captured stream stores nothing: it is empty and was not cut short, no
/// quota is left, or nothing remains after redaction.
pub open spec fn stream_skipped(
    p: ArtifactPolicy,
    source: Seq<u8>,
    truncated: bool,
    secrets: Seq<Seq<u8>>,
    usage: (usize, usize),
) -> bool {
    (source.len() == 0 && !truncated) || capacity(p, usage.0 as nat, usage.1 as nat) == 0
        || stream_content(p, source, truncated, secrets, usage).len() == 0
}

/// A captured stream would need more segments than a manifest can number.
pub open spec fn stream_overflows(
    p: ArtifactPolicy,
    source: Seq<u8>,
    truncated: bool,
    secrets: Seq<Seq<u8>>,
    usage: (usize, usize),
) -> bool {
    expected_segments(stream_content(p, source, truncated, secrets, usage), p.segment_bytes as nat, 0).len()
        > 0x1_0000_0000
}

/// `a` is the manifest, and `bytes` the content, of a captured stream; the
/// identifier is the one place left open.
pub open spec fn stream_captured(
    p: ArtifactPolicy,
    ids: (u128, u128, u128),
    stream: ArtifactStream,
    source: Seq<u8>,
    truncated: bool,
    secrets: Seq<Seq<u8>>,
    usage: (usize, usize),
    now: i64,
    a: RunArtifact,
    bytes: Seq<u8>,
) -> bool {
    let available = capacity(p, usage.0 as nat, usage.1 as nat);
    let content = stream_content(p, source, truncated, secrets, usage);
    &&& bytes == content
    &&& a.run_id == ids.0
    &&& a.changeset_id == ids.1
    &&& a.supervision_id == ids.2
    &&& a.stream == stream
    &&& a.state == ArtifactState::Writing
    &&& a.source_bytes == source.len()
    &&& a.stored_bytes == content.len()
    &&& 0 < a.stored_bytes <= available
    &&& segment_views(a.segments@) == expected_segments(content, p.segment_bytes as nat, 0)
    &&& a.sha256@ == digest_text(content)
    &&& a.redacted
    &&& a.process_truncated == truncated
    &&& a.quota_limited == redaction_limited(source, secrets, available, truncated)
    &&& a.created_at_unix_ms == now
    &&& a.updated_at_unix_ms == now
    &&& a.expires_at_unix_ms == add_sat_i64(now, p.retention.total_millis() as i64)
}

/// Bytes a captured stream stores: none when it is skipped.
pub open spec fn stream_stored(
    p: ArtifactPolicy,
    source: Seq<u8>,
    truncated: bool,
    secrets: Seq<Seq<u8>>,
    usage: (usize, usize),
) -> nat {
    if stream_skipped(p, source, truncated, secrets, usage) { 0 } else { stream_content(p, source, truncated, secrets, usage).len() }
}

/// Usage after `n` more bytes are stored for the run.
pub open spec fn usage_after(usage: (usize, usize), n: nat) -> (usize, usize) {
    ((usage.0 + n) as usize, (usage.1 + n) as usize)
}

/// The manifests and contents captured from a process result, viewed.
pub open spec fn captured_views(v: Seq<(RunArtifact, Vec<u8>)>) -> Seq<(RunArtifact, Seq<u8>)> {
    v.map_values(|x: (RunArtifact, Vec<u8>)| (x.0, x.1@))
}

/// `v` is what capturing a process result stores: its standard output
/// under `usage`, then its standard error under the usage that leaves,
/// each left out when it stores nothing.
pub open spec fn process_captured(
    p: ArtifactPolicy,
    ids: (u128, u128, u128),
    stdout: Seq<u8>,
    stdout_truncated: bool,
    stderr: Seq<u8>,
    stderr_truncated: bool,
    secrets: Seq<Seq<u8>>,
    usage: (usize, usize),
    now: i64,
    v: Seq<(RunArtifact, Seq<u8>)>,
) -> bool {
    let out_skipped = stream_skipped(p, stdout, stdout_truncated, secrets, usage);
    let later = usage_after(usage, stream_stored(p, stdout, stdout_truncated, secrets, usage));
    let err_skipped = stream_skipped(p, stderr, stderr_truncated, secrets, later);
    let n_out: int = if out_skipped { 0 } else { 1 };
    &&& v.len() == n_out + (if err_skipped { 0int } else { 1int })
    &&& !out_skipped ==> stream_captured(p, ids, ArtifactStream::Stdout, stdout, stdout_truncated, secrets, usage, now,
        v[0].0, v[0].1)
    &&& !err_skipped ==> stream_captured(p, ids, ArtifactStream::Stderr, stderr, stderr_truncated, secrets, later, now,
        v[n_out].0, v[n_out].1)
}

/// The error capturing a process result stops at, if any: a stream that
/// would need too many segments.
pub open spec fn process_capture_overflows(
    p: ArtifactPolicy,
    stdout: Seq<u8>,
    stdout_truncated: bool,
    stderr: Seq<u8>,
    stderr_truncated: bool,
    secrets: Seq<Seq<u8>>,
    usage: (usize, usize),
) -> (bool, bool) {
    let later = usage_after(usage, stream_stored(p, stdout, stdout_truncated, secrets, usage));
    (
        !stream_skipped(p, stdout, stdout_truncated, secrets, usage)
            && stream_overflows(p, stdout, stdout_truncated, secrets, usage),
        !stream_skipped(p, stderr, stderr_truncated, secrets, later)
            && stream_overflows(p, stderr, stderr_truncated, secrets, later),
    )
}

/// A local store of run artifacts under a private root directory.
#[derive(Debug)]
pub struct LocalArtifactStore {
    store: SqliteStore,
    root: String,
    policy: ArtifactPolicy,
}

/// A path is absolute: it starts at the root directory.
pub open spec fn is_absolute_text(path: Seq<char>) -> bool {
    path.len() > 0 && path[0] == '/'
}

impl LocalArtifactStore {
    /// The root directory.
    pub closed spec fn spec_root(&self) -> Seq<char> {
        self.root@
    }

    /// The policy.
    pub closed spec fn spec_policy(&self) -> ArtifactPolicy {
        self.policy
    }

    /// The store is built only over an absolute root and a usable policy.
    #[verifier::type_invariant]
    spec fn well_formed(&self) -> bool {
        is_absolute_text(self.root@) && policy_valid(self.policy)
    }

    /// Opens an artifact store at `root`, which must be absolute, with a
    /// usable `policy`.
    pub fn new(store: SqliteStore, root: &str, policy: ArtifactPolicy) -> (r: Result<Self, PersistenceError>)
        ensures
            !is_absolute_text(root@) ==> r == Err::<Self, PersistenceError>(PersistenceError::InvalidArtifactRoot),
            is_absolute_text(root@) && !policy_valid(policy) ==> r == Err::<Self, PersistenceError>(
                PersistenceError::InvalidArtifactPolicy),
            is_absolute_text(root@) && policy_valid(policy) ==> (r matches Ok(s) && s.spec_root() == root@
                && s.spec_policy() == policy && s.spec_store() == store),
    {
        if root.unicode_len() == 0 || root.get_char(0) != '/' {
            return Err(PersistenceError::InvalidArtifactRoot);
        }
        let policy = policy.validate()?;
        Ok(LocalArtifactStore { store, root: root.to_owned(), policy })
    }

    /// The root directory.
    pub fn root(&self) -> (r: &str)
        ensures
            r@ == self.spec_root(),
    {
        self.root.as_str()
    }

    /// The policy.
    pub fn policy(&self) -> (p: ArtifactPolicy)
        ensures
            p == self.spec_policy(),
    {
        self.policy
    }

    /// The database the manifests are kept in.
    pub closed spec fn spec_store(&self) -> SqliteStore {
        self.store
    }

    /// The database the manifests are kept in.
    pub fn store(&self) -> (s: &SqliteStore)
        ensures
            *s == self.spec_store(),
    {
        &self.store
    }

    /// Bytes still available to a run, given the bytes stored in total and
    /// by the run (artifacts being deleted still count).
    pub fn available_capacity(&self, total_used: usize, run_used: usize) -> (a: usize)
        ensures
            a == capacity(self.spec_policy(), total_used as nat, run_used as nat),
    {
        let global = self.policy.total_bytes.saturating_sub(total_used);
        let run = self.policy.per_run_bytes.saturating_sub(run_used);
        if global < run { global } else { run }
    }

    /// The manifest of a reservation that keeps the first `stored` bytes in
    /// `segments`, under the identifier `id`.
    fn build_manifest(&self, reservation: &ArtifactReservation, stored: usize, segments: Vec<ArtifactSegment>, id: u128) -> (a: RunArtifact)
        requires
            0 < stored <= reservation.content@.len(),
            segment_views(segments@) == expected_segments(reservation.content@.take(stored as int),
                self.spec_policy().segment_bytes as nat, 0),
        ensures
            reserved_manifest(self.spec_policy(), *reservation, stored as nat, a),
            a.id == id,
    {
        proof {
            use_type_invariant(self);
        }
        let kept = vstd::slice::slice_subrange(reservation.content, 0, stored);
        assert(kept@ =~= reservation.content@.take(stored as int));
        let retention_ms = self.policy.retention.as_millis();
        let retention_ms = retention_ms as i64;
        let expires_at_unix_ms = match reservation.now_unix_ms.checked_add(retention_ms) {
            Some(value) => value,
            None => if retention_ms > 0 { i64::MAX } else { i64::MIN },
        };
        RunArtifact {
            id,
            changeset_id: reservation.changeset_id,
            run_id: reservation.run_id,
            supervision_id: reservation.supervision_id,
            stream: reservation.stream,
            state: ArtifactState::Writing,
            source_bytes: reservation.source_bytes,
            stored_bytes: stored,
            segments,
            sha256: digest(kept),
            redacted: true,
            process_truncated: reservation.process_truncated,
            quota_limited: reservation.quota_limited || stored < reservation.content.len(),
            created_at_unix_ms: reservation.now_unix_ms,
            updated_at_unix_ms: reservation.now_unix_ms,
            expires_at_unix_ms,
        }
    }

    /// Plans the manifest of a captured stream under the identifier `id`,
    /// given current usage: keeps as much of the content as the quotas
    /// allow, or nothing when no byte is available.
    pub fn reserve_with_id(
        &self,
        reservation: &ArtifactReservation,
        total_used: usize,
        run_used: usize,
        id: u128,
    ) -> (r: Result<Option<RunArtifact>, PersistenceError>)
        ensures
            ({
                let available = capacity(self.spec_policy(), total_used as nat, run_used as nat);
                let stored = if reservation.content@.len() < available { reservation.content@.len() } else { available };
                let segments = expected_segments(reservation.content@.take(stored as int),
                    self.spec_policy().segment_bytes as nat, 0);
                &&& stored == 0 ==> r == Ok::<Option<RunArtifact>, PersistenceError>(None)
                &&& stored > 0 && segments.len() > 0x1_0000_0000 ==> r == Err::<Option<RunArtifact>, PersistenceError>(
                    PersistenceError::ArtifactMetadataCorrupt)
                &&& stored > 0 && segments.len() <= 0x1_0000_0000 ==> (r matches Ok(Some(a))
                    && reserved_manifest(self.spec_policy(), *reservation, stored, a) && a.id == id)
            }),
    {
        proof {
            use_type_invariant(self);
        }
        let available = self.available_capacity(total_used, run_used);
        let stored = if reservation.content.len() < available { reservation.content.len() } else { available };
        if stored == 0 {
            return Ok(None);
        }
        let kept = vstd::slice::slice_subrange(reservation.content, 0, stored);
        assert(kept@ =~= reservation.content@.take(stored as int));
        let segments = segment_metadata(kept, self.policy.segment_bytes)?;
        Ok(Some(self.build_manifest(reservation, stored, segments, id)))
    }

    /// Plans the manifest of a captured stream, given current usage, as
    /// `reserve_with_id` does, under a fresh random identifier; when the
    /// source of randomness fails the result is an I/O error. The
    /// identifier is drawn only once the manifest's size is known to fit.
    pub fn reserve(&self, reservation: &ArtifactReservation, total_used: usize, run_used: usize) -> (r: Result<
        Option<RunArtifact>,
        PersistenceError,
    >)
        ensures
            ({
                let available = capacity(self.spec_policy(), total_used as nat, run_used as nat);
                let stored = if reservation.content@.len() < available { reservation.content@.len() } else { available };
                let segments = expected_segments(reservation.content@.take(stored as int),
                    self.spec_policy().segment_bytes as nat, 0);
                &&& stored == 0 ==> r == Ok::<Option<RunArtifact>, PersistenceError>(None)
                &&& stored > 0 && segments.len() > 0x1_0000_0000 ==> r == Err::<Option<RunArtifact>, PersistenceError>(
                    PersistenceError::ArtifactMetadataCorrupt)
                &&& stored > 0 && segments.len() <= 0x1_0000_0000 ==> ((r matches Ok(Some(a))
                    && reserved_manifest(self.spec_policy(), *reservation, stored, a))
                    || r matches Err(PersistenceError::Io(_)))
            }),
    {
        proof {
            use_type_invariant(self);
        }
        let available = self.available_capacity(total_used, run_used);
        let stored = if reservation.content.len() < available { reservation.content.len() } else { available };
        if stored == 0 {
            return Ok(None);
        }
        let kept = vstd::slice::slice_subrange(reservation.content, 0, stored);
        assert(kept@ =~= reservation.content@.take(stored as int));
        let segments = segment_metadata(kept, self.policy.segment_bytes)?;
        let id = match new_random_id() {
            Some(id) => id,
            None => return Err(PersistenceError::Io("the source of randomness failed".to_string())),
        };
        Ok(Some(self.build_manifest(reservation, stored, segments, id)))
    }

    /// The redacted bytes of a captured stream within the available quota,
    /// with whether the quota cut them short, or `None` when nothing is to
    /// be stored.
    fn redact_for_capture(&self, source: &[u8], process_truncated: bool, secrets: &[Vec<u8>], usage: (usize, usize)) -> (r:
        Option<(Vec<u8>, bool)>)
        ensures
            stream_skipped(self.spec_policy(), source@, process_truncated, secret_views(secrets@), usage) ==> r is None,
            !stream_skipped(self.spec_policy(), source@, process_truncated, secret_views(secrets@), usage) ==> (r matches Some(
                x) && x.0@ == stream_content(self.spec_policy(), source@, process_truncated, secret_views(secrets@), usage)
                && x.1 == redaction_limited(source@, secret_views(secrets@), capacity(self.spec_policy(), usage.0 as nat,
                usage.1 as nat), process_truncated)),
    {
        if source.len() == 0 && !process_truncated {
            return None;
        }
        let available = self.available_capacity(usage.0, usage.1);
        if available == 0 {
            return None;
        }
        let (content, limited) = redact_bounded(source, secrets, available, process_truncated);
        if content.len() == 0 {
            return None;
        }
        Some((content, limited))
    }

    /// Captures one stream of a finished process under the artifact
    /// identifier `artifact_id`: an empty stream that was not cut short, or
    /// a run without quota left, stores nothing; otherwise the stream is
    /// redacted within the available quota and the manifest of the redacted
    /// bytes is planned. Returns the manifest and the bytes to write.
    pub fn capture_stream_with_id(
        &self,
        ids: (u128, u128, u128),
        stream: ArtifactStream,
        source: &[u8],
        process_truncated: bool,
        secrets: &[Vec<u8>],
        usage: (usize, usize),
        now_unix_ms: i64,
        artifact_id: u128,
    ) -> (r: Result<Option<(RunArtifact, Vec<u8>)>, PersistenceError>)
        ensures
            ({
                let p = self.spec_policy();
                let sec = secret_views(secrets@);
                if stream_skipped(p, source@, process_truncated, sec, usage) {
                    r == Ok::<Option<(RunArtifact, Vec<u8>)>, PersistenceError>(None)
                } else if stream_overflows(p, source@, process_truncated, sec, usage) {
                    r == Err::<Option<(RunArtifact, Vec<u8>)>, PersistenceError>(PersistenceError::ArtifactMetadataCorrupt)
                } else {
                    r matches Ok(Some((a, bytes))) && a.id == artifact_id
                        && stream_captured(p, ids, stream, source@, process_truncated, sec, usage, now_unix_ms, a, bytes@)
                }
            }),
    {
        let (content, limited) = match self.redact_for_capture(source, process_truncated, secrets, usage) {
            None => return Ok(None),
            Some(x) => x,
        };
        let reservation = ArtifactReservation {
            run_id: ids.0,
            changeset_id: ids.1,
            supervision_id: ids.2,
            stream,
            source_bytes: source.len(),
            content: content.as_slice(),
            process_truncated,
            quota_limited: limited,
            now_unix_ms,
        };
        proof {
            assert(content@.take(content@.len() as int) =~= content@);
        }
        match self.reserve_with_id(&reservation, usage.0, usage.1, artifact_id) {
            Err(e) => Err(e),
            Ok(None) => Ok(None),
            Ok(Some(artifact)) => Ok(Some((artifact, content))),
        }
    }

    /// Captures one stream of a finished process, as
    /// `capture_stream_with_id` does, under a fresh random artifact
    /// identifier; when the source of randomness fails the result is an I/O
    /// error.
    pub fn capture_stream(
        &self,
        ids: (u128, u128, u128),
        stream: ArtifactStream,
        source: &[u8],
        process_truncated: bool,
        secrets: &[Vec<u8>],
        usage: (usize, usize),
        now_unix_ms: i64,
    ) -> (r: Result<Option<(RunArtifact, Vec<u8>)>, PersistenceError>)
        ensures
            ({
                let p = self.spec_policy();
                let sec = secret_views(secrets@);
                if stream_skipped(p, source@, process_truncated, sec, usage) {
                    r == Ok::<Option<(RunArtifact, Vec<u8>)>, PersistenceError>(None)
                } else if stream_overflows(p, source@, process_truncated, sec, usage) {
                    r == Err::<Option<(RunArtifact, Vec<u8>)>, PersistenceError>(PersistenceError::ArtifactMetadataCorrupt)
                } else {
                    (r matches Err(PersistenceError::Io(_))) || (r matches Ok(Some((a, bytes)))
                        && stream_captured(p, ids, stream, source@, process_truncated, sec, usage, now_unix_ms, a, bytes@))
                }
            }),
    {
        let (content, limited) = match self.redact_for_capture(source, process_truncated, secrets, usage) {
            None => return Ok(None),
            Some(x) => x,
        };
        let reservation = ArtifactReservation {
            run_id: ids.0,
            changeset_id: ids.1,
            supervision_id: ids.2,
            stream,
            source_bytes: source.len(),
            content: content.as_slice(),
            process_truncated,
            quota_limited: limited,
            now_unix_ms,
        };
        proof {
            assert(content@.take(content@.len() as int) =~= content@);
        }
        match self.reserve(&reservation, usage.0, usage.1) {
            Err(e) => Err(e),
            Ok(None) => Ok(None),
            Ok(Some(artifact)) => Ok(Some((artifact, content))),
        }
    }

    /// Captures a finished process's standard output and then its standard
    /// error, under the artifact identifiers `artifact_ids`, each within the
    /// quota left after what came before it. Returns the manifests and the
    /// bytes to write, standard output first. Starting within both quotas,
    /// the run and the store stay within them.
    pub fn capture_process_result_with_ids(
        &self,
        ids: (u128, u128, u128),
        stdout: &[u8],
        stdout_truncated: bool,
        stderr: &[u8],
        stderr_truncated: bool,
        secrets: &[Vec<u8>],
        usage: (usize, usize),
        now_unix_ms: i64,
        artifact_ids: (u128, u128),
    ) -> (r: Result<Vec<(RunArtifact, Vec<u8>)>, PersistenceError>)
        ensures
            ({
                let p = self.spec_policy();
                let sec = secret_views(secrets@);
                let over = process_capture_overflows(p, stdout@, stdout_truncated, stderr@, stderr_truncated, sec, usage);
                let out_stored = stream_stored(p, stdout@, stdout_truncated, sec, usage);
                let later = usage_after(usage, out_stored);
                let err_stored = stream_stored(p, stderr@, stderr_truncated, sec, later);
                &&& over.0 ==> r == Err::<Vec<(RunArtifact, Vec<u8>)>, PersistenceError>(
                    PersistenceError::ArtifactMetadataCorrupt)
                &&& !over.0 && over.1 ==> r == Err::<Vec<(RunArtifact, Vec<u8>)>, PersistenceError>(
                    PersistenceError::ArtifactMetadataCorrupt)
                &&& !over.0 && !over.1 ==> (r matches Ok(v) && process_captured(p, ids, stdout@, stdout_truncated,
                    stderr@, stderr_truncated, sec, usage, now_unix_ms, captured_views(v@))
                    && (out_stored > 0 ==> v@[0].0.id == artifact_ids.0)
                    && (err_stored > 0 ==> v@[v@.len() - 1].0.id == artifact_ids.1))
                &&& usage.0 <= p.total_bytes && usage.1 <= p.per_run_bytes ==> usage.0 + out_stored + err_stored
                    <= p.total_bytes && usage.1 + out_stored + err_stored <= p.per_run_bytes
            }),
    {
        let ghost p = self.spec_policy();
        let ghost sec = secret_views(secrets@);
        let mut captured: Vec<(RunArtifact, Vec<u8>)> = Vec::new();
        let mut later = usage;
        match self.capture_stream_with_id(ids, ArtifactStream::Stdout, stdout, stdout_truncated, secrets, usage,
            now_unix_ms, artifact_ids.0)? {
            None => {},
            Some((artifact, bytes)) => {
                let n = artifact.stored_bytes;
                later = (usage.0 + n, usage.1 + n);
                captured.push((artifact, bytes));
            },
        }
        assert(later == usage_after(usage, stream_stored(p, stdout@, stdout_truncated, sec, usage)));
        let ghost first = captured@;
        match self.capture_stream_with_id(ids, ArtifactStream::Stderr, stderr, stderr_truncated, secrets, later,
            now_unix_ms, artifact_ids.1)? {
            None => {},
            Some((artifact, bytes)) => {
                captured.push((artifact, bytes));
            },
        }
        proof {
            if captured@.len() > first.len() {
                assert(captured@[captured@.len() - 1] == captured@.last());
            }
            if first.len() > 0 {
                assert(captured@[0] == first[0]);
            }
        }
        Ok(captured)
    }

    /// Captures a finished process's standard output and then its standard
    /// error, as `capture_process_result_with_ids` does, each under a fresh
    /// random artifact identifier; when the source of randomness fails the
    /// result is an I/O error. Starting within both quotas, the run and the
    /// store stay within them.
    pub fn capture_process_result(
        &self,
        ids: (u128, u128, u128),
        stdout: &[u8],
        stdout_truncated: bool,
        stderr: &[u8],
        stderr_truncated: bool,
        secrets: &[Vec<u8>],
        usage: (usize, usize),
        now_unix_ms: i64,
    ) -> (r: Result<Vec<(RunArtifact, Vec<u8>)>, PersistenceError>)
        ensures
            ({
                let p = self.spec_policy();
                let sec = secret_views(secrets@);
                let over = process_capture_overflows(p, stdout@, stdout_truncated, stderr@, stderr_truncated, sec, usage);
                let out_stored = stream_stored(p, stdout@, stdout_truncated, sec, usage);
                let later = usage_after(usage, out_stored);
                let err_stored = stream_stored(p, stderr@, stderr_truncated, sec, later);
                &&& over.0 ==> r == Err::<Vec<(RunArtifact, Vec<u8>)>, PersistenceError>(
                    PersistenceError::ArtifactMetadataCorrupt)
                &&& !over.0 && over.1 ==> (r == Err::<Vec<(RunArtifact, Vec<u8>)>, PersistenceError>(
                    PersistenceError::ArtifactMetadataCorrupt) || r matches Err(PersistenceError::Io(_)))
                &&& !over.0 && !over.1 ==> ((r matches Err(PersistenceError::Io(_))) || (r matches Ok(v)
                    && process_captured(p, ids, stdout@, stdout_truncated, stderr@, stderr_truncated, sec, usage,
                    now_unix_ms, captured_views(v@))))
                &&& usage.0 <= p.total_bytes && usage.1 <= p.per_run_bytes ==> usage.0 + out_stored + err_stored
                    <= p.total_bytes && usage.1 + out_stored + err_stored <= p.per_run_bytes
            }),
    {
        let ghost p = self.spec_policy();
        let ghost sec = secret_views(secrets@);
        let mut captured: Vec<(RunArtifact, Vec<u8>)> = Vec::new();
        let mut later = usage;
        match self.capture_stream(ids, ArtifactStream::Stdout, stdout, stdout_truncated, secrets, usage, now_unix_ms)? {
            None => {},
            Some((artifact, bytes)) => {
                let n = artifact.stored_bytes;
                later = (usage.0 + n, usage.1 + n);
                captured.push((artifact, bytes));
            },
        }
        assert(later == usage_after(usage, stream_stored(p, stdout@, stdout_truncated, sec, usage)));
        let ghost first = captured@;
        match self.capture_stream(ids, ArtifactStream::Stderr, stderr, stderr_truncated, secrets, later, now_unix_ms)? {
            None => {},
            Some((artifact, bytes)) => {
                captured.push((artifact, bytes));
            },
        }
        proof {
            if captured@.len() > first.len() {
                assert(captured@[captured@.len() - 1] == captured@.last());
            }
            if first.len() > 0 {
                assert(captured@[0] == first[0]);
            }
        }
        Ok(captured)
    }

    /// Checks the bytes read from each segment file of a complete artifact
    /// (`contents[i]` for `artifact.segments[i]`) against the manifest and
    /// returns the bytes of the requested segment.
    pub fn verify_artifact_content(
        &self,
        artifact: &RunArtifact,
        contents: &[Vec<u8>],
        requested_sequence: u32,
    ) -> (r: Result<Vec<u8>, PersistenceError>)
        requires
            contents@.len() == artifact.segments@.len(),
        ensures
            ({
                let segs = segment_views(artifact.segments@);
                let data = content_views(contents@);
                match scan_segments(segs, data, 0, 0) {
                    Err(e) => r == Err::<Vec<u8>, PersistenceError>(e),
                    Ok(total) => if total != artifact.stored_bytes || digest_text(concat_all(data)) != artifact.sha256@ {
                        r == Err::<Vec<u8>, PersistenceError>(PersistenceError::ArtifactIntegrityMismatch)
                    } else {
                        match last_with_sequence(segs, requested_sequence as nat) {
                            None => r == Err::<Vec<u8>, PersistenceError>(PersistenceError::NotFound("artifact segment")),
                            Some(i) => r matches Ok(bytes) && bytes@ == data[i as int],
                        }
                    },
                }
            }),
    {
        let ghost segs = segment_views(artifact.segments@);
        let ghost data = content_views(contents@);
        let mut whole: Vec<u8> = Vec::new();
        let mut total: usize = 0;
        let mut requested: Option<usize> = None;
        let mut i: usize = 0;
        assert(segs.len() == data.len());
        while i < artifact.segments.len()
            invariant
                segs == segment_views(artifact.segments@),
                data == content_views(contents@),
                contents@.len() == artifact.segments@.len(),
                i <= segs.len(),
                whole@ == concat_all(data.take(i as int)),
                total == whole@.len(),
                scan_segments(segs, data, 0, 0) == scan_segments(segs, data, i as int, total as nat),
                requested == last_with_sequence(segs.take(i as int), requested_sequence as nat),
            decreases artifact.segments.len() - i,
        {
            let segment = &artifact.segments[i];
            let bytes = &contents[i];
            assert(data[i as int] == bytes@);
            assert(segs[i as int] == (segment.sequence as nat, segment.stored_bytes as nat, segment.sha256@));
            if bytes.len() != segment.stored_bytes {
                return Err(PersistenceError::ArtifactIntegrityMismatch);
            }
            total = match total.checked_add(bytes.len()) {
                Some(next) => next,
                None => return Err(PersistenceError::ArtifactMetadataCorrupt),
            };
            let segment_digest = digest(bytes.as_slice());
            if segment_digest != segment.sha256 {
                return Err(PersistenceError::ArtifactIntegrityMismatch);
            }
            let ghost before = whole@;
            let mut k: usize = 0;
            while k < bytes.len()
                invariant
                    k <= bytes@.len(),
                    whole@ == before + bytes@.take(k as int),
                decreases bytes.len() - k,
            {
                whole.push(bytes[k]);
                proof {
                    assert(before + bytes@.take(k + 1) =~= (before + bytes@.take(k as int)).push(bytes@[k as int]));
                }
                k = k + 1;
            }
            proof {
                assert(bytes@.take(bytes@.len() as int) =~= bytes@);
                assert(data.take(i + 1).drop_last() =~= data.take(i as int));
                assert(segs.take(i + 1).drop_last() =~= segs.take(i as int));
            }
            if segment.sequence == requested_sequence {
                requested = Some(i);
            }
            i = i + 1;
        }
        assert(data.take(data.len() as int) =~= data);
        assert(segs.take(segs.len() as int) =~= segs);
        proof {
            lemma_last_with_sequence_in_bounds(segs, requested_sequence as nat);
        }
        let whole_digest = digest(whole.as_slice());
        if total != artifact.stored_bytes || whole_digest != artifact.sha256 {
            return Err(PersistenceError::ArtifactIntegrityMismatch);
        }
        match requested {
            Some(index) => Ok(contents[index].clone()),
            None => Err(PersistenceError::NotFound("artifact segment")),
        }
    }

    /// The byte range of `segment` within the artifact content, refused when
    /// it does not lie within `content_len` bytes or overflows.
    pub fn segment_range(&self, segment: &ArtifactSegment, content_len: usize) -> (r: Result<(usize, usize), PersistenceError>)
        ensures
            ({
                let start = segment.sequence as nat * self.spec_policy().segment_bytes as nat;
                let end = start + segment.stored_bytes;
                if start > usize::MAX || end > usize::MAX || end > content_len {
                    r == Err::<(usize, usize), PersistenceError>(PersistenceError::ArtifactMetadataCorrupt)
                } else {
                    r == Ok::<(usize, usize), PersistenceError>((start as usize, end as usize))
                }
            }),
    {
        let sequence = segment.sequence as usize;
        let start = match sequence.checked_mul(self.policy.segment_bytes) {
            Some(start) => start,
            None => return Err(PersistenceError::ArtifactMetadataCorrupt),
        };
        let end = match start.checked_add(segment.stored_bytes) {
            Some(end) => end,
            None => return Err(PersistenceError::ArtifactMetadataCorrupt),
        };
        if end > content_len {
            return Err(PersistenceError::ArtifactMetadataCorrupt);
        }
        Ok((start, end))
    }

    /// The artifacts that retention removes at `now_unix_ms`, of those
    /// listed: the complete ones whose expiry has come, in the order listed.
    pub fn prune_expired(&self, artifacts: &[RunArtifact], now_unix_ms: i64) -> (ids: Vec<u128>)
        ensures
            ids@ == expired_ids(artifacts@, now_unix_ms),
    {
        let mut ids: Vec<u128> = Vec::new();
        let mut i: usize = 0;
        while i < artifacts.len()
            invariant
                i <= artifacts@.len(),
                ids@ == expired_ids(artifacts@.take(i as int), now_unix_ms),
            decreases artifacts.len() - i,
        {
            proof {
                assert(artifacts@.take(i + 1).drop_last() =~= artifacts@.take(i as int));
            }
            let artifact = &artifacts[i];
            if artifact.state == ArtifactState::Complete && artifact.expires_at_unix_ms <= now_unix_ms {
                ids.push(artifact.id);
            }
            i = i + 1;
        }
        assert(artifacts@.take(artifacts@.len() as int) =~= artifacts@);
        ids
    }

    /// The artifacts that deleting a run's artifacts removes, of those
    /// listed: every one of that run, whatever its state, in the order listed.
    pub fn delete_run_artifacts(&self, artifacts: &[RunArtifact], run_id: u128) -> (ids: Vec<u128>)
        ensures
            ids@ == run_artifact_ids(artifacts@, run_id),
    {
        let mut ids: Vec<u128> = Vec::new();
        let mut i: usize = 0;
        while i < artifacts.len()
            invariant
                i <= artifacts@.len(),
                ids@ == run_artifact_ids(artifacts@.take(i as int), run_id),
            decreases artifacts.len() - i,
        {
            proof {
                assert(artifacts@.take(i + 1).drop_last() =~= artifacts@.take(i as int));
            }
            if artifacts[i].run_id == run_id {
                ids.push(artifacts[i].id);
            }
            i = i + 1;
        }
        assert(artifacts@.take(artifacts@.len() as int) =~= artifacts@);
        ids
    }

    /// The artifacts that restart recovery removes: those still being
    /// written or deleted, in the order listed.
    pub fn recover_incomplete(&self, manifests: &[(u128, ArtifactState)]) -> (ids: Vec<u128>)
        ensures
            ids@ == incomplete_ids(manifests@),
    {
        let mut ids: Vec<u128> = Vec::new();
        let mut i: usize = 0;
        while i < manifests.len()
            invariant
                i <= manifests@.len(),
                ids@ == incomplete_ids(manifests@.take(i as int)),
            decreases manifests.len() - i,
        {
            let (id, state) = manifests[i];
            proof {
                assert(manifests@.take(i + 1).drop_last() =~= manifests@.take(i as int));
            }
            if state != ArtifactState::Complete {
                ids.push(id);
            }
            i = i + 1;
        }
        assert(manifests@.take(manifests@.len() as int) =~= manifests@);
        ids
    }
}

/// The bytes read for each segment.
pub open spec fn content_views(contents: Seq<Vec<u8>>) -> Seq<Seq<u8>> {
    contents.map_values(|c: Vec<u8>| c@)
}

/// All segment bytes, in order.
pub open spec fn concat_all(parts: Seq<Seq<u8>>) -> Seq<u8>
    decreases parts.len(),
{
    if parts.len() == 0 { seq![] } else { concat_all(parts.drop_last()) + parts.last() }
}

/// Reads the segments in order from `i` with `total` bytes already read:
/// each segment's bytes must have its recorded length and digest, and the
/// running total must fit a `usize`. Gives the final total.
pub open spec fn scan_segments(
    segs: Seq<(nat, nat, Seq<char>)>,
    data: Seq<Seq<u8>>,
    i: int,
    total: nat,
) -> Result<nat, PersistenceError>
    decreases segs.len() - i,
{
    if i < 0 || i >= segs.len() {
        Ok(total)
    } else if data[i].len() != segs[i].1 {
        Err(PersistenceError::ArtifactIntegrityMismatch)
    } else if total + segs[i].1 > usize::MAX {
        Err(PersistenceError::ArtifactMetadataCorrupt)
    } else if digest_text(data[i]) != segs[i].2 {
        Err(PersistenceError::ArtifactIntegrityMismatch)
    } else {
        scan_segments(segs, data, i + 1, total + segs[i].1)
    }
}

/// Index of the last segment with the given sequence number.
pub open spec fn last_with_sequence(segs: Seq<(nat, nat, Seq<char>)>, sequence: nat) -> Option<usize>
    decreases segs.len(),
{
    if segs.len() == 0 {
        None
    } else if segs.last().0 == sequence {
        Some((segs.len() - 1) as usize)
    } else {
        last_with_sequence(segs.drop_last(), sequence)
    }
}

proof fn lemma_last_with_sequence_in_bounds(segs: Seq<(nat, nat, Seq<char>)>, sequence: nat)
    ensures
        last_with_sequence(segs, sequence) matches Some(i) ==> i < segs.len(),
    decreases segs.len(),
{
    if segs.len() > 0 {
        lemma_last_with_sequence_in_bounds(segs.drop_last(), sequence);
    }
}

/// Ids of the listed artifacts that are complete and expired at `now`, in order.
pub open spec fn expired_ids(artifacts: Seq<RunArtifact>, now: i64) -> Seq<u128>
    decreases artifacts.len(),
{
    if artifacts.len() == 0 {
        seq![]
    } else {
        let rest = expired_ids(artifacts.drop_last(), now);
        let a = artifacts.last();
        if a.state == ArtifactState::Complete && a.expires_at_unix_ms <= now { rest.push(a.id) } else { rest }
    }
}

/// Ids of the listed artifacts of run `run_id`, in order.
pub open spec fn run_artifact_ids(artifacts: Seq<RunArtifact>, run_id: u128) -> Seq<u128>
    decreases artifacts.len(),
{
    if artifacts.len() == 0 {
        seq![]
    } else {
        let rest = run_artifact_ids(artifacts.drop_last(), run_id);
        if artifacts.last().run_id == run_id { rest.push(artifacts.last().id) } else { rest }
    }
}

/// Ids of the listed manifests that are not complete, in order.
pub open spec fn incomplete_ids(manifests: Seq<(u128, ArtifactState)>) -> Seq<u128>
    decreases manifests.len(),
{
    if manifests.len() == 0 {
        seq![]
    } else {
        let rest = incomplete_ids(manifests.drop_last());
        if manifests.last().1 != ArtifactState::Complete { rest.push(manifests.last().0) } else { rest }
    }
}

/// Reads a stored byte total, refusing one that is negative or does not
/// fit in memory.
pub fn stored_usage_bytes(sum: i64) -> (r: Result<usize, PersistenceError>)
    ensures
        r == if 0 <= sum && sum <= usize::MAX {
            Ok::<usize, PersistenceError>(sum as usize)
        } else {
            Err(PersistenceError::ArtifactMetadataCorrupt)
        },
{
    if sum < 0 || sum as u64 > usize::MAX as u64 {
        return Err(PersistenceError::ArtifactMetadataCorrupt);
    }
    Ok(sum as usize)
}

/// A segment file may be read only when it is a regular file (not a
/// symbolic link) of exactly the stored length.
pub fn segment_file_matches(is_symlink: bool, is_file: bool, len: u64, expected_bytes: usize) -> (r: bool)
    ensures
        r == (!is_symlink && is_file && len == expected_bytes),
{
    !is_symlink && is_file && len == expected_bytes as u64
}

/// The pieces `content` is stored in: chunks of `n` bytes, the last one
/// possibly shorter.
pub open spec fn chunks(content: Seq<u8>, n: nat) -> Seq<Seq<u8>>
    decreases content.len(),
{
    if content.len() == 0 || n == 0 {
        seq![]
    } else {
        let k = if content.len() < n { content.len() } else { n };
        seq![content.take(k as int)] + chunks(content.skip(k as int), n)
    }
}

/// Bytes in the pieces from index `i` on.
pub open spec fn tail_len(data: Seq<Seq<u8>>, i: int) -> nat
    decreases data.len() - i,
{
    if i < 0 || i >= data.len() {
        0
    } else {
        data[i].len() + tail_len(data, i + 1)
    }
}

proof fn lemma_chunks_describe_segments(content: Seq<u8>, n: nat, first: nat)
    requires
        n > 0,
    ensures
        expected_segments(content, n, first).len() == chunks(content, n).len(),
        forall|i: int| 0 <= i < chunks(content, n).len() ==> #[trigger] expected_segments(content, n, first)[i] == (
            (first + i) as nat,
            chunks(content, n)[i].len(),
            digest_text(chunks(content, n)[i]),
        ),
    decreases content.len(),
{
    if content.len() > 0 {
        let k = if content.len() < n { content.len() } else { n };
        lemma_chunks_describe_segments(content.skip(k as int), n, first + 1);
        let rest = chunks(content.skip(k as int), n);
        let segs = expected_segments(content, n, first);
        assert forall|i: int| 0 <= i < chunks(content, n).len() implies #[trigger] segs[i] == (
            (first + i) as nat,
            chunks(content, n)[i].len(),
            digest_text(chunks(content, n)[i]),
        ) by {
            if i > 0 {
                assert(segs[i] == expected_segments(content.skip(k as int), n, first + 1)[i - 1]);
                assert(chunks(content, n)[i] == rest[i - 1]);
            }
        }
    }
}

proof fn lemma_tail_len_shift(a: Seq<u8>, rest: Seq<Seq<u8>>, i: int)
    requires
        0 <= i,
    ensures
        tail_len(seq![a] + rest, i + 1) == tail_len(rest, i),
    decreases rest.len() - i,
{
    if i < rest.len() {
        lemma_tail_len_shift(a, rest, i + 1);
        assert((seq![a] + rest)[i + 1] == rest[i]);
    }
}

proof fn lemma_concat_front(a: Seq<u8>, rest: Seq<Seq<u8>>)
    ensures
        concat_all(seq![a] + rest) == a + concat_all(rest),
    decreases rest.len(),
{
    if rest.len() == 0 {
        assert(seq![a] + rest =~= seq![a]);
        assert(seq![a].drop_last() =~= Seq::<Seq<u8>>::empty());
        assert(concat_all(Seq::<Seq<u8>>::empty()) + a =~= a + concat_all(rest));
    } else {
        lemma_concat_front(a, rest.drop_last());
        assert((seq![a] + rest).drop_last() =~= seq![a] + rest.drop_last());
        assert((seq![a] + rest).last() == rest.last());
        assert(a + concat_all(rest.drop_last()) + rest.last() =~= a + (concat_all(rest.drop_last()) + rest.last()));
    }
}

proof fn lemma_chunks_cover(content: Seq<u8>, n: nat)
    requires
        n > 0,
    ensures
        concat_all(chunks(content, n)) == content,
        tail_len(chunks(content, n), 0) == content.len(),
    decreases content.len(),
{
    if content.len() == 0 {
        assert(concat_all(chunks(content, n)) =~= content);
    } else {
        let k = if content.len() < n { content.len() } else { n };
        let rest = chunks(content.skip(k as int), n);
        lemma_chunks_cover(content.skip(k as int), n);
        lemma_concat_front(content.take(k as int), rest);
        assert(content.take(k as int) + content.skip(k as int) =~= content);
        lemma_tail_len_shift(content.take(k as int), rest, 0);
        assert((seq![content.take(k as int)] + rest)[0] == content.take(k as int));
    }
}

proof fn lemma_scan_accepts(segs: Seq<(nat, nat, Seq<char>)>, data: Seq<Seq<u8>>, i: int, total: nat)
    requires
        0 <= i,
        segs.len() == data.len(),
        forall|j: int| i <= j < data.len() ==> #[trigger] segs[j].1 == data[j].len() && segs[j].2 == digest_text(data[j]),
        total + tail_len(data, i) <= usize::MAX,
    ensures
        scan_segments(segs, data, i, total) == Ok::<nat, PersistenceError>(total + tail_len(data, i)),
    decreases data.len() - i,
{
    if i < data.len() {
        assert(segs[i].1 == data[i].len() && segs[i].2 == digest_text(data[i]));
        lemma_scan_accepts(segs, data, i + 1, total + segs[i].1);
    }
}

proof fn lemma_sequences_are_positions(segs: Seq<(nat, nat, Seq<char>)>, k: nat)
    requires
        forall|i: int| 0 <= i < segs.len() ==> (#[trigger] segs[i]).0 == i,
    ensures
        k < segs.len() ==> last_with_sequence(segs, k) == Some(k as usize),
    decreases segs.len(),
{
    if segs.len() > 0 && k < segs.len() {
        assert(segs.last() == segs[segs.len() - 1]);
        if segs.last().0 != k {
            let p = segs.drop_last();
            assert forall|i: int| 0 <= i < p.len() implies (#[trigger] p[i]).0 == i by {
                assert(p[i] == segs[i]);
            }
            lemma_sequences_are_positions(p, k);
        }
    }
}

/// What is written is what a verified read gives back: when the segment
/// files of an artifact hold the chunks of the content its manifest was
/// planned from, every segment passes its length and digest check, the
/// total and whole digest agree with the manifest, and segment `k` is the
/// `k`-th chunk.
pub proof fn lemma_written_artifact_reads_back(
    a: RunArtifact,
    content: Seq<u8>,
    segment_bytes: nat,
    files: Seq<Seq<u8>>,
    k: nat,
)
    requires
        segment_bytes > 0,
        segment_views(a.segments@) == expected_segments(content, segment_bytes, 0),
        a.stored_bytes == content.len(),
        a.sha256@ == digest_text(content),
        files == chunks(content, segment_bytes),
    ensures
        scan_segments(segment_views(a.segments@), files, 0, 0) == Ok::<nat, PersistenceError>(a.stored_bytes as nat),
        digest_text(concat_all(files)) == a.sha256@,
        k < files.len() ==> last_with_sequence(segment_views(a.segments@), k) == Some(k as usize),
{
    let segs = segment_views(a.segments@);
    lemma_chunks_describe_segments(content, segment_bytes, 0);
    lemma_chunks_cover(content, segment_bytes);
    assert forall|j: int| 0 <= j < files.len() implies #[trigger] segs[j].1 == files[j].len() && segs[j].2 == digest_text(files[j]) by {
        assert(segs[j] == expected_segments(content, segment_bytes, 0)[j]);
    }
    lemma_scan_accepts(segs, files, 0, 0);
    assert forall|i: int| 0 <= i < segs.len() implies (#[trigger] segs[i]).0 == i by {
        assert(segs[i] == expected_segments(content, segment_bytes, 0)[i]);
    }
    lemma_sequences_are_positions(segs, k);
}

/// Sum of a sequence of byte counts.
pub open spec fn sum_bytes(counts: Seq<nat>) -> nat
    decreases counts.len(),
{
    if counts.len() == 0 { 0 } else { sum_bytes(counts.drop_last()) + counts.last() }
}

/// Quotas hold across a whole capture: when usage starts within both
/// limits and each captured stream stores no more than the capacity left
/// after the streams before it, the global and the run's usage stay within
/// their limits.
pub proof fn lemma_capture_keeps_quotas(policy: ArtifactPolicy, total_used: nat, run_used: nat, stored: Seq<nat>)
    requires
        total_used <= policy.total_bytes,
        run_used <= policy.per_run_bytes,
        forall|k: int| 0 <= k < stored.len() ==> #[trigger] stored[k] <= capacity(policy,
            total_used + sum_bytes(stored.take(k)), run_used + sum_bytes(stored.take(k))),
    ensures
        total_used + sum_bytes(stored) <= policy.total_bytes,
        run_used + sum_bytes(stored) <= policy.per_run_bytes,
    decreases stored.len(),
{
    if stored.len() > 0 {
        let p = stored.drop_last();
        assert forall|k: int| 0 <= k < p.len() implies #[trigger] p[k] <= capacity(policy,
            total_used + sum_bytes(p.take(k)), run_used + sum_bytes(p.take(k))) by {
            assert(p.take(k) =~= stored.take(k));
            assert(p[k] == stored[k]);
        }
        lemma_capture_keeps_quotas(policy, total_used, run_used, p);
        let k = stored.len() - 1;
        assert(stored.take(k) =~= p);
        assert(stored[k] == stored.last());
    }
}

/// The listed manifests without those whose id is in `removed`, in order.
pub open spec fn without_ids(manifests: Seq<(u128, ArtifactState)>, removed: Seq<u128>) -> Seq<(u128, ArtifactState)>
    decreases manifests.len(),
{
    if manifests.len() == 0 {
        seq![]
    } else {
        let rest = without_ids(manifests.drop_last(), removed);
        if removed.contains(manifests.last().0) { rest } else { rest.push(manifests.last()) }
    }
}

/// The complete manifests of the list, in order.
pub open spec fn complete_only(manifests: Seq<(u128, ArtifactState)>) -> Seq<(u128, ArtifactState)>
    decreases manifests.len(),
{
    if manifests.len() == 0 {
        seq![]
    } else {
        let rest = complete_only(manifests.drop_last());
        if manifests.last().1 == ArtifactState::Complete { rest.push(manifests.last()) } else { rest }
    }
}

proof fn lemma_incomplete_ids_contains(manifests: Seq<(u128, ArtifactState)>, id: u128)
    ensures
        incomplete_ids(manifests).contains(id) <==> exists|k: int| 0 <= k < manifests.len()
            && (#[trigger] manifests[k]).0 == id && manifests[k].1 != ArtifactState::Complete,
    decreases manifests.len(),
{
    if manifests.len() > 0 {
        let p = manifests.drop_last();
        lemma_incomplete_ids_contains(p, id);
        let last = manifests.len() - 1;
        assert(manifests[last] == manifests.last());
        if incomplete_ids(manifests).contains(id) {
            if !incomplete_ids(p).contains(id) {
                let x = incomplete_ids(manifests).index_of(id);
                assert(incomplete_ids(manifests)[x] == id);
                assert(x == incomplete_ids(p).len() || incomplete_ids(p)[x] == id);
            } else {
                let k = choose|k: int| 0 <= k < p.len() && (#[trigger] p[k]).0 == id && p[k].1 != ArtifactState::Complete;
                assert(manifests[k] == p[k]);
            }
        }
        if exists|k: int| 0 <= k < manifests.len() && (#[trigger] manifests[k]).0 == id
            && manifests[k].1 != ArtifactState::Complete {
            let k = choose|k: int| 0 <= k < manifests.len() && (#[trigger] manifests[k]).0 == id
                && manifests[k].1 != ArtifactState::Complete;
            if k < last {
                assert(p[k] == manifests[k]);
                let x = incomplete_ids(p).index_of(id);
                assert(incomplete_ids(p)[x] == id);
                assert(incomplete_ids(manifests)[x] == id);
            } else {
                assert(incomplete_ids(manifests).last() == id);
                assert(incomplete_ids(manifests)[incomplete_ids(manifests).len() - 1] == id);
            }
        }
    }
}

proof fn lemma_removing_incomplete_keeps_complete(manifests: Seq<(u128, ArtifactState)>, removed: Seq<u128>)
    requires
        forall|k: int| 0 <= k < manifests.len() ==> (removed.contains((#[trigger] manifests[k]).0)
            <==> manifests[k].1 != ArtifactState::Complete),
    ensures
        without_ids(manifests, removed) == complete_only(manifests),
    decreases manifests.len(),
{
    if manifests.len() > 0 {
        let p = manifests.drop_last();
        assert forall|k: int| 0 <= k < p.len() implies (removed.contains((#[trigger] p[k]).0)
            <==> p[k].1 != ArtifactState::Complete) by {
            assert(p[k] == manifests[k]);
        }
        lemma_removing_incomplete_keeps_complete(p, removed);
        assert(manifests[manifests.len() - 1] == manifests.last());
    }
}

proof fn lemma_complete_only_has_no_incomplete(manifests: Seq<(u128, ArtifactState)>)
    ensures
        incomplete_ids(complete_only(manifests)) == Seq::<u128>::empty(),
    decreases manifests.len(),
{
    if manifests.len() > 0 {
        lemma_complete_only_has_no_incomplete(manifests.drop_last());
        let rest = complete_only(manifests.drop_last());
        if manifests.last().1 == ArtifactState::Complete {
            assert(rest.push(manifests.last()).drop_last() =~= rest);
        }
    }
}

/// After restart recovery removes the artifacts it lists, of manifests with
/// distinct ids, exactly the complete ones remain, unchanged and in order,
/// and a second recovery finds nothing to remove.
pub proof fn lemma_artifact_recovery_leaves_no_incomplete(manifests: Seq<(u128, ArtifactState)>)
    requires
        forall|i: int, j: int| 0 <= i < manifests.len() && 0 <= j < manifests.len() && i != j
            ==> (#[trigger] manifests[i]).0 != (#[trigger] manifests[j]).0,
    ensures
        without_ids(manifests, incomplete_ids(manifests)) == complete_only(manifests),
        incomplete_ids(without_ids(manifests, incomplete_ids(manifests))) == Seq::<u128>::empty(),
{
    let removed = incomplete_ids(manifests);
    assert forall|k: int| 0 <= k < manifests.len() implies (removed.contains((#[trigger] manifests[k]).0)
        <==> manifests[k].1 != ArtifactState::Complete) by {
        lemma_incomplete_ids_contains(manifests, manifests[k].0);
    }
    lemma_removing_incomplete_keeps_complete(manifests, removed);
    lemma_complete_only_has_no_incomplete(manifests);
}

} // verus!
