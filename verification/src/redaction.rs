//! Bounded secret redaction for captured process output.
//!
//! Every occurrence of a secret is replaced by a fixed marker, scanning left
//! to right and preferring the longest secret that matches at a position.
//! When the captured stream was cut short, a trailing fragment that could be
//! the start of a secret is replaced by the marker too, so that no prefix of
//! a secret survives the cut. The result never exceeds the byte budget.

use vstd::prelude::*;

verus! {

/// The bytes written in place of a secret: `[REDACTED]`.
pub open spec fn marker() -> Seq<u8> {
    seq![91u8, 82u8, 69u8, 68u8, 65u8, 67u8, 84u8, 69u8, 68u8, 93u8]
}

/// The secrets as byte sequences.
pub open spec fn secret_views(secrets: Seq<Vec<u8>>) -> Seq<Seq<u8>> {
    secrets.map_values(|v: Vec<u8>| v@)
}

/// `secret` occurs in `s` at `offset`.
pub open spec fn matches_at(s: Seq<u8>, offset: int, secret: Seq<u8>) -> bool {
    &&& 0 <= offset
    &&& offset + secret.len() <= s.len()
    &&& s.subrange(offset, offset + secret.len()) == secret
}

/// Length of the longest non-empty secret occurring in `s` at `offset`, or 0.
pub open spec fn longest_match(s: Seq<u8>, secrets: Seq<Seq<u8>>, offset: int) -> nat
    decreases secrets.len(),
{
    if secrets.len() == 0 {
        0
    } else {
        let rest = longest_match(s, secrets.drop_last(), offset);
        let candidate = secrets.last();
        if candidate.len() > 0 && matches_at(s, offset, candidate) && candidate.len() > rest {
            candidate.len()
        } else {
            rest
        }
    }
}

/// Number of input bytes consumed by the redaction step at `offset`.
pub open spec fn consumed(s: Seq<u8>, secrets: Seq<Seq<u8>>, offset: int) -> nat {
    let m = longest_match(s, secrets, offset);
    if m > 0 { m } else { 1 }
}

/// Bytes emitted by the redaction step at `offset`.
pub open spec fn piece(s: Seq<u8>, secrets: Seq<Seq<u8>>, offset: int) -> Seq<u8> {
    if longest_match(s, secrets, offset) > 0 { marker() } else { seq![s[offset]] }
}

/// Unbounded redaction of `s` from `offset` on.
pub open spec fn redact_from(s: Seq<u8>, secrets: Seq<Seq<u8>>, offset: int) -> Seq<u8>
    decreases s.len() - offset,
{
    if offset < 0 || offset >= s.len() {
        seq![]
    } else {
        proof {
            lemma_consumed_fits(s, secrets, offset);
        }
        piece(s, secrets, offset) + redact_from(s, secrets, offset + consumed(s, secrets, offset))
    }
}

/// Length of `redact_from(s, secrets, offset)` without its last step's bytes.
pub open spec fn head_len(s: Seq<u8>, secrets: Seq<Seq<u8>>, offset: int) -> nat
    decreases s.len() - offset,
{
    if offset < 0 || offset >= s.len() {
        0
    } else if offset + consumed(s, secrets, offset) >= s.len() {
        0
    } else {
        proof {
            lemma_consumed_fits(s, secrets, offset);
        }
        piece(s, secrets, offset).len() + head_len(s, secrets, offset + consumed(s, secrets, offset))
    }
}

/// `s` ends with the first `l` bytes of `secret`.
pub open spec fn ends_with_prefix(s: Seq<u8>, secret: Seq<u8>, l: int) -> bool {
    &&& 0 <= l <= s.len()
    &&& l <= secret.len()
    &&& s.subrange(s.len() - l, s.len() as int) == secret.subrange(0, l)
}

/// The longest `l` in `1..=bound` such that `s` ends with `secret[..l]`, or 0.
pub open spec fn trailing_prefix_upto(s: Seq<u8>, secret: Seq<u8>, bound: int) -> nat
    decreases bound,
{
    if bound <= 0 {
        0
    } else if ends_with_prefix(s, secret, bound) {
        bound as nat
    } else {
        trailing_prefix_upto(s, secret, bound - 1)
    }
}

/// The longest proper prefix of `secret` that `s` ends with, or 0.
pub open spec fn trailing_prefix(s: Seq<u8>, secret: Seq<u8>) -> nat {
    let bound = if secret.len() == 0 {
        0
    } else if s.len() < secret.len() - 1 {
        s.len() as int
    } else {
        secret.len() - 1
    };
    trailing_prefix_upto(s, secret, bound)
}

/// The longest proper secret prefix that `s` ends with, over all secrets, or 0.
pub open spec fn longest_trailing(s: Seq<u8>, secrets: Seq<Seq<u8>>) -> nat
    decreases secrets.len(),
{
    if secrets.len() == 0 {
        0
    } else {
        let rest = longest_trailing(s, secrets.drop_last());
        let candidate = trailing_prefix(s, secrets.last());
        if candidate > rest { candidate } else { rest }
    }
}

/// `s` cut to at most `n` bytes.
pub open spec fn take_at_most(s: Seq<u8>, n: nat) -> Seq<u8> {
    if s.len() <= n { s } else { s.take(n as int) }
}

/// Bytes of the input that are redacted as whole bytes: all of it, except a
/// trailing secret fragment when the input was truncated.
pub open spec fn complete_part(input: Seq<u8>, secrets: Seq<Seq<u8>>, truncated: bool) -> Seq<u8> {
    let trailing = if truncated { longest_trailing(input, secrets) } else { 0 };
    input.take(input.len() - trailing)
}

/// The full, unbounded redaction of a captured stream.
pub open spec fn redacted(input: Seq<u8>, secrets: Seq<Seq<u8>>, truncated: bool) -> Seq<u8> {
    let complete = complete_part(input, secrets, truncated);
    let tail = if truncated && longest_trailing(input, secrets) > 0 { marker() } else { seq![] };
    redact_from(complete, secrets, 0) + tail
}

/// Whether the bounded redaction reports that the budget cut it short.
pub open spec fn redaction_limited(
    input: Seq<u8>,
    secrets: Seq<Seq<u8>>,
    limit: nat,
    truncated: bool,
) -> bool {
    let complete = complete_part(input, secrets, truncated);
    let full = redact_from(complete, secrets, 0);
    if truncated && longest_trailing(input, secrets) > 0 {
        full.len() + marker().len() > limit && (complete.len() > 0 || limit > 0)
    } else {
        head_len(complete, secrets, 0) > 0 && head_len(complete, secrets, 0) >= limit
    }
}

fn redaction_marker() -> (m: Vec<u8>)
    ensures
        m@ == marker(),
{
    let mut m: Vec<u8> = Vec::new();
    m.push(91u8);
    m.push(82u8);
    m.push(69u8);
    m.push(68u8);
    m.push(65u8);
    m.push(67u8);
    m.push(84u8);
    m.push(69u8);
    m.push(68u8);
    m.push(93u8);
    assert(m@ =~= marker());
    m
}

/// Whether `secret` occurs in `input[..end]` at `offset`.
fn matches_within(input: &[u8], end: usize, offset: usize, secret: &[u8]) -> (r: bool)
    requires
        end <= input@.len(),
    ensures
        r == matches_at(input@.take(end as int), offset as int, secret@),
{
    if offset > end || secret.len() > end - offset {
        return false;
    }
    let mut i: usize = 0;
    while i < secret.len()
        invariant
            offset + secret@.len() <= end <= input@.len(),
            i <= secret@.len(),
            forall|j: int| 0 <= j < i ==> input@[offset + j] == secret@[j],
        decreases secret.len() - i,
    {
        if input[offset + i] != secret[i] {
            assert(input@.take(end as int).subrange(offset as int, offset + secret@.len())[i as int]
                != secret@[i as int]);
            return false;
        }
        i = i + 1;
    }
    assert(input@.take(end as int).subrange(offset as int, offset + secret@.len()) =~= secret@);
    true
}

/// Length of the longest non-empty secret occurring in `input[..end]` at `offset`.
fn longest_match_within(input: &[u8], end: usize, offset: usize, secrets: &[Vec<u8>]) -> (m: usize)
    requires
        end <= input@.len(),
    ensures
        m == longest_match(input@.take(end as int), secret_views(secrets@), offset as int),
        m <= end,
{
    let ghost s = input@.take(end as int);
    let ghost views = secret_views(secrets@);
    let mut best: usize = 0;
    let mut k: usize = 0;
    while k < secrets.len()
        invariant
            end <= input@.len(),
            s == input@.take(end as int),
            views == secret_views(secrets@),
            k <= secrets@.len(),
            best == longest_match(s, views.take(k as int), offset as int),
            best <= end,
        decreases secrets.len() - k,
    {
        let secret = secrets[k].as_slice();
        assert(views.take(k + 1).drop_last() =~= views.take(k as int));
        assert(views.take(k + 1).last() == secret@);
        if secret.len() > 0 && secret.len() > best && matches_within(input, end, offset, secret) {
            best = secret.len();
        }
        k = k + 1;
    }
    assert(views.take(secrets@.len() as int) =~= views);
    best
}

/// Whether `input` ends with the first `l` bytes of `secret`.
fn ends_with_prefix_exec(input: &[u8], secret: &[u8], l: usize) -> (r: bool)
    requires
        l <= input@.len(),
        l <= secret@.len(),
    ensures
        r == ends_with_prefix(input@, secret@, l as int),
{
    let n = input.len();
    let start = n - l;
    let mut i: usize = 0;
    while i < l
        invariant
            l <= input@.len(),
            l <= secret@.len(),
            start == input@.len() - l,
            start + l == n,
            n == input@.len(),
            i <= l,
            forall|j: int| 0 <= j < i ==> input@[start + j] == secret@[j],
        decreases l - i,
    {
        assert(start + i < input@.len());
        if input[start + i] != secret[i] {
            assert(input@.subrange(start as int, input@.len() as int)[i as int]
                != secret@.subrange(0, l as int)[i as int]);
            return false;
        }
        i = i + 1;
    }
    assert(input@.subrange(start as int, input@.len() as int) =~= secret@.subrange(0, l as int));
    true
}

/// Longest proper prefix of `secret` that `input` ends with, or 0.
fn trailing_prefix_exec(input: &[u8], secret: &[u8]) -> (l: usize)
    ensures
        l == trailing_prefix(input@, secret@),
        l <= input@.len(),
{
    if secret.len() == 0 {
        return 0;
    }
    let mut bound: usize = if input.len() < secret.len() - 1 {
        input.len()
    } else {
        secret.len() - 1
    };
    let ghost initial = bound as int;
    while bound > 0
        invariant
            bound <= input@.len(),
            bound < secret@.len(),
            secret@.len() > 0,
            initial == (if input@.len() < secret@.len() - 1 { input@.len() as int } else { secret@.len() - 1 }),
            trailing_prefix_upto(input@, secret@, initial) == trailing_prefix_upto(input@, secret@, bound as int),
        decreases bound,
    {
        if ends_with_prefix_exec(input, secret, bound) {
            return bound;
        }
        bound = bound - 1;
    }
    0
}

/// The longest proper secret prefix that ends the input, if any.
fn longest_trailing_secret_prefix(input: &[u8], secrets: &[Vec<u8>]) -> (r: Option<usize>)
    ensures
        r == (if longest_trailing(input@, secret_views(secrets@)) == 0 {
            None::<usize>
        } else {
            Some(longest_trailing(input@, secret_views(secrets@)) as usize)
        }),
        longest_trailing(input@, secret_views(secrets@)) <= input@.len(),
{
    let ghost views = secret_views(secrets@);
    let mut best: usize = 0;
    let mut k: usize = 0;
    while k < secrets.len()
        invariant
            views == secret_views(secrets@),
            k <= secrets@.len(),
            best == longest_trailing(input@, views.take(k as int)),
            best <= input@.len(),
        decreases secrets.len() - k,
    {
        assert(views.take(k + 1).drop_last() =~= views.take(k as int));
        assert(views.take(k + 1).last() == secrets@[k as int]@);
        let candidate = trailing_prefix_exec(input, secrets[k].as_slice());
        if candidate > best {
            best = candidate;
        }
        k = k + 1;
    }
    assert(views.take(secrets@.len() as int) =~= views);
    if best == 0 {
        None
    } else {
        Some(best)
    }
}

/// A redaction step never reads past the end of its input.
pub proof fn lemma_consumed_fits(s: Seq<u8>, secrets: Seq<Seq<u8>>, offset: int)
    requires
        0 <= offset < s.len(),
    ensures
        offset + consumed(s, secrets, offset) <= s.len(),
        consumed(s, secrets, offset) >= 1,
    decreases secrets.len(),
{
    if secrets.len() > 0 {
        lemma_consumed_fits(s, secrets.drop_last(), offset);
    }
}

/// Redacts `input` into at most `limit` bytes.
///
/// Returns the redacted bytes and whether the budget cut the redaction
/// short. Empty secrets are ignored; at each position the longest matching
/// secret is replaced by `[REDACTED]`. When `input_truncated` holds, a
/// trailing fragment that is a proper prefix of a secret is also replaced.
pub fn redact_bounded(
    input: &[u8],
    secrets: &[Vec<u8>],
    limit: usize,
    input_truncated: bool,
) -> (res: (Vec<u8>, bool))
    ensures
        res.0@ == take_at_most(redacted(input@, secret_views(secrets@), input_truncated), limit as nat),
        res.0@.len() <= limit,
        res.1 == redaction_limited(input@, secret_views(secrets@), limit as nat, input_truncated),
{
    let ghost views = secret_views(secrets@);
    let trailing: usize = if input_truncated {
        match longest_trailing_secret_prefix(input, secrets) {
            Some(length) => length,
            None => 0,
        }
    } else {
        0
    };
    let complete_len = input.len() - trailing;
    let ghost complete = input@.take(complete_len as int);
    assert(complete == complete_part(input@, views, input_truncated));
    let marker_bytes = redaction_marker();
    let mut output: Vec<u8> = Vec::new();
    let mut offset: usize = 0;
    let mut limited = false;
    let ghost mut produced: Seq<u8> = seq![];
    let ghost mut last_start: nat = 0;
    while offset < complete_len
        invariant_except_break
            offset <= complete_len,
            complete_len <= input@.len(),
            complete == input@.take(complete_len as int),
            marker_bytes@ == marker(),
            views == secret_views(secrets@),
            redact_from(complete, views, 0) == produced + redact_from(complete, views, offset as int),
            output@ == take_at_most(produced, limit as nat),
            offset < complete_len ==> head_len(complete, views, 0) == produced.len() + head_len(complete, views, offset as int),
            offset > 0 && offset < complete_len ==> produced.len() < limit,
            trailing > 0 && offset > 0 ==> produced.len() < limit,
            offset >= complete_len && offset > 0 ==> head_len(complete, views, 0) == last_start,
            offset >= complete_len && offset > 0 && last_start > 0 ==> last_start < limit,
            offset == 0 ==> produced.len() == 0,
            !limited,
        ensures
            offset <= complete_len,
            redact_from(complete, views, 0) == produced + redact_from(complete, views, offset as int),
            output@ == take_at_most(produced, limit as nat),
            limited ==> produced.len() >= limit && (offset < complete_len || trailing > 0),
            limited ==> offset > 0,
            limited ==> (offset < complete_len ==> head_len(complete, views, 0) >= limit && head_len(complete, views, 0) > 0),
            !limited ==> offset == complete_len,
            !limited && offset > 0 ==> head_len(complete, views, 0) == last_start,
            !limited && offset > 0 && last_start > 0 ==> last_start < limit,
            !limited && trailing > 0 && offset > 0 ==> produced.len() < limit,
            offset == 0 ==> produced.len() == 0,
        decreases complete_len - offset,
    {
        proof {
            lemma_consumed_fits(complete, views, offset as int);
        }
        let m = longest_match_within(input, complete_len, offset, secrets);
        let ghost before = produced;
        let ghost p = piece(complete, views, offset as int);
        let ghost c = consumed(complete, views, offset as int);
        let step: usize = if m > 0 { m } else { 1 };
        if m > 0 {
            let mut i: usize = 0;
            while i < marker_bytes.len()
                invariant
                    marker_bytes@ == marker(),
                    i <= marker_bytes@.len(),
                    output@ == take_at_most(before + marker().take(i as int), limit as nat),
                decreases marker_bytes.len() - i,
            {
                if output.len() < limit {
                    output.push(marker_bytes[i]);
                }
                proof {
                    assert(before + marker().take(i + 1) =~= (before + marker().take(i as int)).push(marker()[i as int]));
                }
                i = i + 1;
            }
            assert(marker().take(marker().len() as int) =~= marker());
        } else {
            if output.len() < limit {
                output.push(input[offset]);
            }
            proof {
                assert(complete[offset as int] == input@[offset as int]);
            }
        }
        proof {
            produced = before + p;
            assert(output@ =~= take_at_most(produced, limit as nat));
            assert(redact_from(complete, views, offset as int) == p + redact_from(complete, views, offset + c));
            assert(produced + redact_from(complete, views, offset + c) =~= before + (p + redact_from(complete, views, offset + c)));
            last_start = before.len();
        }
        offset = offset + step;
        if output.len() == limit && (offset < complete_len || trailing > 0) {
            limited = true;
            proof {
                if offset < complete_len {
                    assert(head_len(complete, views, (offset - step) as int) == p.len() + head_len(complete, views, offset as int));
                }
            }
            break;
        }
        proof {
            if offset < complete_len {
                assert(head_len(complete, views, (offset - step) as int) == p.len() + head_len(complete, views, offset as int));
            } else {
                assert(head_len(complete, views, (offset - step) as int) == 0);
            }
        }
    }
    proof {
        if !limited {
            assert(redact_from(complete, views, offset as int) =~= seq![]);
            assert(produced =~= redact_from(complete, views, 0));
        }
    }
    if trailing > 0 && output.len() < limit {
        let ghost before = output@;
        let remaining = limit - output.len();
        let mut i: usize = 0;
        while i < marker_bytes.len()
            invariant
                marker_bytes@ == marker(),
                i <= marker_bytes@.len(),
                output@ == take_at_most(before + marker().take(i as int), limit as nat),
            decreases marker_bytes.len() - i,
        {
            if output.len() < limit {
                output.push(marker_bytes[i]);
            }
            proof {
                assert(before + marker().take(i + 1) =~= (before + marker().take(i as int)).push(marker()[i as int]));
            }
            i = i + 1;
        }
        assert(marker().take(marker().len() as int) =~= marker());
        limited = limited || remaining < marker_bytes.len();
    }
    proof {
        let full = redact_from(complete, views, 0);
        let tail = if input_truncated && longest_trailing(input@, views) > 0 { marker() } else { seq![] };
        assert(trailing > 0 <==> (input_truncated && longest_trailing(input@, views) > 0));
        assert(redacted(input@, views, input_truncated) == full + tail);
        if complete_len == 0 {
            assert(head_len(complete, views, 0) == 0);
        }
        if produced.len() >= limit {
            assert((full + tail).take(limit as int) =~= produced.take(limit as int));
        }
        assert(output@ =~= take_at_most(full + tail, limit as nat));
    }
    (output, limited)
}

/// No non-empty secret occurs anywhere in `s`.
pub open spec fn free_of_secrets(s: Seq<u8>, secrets: Seq<Seq<u8>>) -> bool {
    forall|j: int, i: int| 0 <= j < secrets.len() && secrets[j].len() > 0 ==> !#[trigger] matches_at(s, i, secrets[j])
}

proof fn lemma_no_match(s: Seq<u8>, secrets: Seq<Seq<u8>>, offset: int)
    requires
        free_of_secrets(s, secrets),
    ensures
        longest_match(s, secrets, offset) == 0,
    decreases secrets.len(),
{
    if secrets.len() > 0 {
        let p = secrets.drop_last();
        assert forall|j: int, i: int| 0 <= j < p.len() && p[j].len() > 0 implies !#[trigger] matches_at(s, i, p[j]) by {
            assert(p[j] == secrets[j]);
        }
        lemma_no_match(s, p, offset);
        assert(secrets.last() == secrets[secrets.len() - 1]);
    }
}

proof fn lemma_redact_from_identity(s: Seq<u8>, secrets: Seq<Seq<u8>>, offset: int)
    requires
        free_of_secrets(s, secrets),
        0 <= offset <= s.len(),
    ensures
        redact_from(s, secrets, offset) == s.skip(offset),
    decreases s.len() - offset,
{
    if offset < s.len() {
        lemma_no_match(s, secrets, offset);
        lemma_redact_from_identity(s, secrets, offset + 1);
        assert(seq![s[offset]] + s.skip(offset + 1) =~= s.skip(offset));
    } else {
        assert(s.skip(offset) =~= Seq::<u8>::empty());
    }
}

/// Output in which no secret occurs, and that was not cut short, passes
/// through redaction unchanged.
pub proof fn lemma_redaction_keeps_secret_free_output(input: Seq<u8>, secrets: Seq<Seq<u8>>)
    requires
        free_of_secrets(input, secrets),
    ensures
        redacted(input, secrets, false) == input,
{
    assert(complete_part(input, secrets, false) =~= input);
    lemma_redact_from_identity(input, secrets, 0);
    assert(input.skip(0) =~= input);
    assert(redact_from(input, secrets, 0) + seq![] =~= input);
}

proof fn lemma_head_len_identity(s: Seq<u8>, secrets: Seq<Seq<u8>>, offset: int)
    requires
        free_of_secrets(s, secrets),
        0 <= offset,
    ensures
        head_len(s, secrets, offset) == if offset < s.len() { s.len() - offset - 1 } else { 0 },
    decreases s.len() - offset,
{
    if offset < s.len() {
        lemma_no_match(s, secrets, offset);
        lemma_head_len_identity(s, secrets, offset + 1);
    }
}

/// Output in which no secret occurs, and that was not cut short, comes out
/// of the bounded redaction as its first `limit` bytes, reported as cut
/// short exactly when it is longer than `limit`.
pub proof fn lemma_secret_free_output_is_clipped(input: Seq<u8>, secrets: Seq<Seq<u8>>, limit: nat)
    requires
        free_of_secrets(input, secrets),
        limit > 0,
    ensures
        take_at_most(redacted(input, secrets, false), limit) == take_at_most(input, limit),
        redaction_limited(input, secrets, limit, false) == (input.len() > limit),
{
    lemma_redaction_keeps_secret_free_output(input, secrets);
    assert(complete_part(input, secrets, false) =~= input);
    lemma_head_len_identity(input, secrets, 0);
}

/// The non-empty secrets, as a set.
pub open spec fn secret_set(secrets: Seq<Seq<u8>>) -> Set<Seq<u8>> {
    secrets.to_set().filter(|x: Seq<u8>| x.len() > 0)
}

proof fn lemma_longest_match_bounds(s: Seq<u8>, secrets: Seq<Seq<u8>>, offset: int)
    ensures
        forall|j: int| 0 <= j < secrets.len() && secrets[j].len() > 0 && matches_at(s, offset, secrets[j])
            ==> secrets[j].len() <= longest_match(s, secrets, offset),
        longest_match(s, secrets, offset) > 0 ==> exists|j: int| 0 <= j < secrets.len()
            && secrets[j].len() == longest_match(s, secrets, offset) && matches_at(s, offset, #[trigger] secrets[j]),
    decreases secrets.len(),
{
    if secrets.len() > 0 {
        let p = secrets.drop_last();
        lemma_longest_match_bounds(s, p, offset);
        assert forall|j: int| 0 <= j < p.len() implies p[j] == secrets[j] by {}
        if longest_match(s, secrets, offset) > 0 && longest_match(s, secrets, offset) != longest_match(s, p, offset) {
            assert(secrets[secrets.len() - 1] == secrets.last());
        }
        if longest_match(s, p, offset) > 0 {
            let j = choose|j: int| 0 <= j < p.len() && p[j].len() == longest_match(s, p, offset)
                && matches_at(s, offset, #[trigger] p[j]);
            assert(secrets[j] == p[j]);
        }
    }
}

proof fn lemma_longest_match_by_set(s: Seq<u8>, a: Seq<Seq<u8>>, b: Seq<Seq<u8>>, offset: int)
    requires
        secret_set(a) == secret_set(b),
    ensures
        longest_match(s, a, offset) == longest_match(s, b, offset),
{
    lemma_longest_match_bounds(s, a, offset);
    lemma_longest_match_bounds(s, b, offset);
    if longest_match(s, a, offset) > 0 {
        let j = choose|j: int| 0 <= j < a.len() && a[j].len() == longest_match(s, a, offset)
            && matches_at(s, offset, #[trigger] a[j]);
        assert(a.contains(a[j]));
        assert(secret_set(a).contains(a[j]));
        assert(b.contains(a[j]));
        let k = choose|k: int| 0 <= k < b.len() && b[k] == a[j];
        assert(b[k].len() <= longest_match(s, b, offset));
    }
    if longest_match(s, b, offset) > 0 {
        let j = choose|j: int| 0 <= j < b.len() && b[j].len() == longest_match(s, b, offset)
            && matches_at(s, offset, #[trigger] b[j]);
        assert(b.contains(b[j]));
        assert(secret_set(b).contains(b[j]));
        assert(a.contains(b[j]));
        let k = choose|k: int| 0 <= k < a.len() && a[k] == b[j];
        assert(a[k].len() <= longest_match(s, a, offset));
    }
}

proof fn lemma_longest_trailing_bounds(s: Seq<u8>, secrets: Seq<Seq<u8>>)
    ensures
        forall|j: int| 0 <= j < secrets.len() ==> trailing_prefix(s, #[trigger] secrets[j]) <= longest_trailing(s, secrets),
        longest_trailing(s, secrets) > 0 ==> exists|j: int| 0 <= j < secrets.len()
            && trailing_prefix(s, #[trigger] secrets[j]) == longest_trailing(s, secrets),
    decreases secrets.len(),
{
    if secrets.len() > 0 {
        let p = secrets.drop_last();
        lemma_longest_trailing_bounds(s, p);
        assert forall|j: int| 0 <= j < p.len() implies p[j] == secrets[j] by {}
        assert(secrets[secrets.len() - 1] == secrets.last());
        if longest_trailing(s, p) > 0 {
            let j = choose|j: int| 0 <= j < p.len() && trailing_prefix(s, #[trigger] p[j]) == longest_trailing(s, p);
            assert(secrets[j] == p[j]);
        }
    }
}

proof fn lemma_longest_trailing_by_set(s: Seq<u8>, a: Seq<Seq<u8>>, b: Seq<Seq<u8>>)
    requires
        secret_set(a) == secret_set(b),
    ensures
        longest_trailing(s, a) == longest_trailing(s, b),
{
    lemma_longest_trailing_bounds(s, a);
    lemma_longest_trailing_bounds(s, b);
    if longest_trailing(s, a) > 0 {
        let j = choose|j: int| 0 <= j < a.len() && trailing_prefix(s, #[trigger] a[j]) == longest_trailing(s, a);
        assert(a[j].len() > 0);
        assert(a.contains(a[j]));
        assert(secret_set(a).contains(a[j]));
        assert(b.contains(a[j]));
        let k = choose|k: int| 0 <= k < b.len() && b[k] == a[j];
        assert(trailing_prefix(s, b[k]) <= longest_trailing(s, b));
    }
    if longest_trailing(s, b) > 0 {
        let j = choose|j: int| 0 <= j < b.len() && trailing_prefix(s, #[trigger] b[j]) == longest_trailing(s, b);
        assert(b[j].len() > 0);
        assert(b.contains(b[j]));
        assert(secret_set(b).contains(b[j]));
        assert(a.contains(b[j]));
        let k = choose|k: int| 0 <= k < a.len() && a[k] == b[j];
        assert(trailing_prefix(s, a[k]) <= longest_trailing(s, a));
    }
}

proof fn lemma_redact_from_by_set(s: Seq<u8>, a: Seq<Seq<u8>>, b: Seq<Seq<u8>>, offset: int)
    requires
        secret_set(a) == secret_set(b),
    ensures
        redact_from(s, a, offset) == redact_from(s, b, offset),
        head_len(s, a, offset) == head_len(s, b, offset),
    decreases s.len() - offset,
{
    if 0 <= offset < s.len() {
        lemma_longest_match_by_set(s, a, b, offset);
        lemma_consumed_fits(s, a, offset);
        lemma_redact_from_by_set(s, a, b, offset + consumed(s, a, offset));
    }
}

/// Redaction depends only on which non-empty secrets there are: not on
/// their order, on repeated entries, or on empty ones.
pub proof fn lemma_redaction_depends_on_secret_set(
    input: Seq<u8>,
    a: Seq<Seq<u8>>,
    b: Seq<Seq<u8>>,
    limit: nat,
    truncated: bool,
)
    requires
        secret_set(a) == secret_set(b),
    ensures
        redacted(input, a, truncated) == redacted(input, b, truncated),
        redaction_limited(input, a, limit, truncated) == redaction_limited(input, b, limit, truncated),
{
    lemma_longest_trailing_by_set(input, a, b);
    let complete = complete_part(input, a, truncated);
    assert(complete == complete_part(input, b, truncated));
    lemma_redact_from_by_set(complete, a, b, 0);
}

} // verus!
