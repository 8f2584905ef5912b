//! Fiat-Shamir binding through the `merlin` transcript.
//!
//! The transcript is an append-only, order-sensitive accumulator; its state
//! after an append and the bytes of a challenge are named functions of the
//! previous state, so every derived challenge is a deterministic function
//! of everything transcribed before it. `transcribe_points_and_evals`
//! fixes the binding order: the two counts, then every point, then every
//! evaluation vector in polynomial order, each scalar in its fixed-width
//! canonical encoding.
use vstd::prelude::*;

use crate::arith::{fr_bytes_of, fr_from_be_bytes, fr_of_be_bytes, fr_to_bytes, Scalar};
use crate::poly::{rows_view, spec_rows_ok};
use crate::Error;

verus! {

#[verifier::external_type_specification]
#[verifier::external_body]
pub struct ExTranscript(merlin::Transcript);

/// The number of bytes of the canonical scalar encoding.
pub const FIELD_SIZE_BYTES: usize = 32;

pub uninterp spec fn tr_append_of(t: merlin::Transcript, msg: Seq<u8>) -> merlin::Transcript;

pub uninterp spec fn tr_challenge_of(t: merlin::Transcript, n: nat) -> Seq<u8>;

pub uninterp spec fn tr_after_challenge_of(t: merlin::Transcript, n: nat) -> merlin::Transcript;

/// Relies on `merlin::Transcript::append_message` (under the fixed label
/// this library uses for all protocol messages; merlin frames every
/// message, so distinct append sequences stay distinct): the new state is
/// a function of the old state and the appended bytes. Merlin's length
/// encoder asserts that a message fits in a `u32`, so longer messages are
/// excluded.
#[verifier::external_body]
pub fn transcript_append(t: &mut merlin::Transcript, msg: &Vec<u8>)
    requires
        msg@.len() <= 0xFFFF_FFFF,
    ensures
        *final(t) == tr_append_of(*old(t), msg@),
{
    t.append_message(b"pmp", msg.as_slice());
}

/// Relies on `merlin::Transcript::challenge_bytes` (under the fixed
/// challenge label of this library): the `n` bytes read and the state left
/// behind are functions of the state challenged from. Merlin's length
/// encoder asserts that a width fits in a `u32`, so wider requests are
/// excluded.
#[verifier::external_body]
pub fn transcript_challenge(t: &mut merlin::Transcript, n: usize) -> (r: Vec<u8>)
    requires
        n <= 0xFFFF_FFFF,
    ensures
        r@ == tr_challenge_of(*old(t), n as nat),
        r@.len() == n,
        *final(t) == tr_after_challenge_of(*old(t), n as nat),
{
    let mut buf = vec![0u8; n];
    t.challenge_bytes(b"open gamma", &mut buf);
    buf
}

/// The big-endian bytes of a length, fixing the width of the two counts
/// that open every transcription.
pub open spec fn spec_u64_be(n: u64) -> Seq<u8> {
    seq![
        ((n >> 56) & 0xff) as u8,
        ((n >> 48) & 0xff) as u8,
        ((n >> 40) & 0xff) as u8,
        ((n >> 32) & 0xff) as u8,
        ((n >> 24) & 0xff) as u8,
        ((n >> 16) & 0xff) as u8,
        ((n >> 8) & 0xff) as u8,
        (n & 0xff) as u8,
    ]
}

fn u64_to_be_bytes(n: u64) -> (r: Vec<u8>)
    ensures
        r@ == spec_u64_be(n),
{
    assert((n >> 56) & 0xff < 256 && (n >> 48) & 0xff < 256 && (n >> 40) & 0xff < 256 && (n >> 32)
        & 0xff < 256 && (n >> 24) & 0xff < 256 && (n >> 16) & 0xff < 256 && (n >> 8) & 0xff < 256
        && n & 0xff < 256) by (bit_vector);
    let mut out: Vec<u8> = Vec::new();
    out.push(((n >> 56) & 0xff) as u8);
    out.push(((n >> 48) & 0xff) as u8);
    out.push(((n >> 40) & 0xff) as u8);
    out.push(((n >> 32) & 0xff) as u8);
    out.push(((n >> 24) & 0xff) as u8);
    out.push(((n >> 16) & 0xff) as u8);
    out.push(((n >> 8) & 0xff) as u8);
    out.push((n & 0xff) as u8);
    assert(out@ =~= spec_u64_be(n));
    out
}

/// The transcript state after appending every scalar of `s`, in order.
pub open spec fn spec_append_scalars(t: merlin::Transcript, s: Seq<Scalar>) -> merlin::Transcript
    decreases s.len(),
{
    if s.len() == 0 {
        t
    } else {
        tr_append_of(spec_append_scalars(t, s.drop_last()), fr_bytes_of(s.last()))
    }
}

/// The transcript state after appending every row of `rows`, in order.
pub open spec fn spec_append_rows(t: merlin::Transcript, rows: Seq<Seq<Scalar>>) -> merlin::Transcript
    decreases rows.len(),
{
    if rows.len() == 0 {
        t
    } else {
        spec_append_scalars(spec_append_rows(t, rows.drop_last()), rows.last())
    }
}

/// The transcript state after the full fixed transcription order: the two
/// counts, the points, then each evaluation vector.
pub open spec fn spec_transcribe(
    t: merlin::Transcript,
    points: Seq<Scalar>,
    rows: Seq<Seq<Scalar>>,
) -> merlin::Transcript {
    spec_append_rows(
        spec_append_scalars(
            tr_append_of(
                tr_append_of(t, spec_u64_be(points.len() as u64)),
                spec_u64_be(rows.len() as u64),
            ),
            points,
        ),
        rows,
    )
}

/// The challenge scalar derived from a transcript state: a wide (48-byte)
/// challenge reduced modulo the field order.
pub open spec fn spec_challenge_scalar(t: merlin::Transcript) -> Scalar {
    fr_of_be_bytes(tr_challenge_of(t, (FIELD_SIZE_BYTES + 16) as nat))
}

/// The transcript state left behind by deriving one challenge scalar.
pub open spec fn spec_after_challenge(t: merlin::Transcript) -> merlin::Transcript {
    tr_after_challenge_of(t, (FIELD_SIZE_BYTES + 16) as nat)
}

fn append_scalars(t: &mut merlin::Transcript, s: &Vec<Scalar>)
    ensures
        *final(t) == spec_append_scalars(*old(t), s@),
{
    let mut i: usize = 0;
    while i < s.len()
        invariant
            i <= s@.len(),
            *t == spec_append_scalars(*old(t), s@.take(i as int)),
        decreases s@.len() - i,
    {
        let bytes = fr_to_bytes(s[i].clone());
        transcript_append(t, &bytes);
        assert(s@.take(i + 1).drop_last() =~= s@.take(i as int));
        i = i + 1;
    }
    assert(s@.take(s@.len() as int) =~= s@);
}

/// Appends, in a fixed deterministic order, the counts, the points, and
/// every evaluation vector; errs, leaving the transcript untouched, when
/// no points are given or some evaluation vector's length differs from the
/// number of points.
pub fn transcribe_points_and_evals(
    t: &mut merlin::Transcript,
    points: &Vec<Scalar>,
    evals: &Vec<Vec<Scalar>>,
) -> (r: Result<(), Error>)
    ensures
        r is Ok <==> points@.len() >= 1 && spec_rows_ok(rows_view(evals@), points@),
        r is Err ==> *final(t) == *old(t),
        points@.len() == 0 ==> r == Err::<(), Error>(Error::EmptyInput),
        r is Err && points@.len() >= 1 ==> r == Err::<(), Error>(Error::SizeMismatch),
        r is Ok ==> *final(t) == spec_transcribe(*old(t), points@, rows_view(evals@)),
{
    if points.len() == 0 {
        return Err(Error::EmptyInput);
    }
    let mut i: usize = 0;
    while i < evals.len()
        invariant
            i <= evals@.len(),
            points@.len() >= 1,
            forall|j: int| 0 <= j < i ==> evals@[j]@.len() == points@.len(),
        decreases evals@.len() - i,
    {
        if evals[i].len() != points.len() {
            proof {
                assert(rows_view(evals@)[i as int] == evals@[i as int]@);
                assert(!spec_rows_ok(rows_view(evals@), points@));
            }
            return Err(Error::SizeMismatch);
        }
        i = i + 1;
    }
    proof {
        assert forall|j: int| 0 <= j < rows_view(evals@).len() implies (#[trigger] rows_view(
            evals@,
        )[j]).len() == points@.len() by {
            assert(rows_view(evals@)[j] == evals@[j]@);
        }
        assert(spec_rows_ok(rows_view(evals@), points@));
    }
    let n_points = u64_to_be_bytes(points.len() as u64);
    transcript_append(t, &n_points);
    let n_rows = u64_to_be_bytes(evals.len() as u64);
    transcript_append(t, &n_rows);
    append_scalars(t, points);
    let ghost t_mid = *t;
    let mut i: usize = 0;
    while i < evals.len()
        invariant
            i <= evals@.len(),
            *t == spec_append_rows(t_mid, rows_view(evals@).take(i as int)),
        decreases evals@.len() - i,
    {
        append_scalars(t, &evals[i]);
        assert(rows_view(evals@).take(i + 1).drop_last() =~= rows_view(evals@).take(i as int));
        assert(rows_view(evals@).take(i + 1).last() == evals@[i as int]@);
        i = i + 1;
    }
    assert(rows_view(evals@).take(evals@.len() as int) =~= rows_view(evals@));
    Ok(())
}

/// Derives the challenge scalar from the transcript: a wide challenge
/// reduced modulo the field order, deterministic in the transcript state.
pub fn get_challenge(t: &mut merlin::Transcript) -> (r: Scalar)
    ensures
        r == spec_challenge_scalar(*old(t)),
        *final(t) == spec_after_challenge(*old(t)),
{
    let buf = transcript_challenge(t, FIELD_SIZE_BYTES + 16);
    fr_from_be_bytes(&buf)
}

} // verus!
