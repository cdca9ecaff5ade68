//! The Fiat-Shamir transcript from which prover and verifier draw their
//! challenges.
//!
//! The transcript is a Merlin transcript. Its view is the record of what it
//! has taken in and given out; a challenge depends on that record and on
//! nothing else, so two parties that feed their transcripts alike draw the
//! same challenges.

use crate::commitment::{compressed_value, Commitment, G1Point};
use crate::field::{fr_from_random_bytes, le_value, lemma_le_value_injective, Scalar};
use vstd::prelude::*;
use vstd::string::StringSliceAdditionalSpecFns;

verus! {

/// One step in the life of a transcript.
pub enum TranscriptEvent {
    /// A message absorbed under a label.
    Message { label: Seq<u8>, data: Seq<u8> },
    /// A challenge of `len` bytes drawn under a label.
    Challenge { label: Seq<u8>, len: nat },
}

/// `merlin::Transcript`, carried as it is; nothing of its inside is seen.
#[verifier::external_type_specification]
#[verifier::external_body]
pub struct ExMerlinTranscript(merlin::Transcript);

/// What a Merlin transcript has taken in and given out so far.
pub uninterp spec fn transcript_log(t: merlin::Transcript) -> Seq<TranscriptEvent>;

/// The bytes that a transcript with the given record gives out when a
/// challenge of `len` bytes is drawn under `label`.
pub uninterp spec fn challenge_bytes(log: Seq<TranscriptEvent>, label: Seq<u8>, len: nat) -> Seq<
    u8,
>;

/// The number of bytes drawn for a challenge scalar: one less than the whole
/// bytes of the field's bit length.
pub open spec fn challenge_len() -> nat {
    30
}

/// The scalar that a transcript with the given record gives out under
/// `label`.
pub open spec fn challenge_scalar_value(log: Seq<TranscriptEvent>, label: Seq<u8>) -> nat {
    le_value(challenge_bytes(log, label, challenge_len()))
}

/// The record after a scalar has been appended under `label`.
pub open spec fn with_scalar(log: Seq<TranscriptEvent>, label: Seq<u8>, s: nat) -> Seq<
    TranscriptEvent,
> {
    let data = choose|data: Seq<u8>| data.len() == 32 && le_value(data) == s;
    log.push(TranscriptEvent::Message { label, data })
}

/// The record after a commitment has been appended under `label`.
pub open spec fn with_commitment(log: Seq<TranscriptEvent>, label: Seq<u8>, c: G1Point) -> Seq<
    TranscriptEvent,
> {
    let data = choose|data: Seq<u8>| data.len() == 48 && le_value(data) == compressed_value(c);
    log.push(TranscriptEvent::Message { label, data })
}

/// The record after a challenge scalar has been drawn under `label`.
pub open spec fn with_challenge(log: Seq<TranscriptEvent>, label: Seq<u8>) -> Seq<TranscriptEvent> {
    log.push(TranscriptEvent::Challenge { label, len: challenge_len() })
}

/// The message `circuit_size`, in ASCII.
pub open spec fn circuit_size_message() -> Seq<u8> {
    seq![99u8, 105u8, 114u8, 99u8, 117u8, 105u8, 116u8, 95u8, 115u8, 105u8, 122u8, 101u8]
}

/// The record after the circuit size `n` has been bound in.
pub open spec fn with_circuit_size(log: Seq<TranscriptEvent>, n: u64) -> Seq<TranscriptEvent> {
    log.push(
        TranscriptEvent::Message {
            label: "dom-sep".spec_bytes(),
            data: circuit_size_message(),
        },
    ).push(
        TranscriptEvent::Message {
            label: "n".spec_bytes(),
            data: vstd::bytes::spec_u64_to_le_bytes(n),
        },
    )
}

/// Equal records give equal challenges: a transcript is a function of what
/// it was fed. Two transcripts that were started and fed alike therefore
/// draw the same scalar under the same label, and stand alike afterwards.
pub proof fn lemma_transcript_deterministic(
    log_a: Seq<TranscriptEvent>,
    log_b: Seq<TranscriptEvent>,
    label: Seq<u8>,
)
    requires
        log_a == log_b,
    ensures
        challenge_scalar_value(log_a, label) == challenge_scalar_value(log_b, label),
        with_challenge(log_a, label) == with_challenge(log_b, label),
{
}

/// A Fiat-Shamir transcript.
pub struct TranscriptWrapper {
    inner: merlin::Transcript,
}

impl TranscriptWrapper {
    /// What the transcript has taken in and given out so far.
    pub closed spec fn view(&self) -> Seq<TranscriptEvent> {
        transcript_log(self.inner)
    }

    /// A transcript for the protocol named by `label`, which has at most
    /// `u32::MAX` bytes.
    pub fn new(label: &'static str) -> (r: TranscriptWrapper)
        requires
            label.spec_bytes().len() <= u32::MAX,
        ensures
            r@ == seq![
                TranscriptEvent::Message {
                    label: "dom-sep".spec_bytes(),
                    data: label.spec_bytes(),
                },
            ],
    {
        TranscriptWrapper { inner: merlin_new(label) }
    }

    /// Appends a commitment under `label`, in its compressed encoding.
    pub fn append_commitment(&mut self, label: &'static str, comm: &Commitment)
        ensures
            final(self)@ == with_commitment(old(self)@, label.spec_bytes(), comm@),
    {
        let bytes = comm.to_bytes();
        proof {
            let data = choose|data: Seq<u8>|
                data.len() == 48 && le_value(data) == compressed_value(comm@);
            lemma_le_value_injective(bytes@, data);
        }
        merlin_append_message(&mut self.inner, label, bytes.as_slice());
    }

    /// Appends a scalar under `label`, in its canonical encoding.
    pub fn append_scalar(&mut self, label: &'static str, s: &Scalar)
        ensures
            final(self)@ == with_scalar(old(self)@, label.spec_bytes(), s@),
    {
        let bytes = s.to_bytes();
        proof {
            let data = choose|data: Seq<u8>| data.len() == 32 && le_value(data) == s@;
            lemma_le_value_injective(bytes@, data);
        }
        merlin_append_message(&mut self.inner, label, bytes.as_slice());
    }

    /// Draws a challenge scalar under `label`. The scalar depends on the
    /// record of the transcript and on the label alone.
    pub fn challenge_scalar(&mut self, label: &'static str) -> (r: Scalar)
        ensures
            r@ == challenge_scalar_value(old(self)@, label.spec_bytes()),
            final(self)@ == with_challenge(old(self)@, label.spec_bytes()),
    {
        let buf = merlin_challenge_bytes(&mut self.inner, label, 30);
        match fr_from_random_bytes(buf.as_slice()) {
            Some(s) => s,
            None => Scalar::zero(),
        }
    }

    /// Binds the transcript to a circuit of `n` gates.
    pub fn circuit_domain_sep(&mut self, n: u64)
        ensures
            final(self)@ == with_circuit_size(old(self)@, n),
    {
        let message: Vec<u8> = vec![
            99u8,
            105u8,
            114u8,
            99u8,
            117u8,
            105u8,
            116u8,
            95u8,
            115u8,
            105u8,
            122u8,
            101u8,
        ];
        assert(message@ =~= circuit_size_message());
        merlin_append_message(&mut self.inner, "dom-sep", message.as_slice());
        merlin_append_u64(&mut self.inner, "n", n);
    }
}

/// `merlin::Transcript::new`: a fresh transcript that has absorbed the
/// protocol label under the label `dom-sep`. The label is absorbed as a
/// message, so Merlin refuses one of more than `u32::MAX` bytes.
#[verifier::external_body]
fn merlin_new(label: &'static str) -> (r: merlin::Transcript)
    requires
        label.spec_bytes().len() <= u32::MAX,
    ensures
        transcript_log(r) == seq![
            TranscriptEvent::Message { label: "dom-sep".spec_bytes(), data: label.spec_bytes() },
        ],
{
    merlin::Transcript::new(label.as_bytes())
}

/// `merlin::Transcript::append_message`: absorbs the message under the
/// label. Merlin refuses messages of more than `u32::MAX` bytes.
#[verifier::external_body]
fn merlin_append_message(t: &mut merlin::Transcript, label: &'static str, message: &[u8])
    requires
        message@.len() <= u32::MAX,
    ensures
        transcript_log(*final(t)) == transcript_log(*old(t)).push(
            TranscriptEvent::Message { label: label.spec_bytes(), data: message@ },
        ),
{
    t.append_message(label.as_bytes(), message)
}

/// `merlin::Transcript::append_u64`: absorbs the eight little-endian bytes
/// of the number under the label.
#[verifier::external_body]
fn merlin_append_u64(t: &mut merlin::Transcript, label: &'static str, x: u64)
    ensures
        transcript_log(*final(t)) == transcript_log(*old(t)).push(
            TranscriptEvent::Message {
                label: label.spec_bytes(),
                data: vstd::bytes::spec_u64_to_le_bytes(x),
            },
        ),
{
    t.append_u64(label.as_bytes(), x)
}

/// `merlin::Transcript::challenge_bytes`: gives out `len` bytes that depend
/// on the record of the transcript, on the label and on `len`, and records
/// the draw. Merlin refuses draws of more than `u32::MAX` bytes.
#[verifier::external_body]
fn merlin_challenge_bytes(t: &mut merlin::Transcript, label: &'static str, len: usize) -> (r: Vec<
    u8,
>)
    requires
        len <= u32::MAX,
    ensures
        r@.len() == len,
        r@ == challenge_bytes(transcript_log(*old(t)), label.spec_bytes(), len as nat),
        transcript_log(*final(t)) == transcript_log(*old(t)).push(
            TranscriptEvent::Challenge { label: label.spec_bytes(), len: len as nat },
        ),
{
    let mut buf = vec![0u8; len];
    t.challenge_bytes(label.as_bytes(), &mut buf);
    buf
}

} // verus!
