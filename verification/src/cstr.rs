//! Terminator-delimited byte sequences.
//!
//! A stored string is a byte buffer whose logical payload ends at the
//! first terminator byte (value 0). These spec functions describe where
//! that terminator sits and which bytes belong to the payload, and the
//! lemmas state the round-trip laws that the arena's operations obey.

use vstd::prelude::*;

verus! {

/// The terminator byte that marks the end of a stored string's payload.
pub open spec fn terminator() -> u8 {
    0u8
}

/// Index of the first terminator byte in `s`, or `s.len()` when `s`
/// holds no terminator at all.
pub open spec fn terminator_index(s: Seq<u8>) -> int
    decreases s.len(),
{
    if s.len() == 0 {
        0
    } else if s[0] == terminator() {
        0
    } else {
        1 + terminator_index(s.skip(1))
    }
}

/// The payload of a buffer: the bytes before its first terminator.
pub open spec fn payload(s: Seq<u8>) -> Seq<u8> {
    s.take(terminator_index(s))
}

/// A well-formed buffer: it is non-empty and its final byte is the
/// terminator, so a forward scan always finds one inside the buffer.
pub open spec fn terminated(s: Seq<u8>) -> bool {
    s.len() >= 1 && s[s.len() - 1] == terminator()
}

/// `terminator_index` really is the position of the first terminator:
/// it is in bounds, every byte before it is a payload byte, and the
/// byte at it (when one exists) is the terminator.
pub proof fn lemma_terminator_index_is_first(s: Seq<u8>)
    ensures
        0 <= terminator_index(s) <= s.len(),
        forall|i: int| 0 <= i < terminator_index(s) ==> s[i] != terminator(),
        terminator_index(s) < s.len() ==> s[terminator_index(s)] == terminator(),
    decreases s.len(),
{
    if s.len() > 0 && s[0] != terminator() {
        lemma_terminator_index_is_first(s.skip(1));
        assert forall|i: int| 0 <= i < terminator_index(s) implies s[i] != terminator() by {
            if i > 0 {
                assert(s.skip(1)[i - 1] == s[i]);
            }
        }
        if terminator_index(s) < s.len() {
            assert(s.skip(1)[terminator_index(s) - 1] == s[terminator_index(s)]);
        }
    }
}

/// In a well-formed buffer the terminator is found strictly inside the
/// buffer, so the payload is a proper prefix.
pub proof fn lemma_terminated_index_in_range(s: Seq<u8>)
    requires
        terminated(s),
    ensures
        0 <= terminator_index(s) < s.len(),
        s[terminator_index(s)] == terminator(),
{
    lemma_terminator_index_is_first(s);
    if terminator_index(s) == s.len() {
        assert(s[s.len() - 1] != terminator());
    }
}

/// Round-trip law: storing a payload that contains no terminator byte
/// and appending the terminator yields a buffer whose scanned length is
/// exactly the payload's length and whose payload reads back unchanged.
pub proof fn lemma_terminated_payload(p: Seq<u8>)
    requires
        forall|i: int| 0 <= i < p.len() ==> p[i] != terminator(),
    ensures
        terminator_index(p.push(terminator())) == p.len(),
        payload(p.push(terminator())) == p,
{
    let b = p.push(terminator());
    lemma_terminator_index_is_first(b);
    let t = terminator_index(b);
    assert(b[p.len() as int] == terminator());
    if t < p.len() {
        assert(b[t] == p[t]);
    }
    if t > p.len() {
        assert(b[p.len() as int] != terminator());
    }
    assert(b.take(p.len() as int) =~= p);
}

/// No payload contains a terminator byte: the scan stops at the first
/// one, so everything before it is a non-terminator byte.
pub proof fn lemma_payload_free_of_terminator(s: Seq<u8>)
    ensures
        forall|i: int| 0 <= i < payload(s).len() ==> payload(s)[i] != terminator(),
{
    lemma_terminator_index_is_first(s);
}

/// Concatenation law: joining the payloads of any two buffers and
/// terminating the result places the terminator exactly at the end of
/// the combined payload, and the combined payload reads back unchanged.
pub proof fn lemma_concat_payload(b1: Seq<u8>, b2: Seq<u8>)
    ensures
        terminator_index((payload(b1) + payload(b2)).push(terminator()))
            == payload(b1).len() + payload(b2).len(),
        payload((payload(b1) + payload(b2)).push(terminator())) == payload(b1) + payload(b2),
{
    let joined = payload(b1) + payload(b2);
    lemma_payload_free_of_terminator(b1);
    lemma_payload_free_of_terminator(b2);
    assert forall|i: int| 0 <= i < joined.len() implies joined[i] != terminator() by {
        if i < payload(b1).len() {
            assert(joined[i] == payload(b1)[i]);
        } else {
            assert(joined[i] == payload(b2)[i - payload(b1).len()]);
        }
    }
    lemma_terminated_payload(joined);
}

} // verus!
