//! The dot-delimited hierarchical topic name: a zero-copy view over the
//! topic bytes of a frame.

use crate::errors::SdmqError;
use vstd::prelude::*;
use vstd::string::StringSliceAdditionalSpecFns;
use vstd::utf8::*;

verus! {

/// The byte that separates hierarchy segments: an ASCII dot.
pub const DOT: u8 = 0x2e;

/// The index of the first separator, or the sequence's length when there
/// is none.
pub open spec fn first_dot(b: Seq<u8>) -> int
    decreases b.len(),
{
    if b.len() == 0 {
        0
    } else if b[0] == DOT {
        0
    } else {
        1 + first_dot(b.skip(1))
    }
}

/// first_dot points at a separator when one exists, and nothing before it
/// is a separator.
pub proof fn lemma_first_dot(b: Seq<u8>)
    ensures
        0 <= first_dot(b) <= b.len(),
        first_dot(b) < b.len() ==> b[first_dot(b)] == DOT,
        forall|j: int| 0 <= j < first_dot(b) ==> b[j] != DOT,
    decreases b.len(),
{
    if b.len() == 0 {
    } else if b[0] == DOT {
    } else {
        lemma_first_dot(b.skip(1));
        assert forall|j: int| 0 <= j < first_dot(b) implies b[j] != DOT by {
            if j >= 1 {
                assert(b.skip(1)[j - 1] == b[j]);
            }
        }
    }
}

/// Any index with a separator at it and none before it is first_dot; so is
/// the length when no separator occurs at all.
pub proof fn lemma_first_dot_at(b: Seq<u8>, i: int)
    requires
        0 <= i <= b.len(),
        i < b.len() ==> b[i] == DOT,
        forall|j: int| 0 <= j < i ==> b[j] != DOT,
    ensures
        first_dot(b) == i,
    decreases b.len(),
{
    if b.len() == 0 {
    } else if i == 0 {
    } else {
        assert(b[0] != DOT);
        assert forall|j: int| 0 <= j < i - 1 implies b.skip(1)[j] != DOT by {
            assert(b.skip(1)[j] == b[j + 1]);
        }
        if i < b.len() {
            assert(b.skip(1)[i - 1] == b[i]);
        }
        lemma_first_dot_at(b.skip(1), i - 1);
    }
}

/// The topic's segments: the byte sequence split on the separator.
pub open spec fn segments(b: Seq<u8>) -> Seq<Seq<u8>>
    decreases b.len(),
    via segments_decreases
{
    if first_dot(b) == b.len() {
        seq![b]
    } else {
        seq![b.subrange(0, first_dot(b))] + segments(b.skip(first_dot(b) + 1))
    }
}

#[via_fn]
proof fn segments_decreases(b: Seq<u8>) {
    lemma_first_dot(b);
}

/// The idx-th segment, or the empty sequence when idx is out of range.
pub open spec fn segment_at(b: Seq<u8>, idx: int) -> Seq<u8> {
    if 0 <= idx < segments(b).len() {
        segments(b)[idx]
    } else {
        Seq::empty()
    }
}

/// Everything after the first separator; the whole sequence when there is
/// none.
pub open spec fn after_first_dot(b: Seq<u8>) -> Seq<u8> {
    if first_dot(b) == b.len() {
        b
    } else {
        b.skip(first_dot(b) + 1)
    }
}

/// Dropping the leading segment shifts the remaining segments down by one.
pub proof fn lemma_segments_step(b: Seq<u8>, i: int)
    requires
        first_dot(b) < b.len(),
        1 <= i,
    ensures
        segment_at(b, i) == segment_at(b.skip(first_dot(b) + 1), i - 1),
{
    lemma_first_dot(b);
}

/// In valid UTF-8 an ASCII byte always stands on a character boundary, and
/// the position after it is one as well.
proof fn lemma_ascii_boundary(b: Seq<u8>, i: int)
    requires
        valid_utf8(b),
        0 <= i < b.len(),
        b[i] < 0x80,
    ensures
        is_char_boundary(b, i),
        is_char_boundary(b, i + 1),
{
    is_char_boundary_iff_not_is_continuation_byte(b, i);
    if i + 1 == b.len() {
        is_char_boundary_start_end_of_seq(b);
    } else {
        valid_utf8_split(b, i);
        let suf = b.subrange(i, b.len() as int);
        assert(suf[0] == b[i]);
        assert(is_leading_byte_width_1(suf[0]));
        assert(valid_first_scalar(suf));
        assert(length_of_first_scalar(suf) == 1);
        assert(is_char_boundary(suf, 1)) by {
            reveal_with_fuel(is_char_boundary, 2);
        }
        is_char_boundary_iff_not_is_continuation_byte(suf, 1);
        assert(suf[1] == b[i + 1]);
        is_char_boundary_iff_not_is_continuation_byte(b, i + 1);
    }
}

/// Relies on core::str::from_utf8: it succeeds exactly on valid UTF-8 input
/// and the resulting string views the same bytes.
#[verifier::external_body]
fn bytes_to_str<'a>(v: &'a [u8]) -> (r: Option<&'a str>)
    ensures
        r is Some <==> valid_utf8(v@),
        r matches Some(s) ==> s.spec_bytes() == v@,
{
    core::str::from_utf8(v).ok()
}

/// The index of the first separator at or after `from`, or the length of
/// the region when there is none.
fn find_dot(b: &[u8], from: usize) -> (r: usize)
    requires
        from <= b@.len(),
    ensures
        from <= r <= b@.len(),
        r < b@.len() ==> b@[r as int] == DOT,
        forall|j: int| from <= j < r ==> b@[j] != DOT,
{
    let n = b.len();
    let mut i = from;
    while i < n
        invariant
            from <= i <= n,
            n == b@.len(),
            forall|j: int| from <= j < i ==> b@[j] != DOT,
        decreases n - i,
    {
        if b[i] == DOT {
            return i;
        }
        i = i + 1;
    }
    n
}

/// A borrowed, dot-delimited hierarchical name over a frame's topic bytes.
/// It owns nothing: it must not outlive the buffer it was parsed from.
#[derive(Debug, Clone, Copy)]
pub struct Topic<'a> {
    inner: &'a str,
}

impl<'a> View for Topic<'a> {
    type V = Seq<u8>;

    closed spec fn view(&self) -> Seq<u8> {
        self.inner.spec_bytes()
    }
}

impl<'a> Topic<'a> {
    /// Wraps a byte range as a topic after checking that it is valid UTF-8.
    pub fn parse(bytes: &'a [u8]) -> (r: Result<Self, SdmqError>)
        ensures
            r is Ok <==> valid_utf8(bytes@),
            r matches Ok(t) ==> t@ == bytes@,
            r is Err ==> r == Err::<Topic<'a>, SdmqError>(SdmqError::InvalidTopicEncoding),
    {
        match bytes_to_str(bytes) {
            Some(s) => Ok(Topic { inner: s }),
            None => Err(SdmqError::InvalidTopicEncoding),
        }
    }

    /// The topic's underlying bytes.
    pub fn as_bytes(&self) -> (r: &'a [u8])
        ensures
            r@ == self@,
    {
        self.inner.as_bytes()
    }

    /// The remainder after the first separator — not the first segment; when
    /// the name has no separator, the whole name. Message routing depends on
    /// exactly this behavior.
    pub fn main(&self) -> (r: &'a str)
        ensures
            r.spec_bytes() == after_first_dot(self@),
    {
        let bytes = self.inner.as_bytes();
        let d = find_dot(bytes, 0);
        proof {
            lemma_first_dot_at(self@, d as int);
        }
        if d == bytes.len() {
            self.inner
        } else {
            proof {
                encode_utf8_valid_utf8(self.inner@);
                lemma_ascii_boundary(self@, d as int);
            }
            let (_, rest) = self.inner.split_at(d + 1);
            proof {
                assert(rest.spec_bytes() =~= after_first_dot(self@));
            }
            rest
        }
    }

    /// The idx-th segment of the name, counted from zero; the empty string
    /// when idx is out of range.
    pub fn get(&self, idx: usize) -> (r: &'a str)
        ensures
            r.spec_bytes() == segment_at(self@, idx as int),
    {
        let bytes = self.inner.as_bytes();
        let n = bytes.len();
        let mut start: usize = 0;
        let mut k: usize = 0;
        proof {
            encode_utf8_valid_utf8(self.inner@);
            assert(bytes@.skip(0) =~= bytes@);
        }
        while k < idx
            invariant
                k <= idx,
                start <= n,
                n == bytes@.len(),
                bytes@ == self.inner.spec_bytes(),
                valid_utf8(bytes@),
                start == 0 || bytes@[start - 1] == DOT,
                segment_at(bytes@, idx as int) == segment_at(
                    bytes@.skip(start as int),
                    idx - k,
                ),
            decreases idx - k,
        {
            let d = find_dot(bytes, start);
            proof {
                let sub = bytes@.skip(start as int);
                assert forall|j: int| 0 <= j < d - start implies sub[j] != DOT by {
                    assert(sub[j] == bytes@[start + j]);
                }
                if d < n {
                    assert(sub[d - start] == bytes@[d as int]);
                }
                lemma_first_dot_at(sub, d - start);
            }
            if d == n {
                proof {
                    let sub = bytes@.skip(start as int);
                    assert(segments(sub).len() == 1);
                    reveal_strlit("");
                    assert(""@ =~= Seq::<char>::empty());
                    assert("".spec_bytes() =~= Seq::<u8>::empty());
                }
                return "";
            }
            proof {
                let sub = bytes@.skip(start as int);
                lemma_segments_step(sub, idx - k);
                assert(sub.skip(first_dot(sub) + 1) =~= bytes@.skip(d + 1));
            }
            start = d + 1;
            k = k + 1;
        }
        let end = find_dot(bytes, start);
        proof {
            let sub = bytes@.skip(start as int);
            assert forall|j: int| 0 <= j < end - start implies sub[j] != DOT by {
                assert(sub[j] == bytes@[start + j]);
            }
            if end < n {
                assert(sub[end - start] == bytes@[end as int]);
            }
            lemma_first_dot_at(sub, end - start);
            if start > 0 {
                lemma_ascii_boundary(bytes@, start - 1);
            } else {
                is_char_boundary_start_end_of_seq(bytes@);
            }
        }
        let (_, tail) = self.inner.split_at(start);
        proof {
            assert(tail.spec_bytes() =~= bytes@.skip(start as int));
            encode_utf8_valid_utf8(tail@);
            let sub = bytes@.skip(start as int);
            if end < n {
                assert(sub[end - start] == bytes@[end as int]);
                lemma_ascii_boundary(tail.spec_bytes(), end - start);
            } else {
                is_char_boundary_start_end_of_seq(tail.spec_bytes());
            }
        }
        let (seg, _) = tail.split_at(end - start);
        proof {
            let sub = bytes@.skip(start as int);
            if end == n {
                assert(seg.spec_bytes() =~= segments(sub)[0]);
            } else {
                assert(seg.spec_bytes() =~= sub.subrange(0, first_dot(sub)));
            }
        }
        seg
    }
}

} // verus!
