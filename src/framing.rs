//! What a received line means.
//!
//! A line is every byte read up to and including the newline. An empty read
//! means the stream has ended. A line of one byte (the newline alone) ends a
//! block. Any longer reply line carries its content, then a checksum byte,
//! then the newline; the checksum is read but not verified.
use crate::codec::{decode6, decode6_spec};
use crate::error::{ErrorView, UrgError};
use vstd::prelude::*;
use vstd::slice::{slice_subrange, slice_to_vec};

verus! {

/// Nothing was read: the stream has ended.
pub open spec fn is_closed(line: Seq<u8>) -> bool {
    line.len() == 0
}

/// The newline alone: the end of a block.
pub open spec fn is_terminator(line: Seq<u8>) -> bool {
    line.len() == 1
}

/// The content of a reply line: all bytes but the checksum and the newline.
pub open spec fn line_content(line: Seq<u8>) -> Seq<u8> {
    if line.len() >= 2 {
        line.subrange(0, line.len() - 2)
    } else {
        Seq::empty()
    }
}

/// The content of an echo line: the command, without the newline.
pub open spec fn echo_content(line: Seq<u8>) -> Seq<u8> {
    if line.len() >= 1 {
        line.drop_last()
    } else {
        Seq::empty()
    }
}

/// A field line's content is long enough for its five-byte tag and its
/// one-byte suffix.
pub open spec fn is_tagged(content: Seq<u8>) -> bool {
    content.len() >= 6
}

/// The value of a tagged field: the content without its five-byte tag and
/// its one-byte suffix.
pub open spec fn tag_value(content: Seq<u8>) -> Seq<u8> {
    content.subrange(5, content.len() - 1)
}

/// Byte-wise equality of two byte strings.
pub fn bytes_eq(a: &[u8], b: &[u8]) -> (r: bool)
    ensures
        r == (a@ == b@),
{
    if a.len() != b.len() {
        return false;
    }
    let mut i: usize = 0;
    while i < a.len()
        invariant
            a@.len() == b@.len(),
            i <= a@.len(),
            forall|j: int| 0 <= j < i ==> a@[j] == b@[j],
        decreases a@.len() - i,
    {
        if a[i] != b[i] {
            return false;
        }
        i = i + 1;
    }
    assert(a@ =~= b@);
    true
}

/// Appends the bytes of `src` to `out`.
pub fn append_bytes(out: &mut Vec<u8>, src: &[u8])
    ensures
        final(out)@ == old(out)@ + src@,
{
    let mut i: usize = 0;
    while i < src.len()
        invariant
            i <= src@.len(),
            out@ == old(out)@ + src@.subrange(0, i as int),
        decreases src@.len() - i,
    {
        out.push(src[i]);
        i = i + 1;
        assert(out@ =~= old(out)@ + src@.subrange(0, i as int));
    }
    assert(src@.subrange(0, src@.len() as int) =~= src@);
}

/// The content of a reply line.
pub fn content_of(line: &[u8]) -> (r: Vec<u8>)
    ensures
        r@ == line_content(line@),
{
    if line.len() >= 2 {
        slice_to_vec(slice_subrange(line, 0, line.len() - 2))
    } else {
        Vec::new()
    }
}

/// The content of an echo line.
pub fn echo_of(line: &[u8]) -> (r: Vec<u8>)
    ensures
        r@ == echo_content(line@),
{
    if line.len() >= 1 {
        slice_to_vec(slice_subrange(line, 0, line.len() - 1))
    } else {
        Vec::new()
    }
}

/// What reading a tagged field line gives.
pub open spec fn field_outcome(line: Seq<u8>) -> Result<Seq<u8>, ErrorView> {
    if is_closed(line) {
        Err(ErrorView::ConnectionClosed)
    } else if !is_tagged(line_content(line)) {
        Err(ErrorView::MalformedField { field: line_content(line) })
    } else {
        Ok(tag_value(line_content(line)))
    }
}

/// Reads the value of a tagged field line.
pub fn field_value(line: &[u8]) -> (r: Result<Vec<u8>, UrgError>)
    ensures
        match r {
            Ok(v) => field_outcome(line@) == Ok::<Seq<u8>, ErrorView>(v@),
            Err(e) => field_outcome(line@) == Err::<Seq<u8>, ErrorView>(e@),
        },
{
    if line.len() == 0 {
        return Err(UrgError::ConnectionClosed);
    }
    let content = content_of(line);
    if content.len() < 6 {
        return Err(UrgError::MalformedField { field: content });
    }
    Ok(slice_to_vec(slice_subrange(content.as_slice(), 5, content.len() - 1)))
}

/// A timestamp line carries exactly four encoded bytes.
pub open spec fn is_timestamp_line(line: Seq<u8>) -> bool {
    line.len() >= 2 && line_content(line).len() == 4
}

/// What reading the timestamp line of a scan reply gives.
pub open spec fn timestamp_outcome(line: Seq<u8>) -> Result<u32, ErrorView> {
    if is_closed(line) {
        Err(ErrorView::ConnectionClosed)
    } else if !is_timestamp_line(line) {
        Err(ErrorView::MalformedTimestamp { line })
    } else {
        Ok(decode6_spec(line_content(line)) as u32)
    }
}

/// Reads the timestamp line of a scan reply.
pub fn timestamp_field(line: &[u8]) -> (r: Result<u32, UrgError>)
    ensures
        match r {
            Ok(t) => timestamp_outcome(line@) == Ok::<u32, ErrorView>(t),
            Err(e) => timestamp_outcome(line@) == Err::<u32, ErrorView>(e@),
        },
{
    if line.len() == 0 {
        return Err(UrgError::ConnectionClosed);
    }
    if line.len() != 6 {
        return Err(UrgError::MalformedTimestamp { line: slice_to_vec(line) });
    }
    let t = decode6(slice_subrange(line, 0, 4));
    assert(line@.subrange(0, 4) =~= line_content(line@));
    Ok(t)
}

} // verus!
