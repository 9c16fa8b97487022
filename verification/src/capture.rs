//! Capturing a stream of output lines up to a byte limit.
use vstd::prelude::*;
use vstd::string::StringSliceAdditionalSpecFns;
use vstd::utf8::{encode_scalar, encode_utf8, is_char_boundary};

use crate::domain::OUTPUT_LIMIT_BYTES;
use crate::text::concat2;

verus! {

/// The output of one stream, cut at a byte limit.
#[derive(Debug)]
pub struct LimitedCapture {
    pub output: String,
    pub limit: usize,
    pub truncated: bool,
}

/// The UTF-8 bytes of a text.
pub open spec fn utf8_bytes(s: Seq<char>) -> Seq<u8> {
    encode_utf8(s)
}

/// The bytes a line adds: the line and a newline.
pub open spec fn line_bytes(line: Seq<char>) -> Seq<u8> {
    encode_utf8(line.push('\n'))
}

/// Whether adding `line` to output holding `held` bytes under `limit` cuts
/// the line inside a character (the one input a capture cannot take).
pub open spec fn cuts_inside_char(held: nat, limit: nat, line: Seq<char>) -> bool {
    held < limit && line_bytes(line).len() > limit - held && !is_char_boundary(
        line_bytes(line),
        limit - held,
    )
}

/// The UTF-8 bytes of a concatenation are the bytes of each part.
pub proof fn lemma_encode_concat(a: Seq<char>, b: Seq<char>)
    ensures
        encode_utf8(a + b) == encode_utf8(a) + encode_utf8(b),
    decreases a.len(),
{
    if a.len() == 0 {
        assert(a + b =~= b);
        assert(encode_utf8(a) =~= Seq::<u8>::empty());
        assert(encode_utf8(a) + encode_utf8(b) =~= encode_utf8(b));
    } else {
        lemma_encode_concat(a.drop_first(), b);
        assert((a + b).drop_first() =~= a.drop_first() + b);
        assert((a + b)[0] == a[0]);
        assert(encode_utf8(a + b) =~= encode_utf8(a) + encode_utf8(b));
    }
}

/// The bytes held after pushing `line` onto `held` under `limit`.
pub open spec fn bytes_after_push(held: Seq<u8>, limit: int, line: Seq<char>) -> Seq<u8> {
    let added = line_bytes(line);
    if held.len() >= limit {
        held
    } else if added.len() > limit - held.len() {
        held + added.subrange(0, limit - held.len())
    } else {
        held + added
    }
}

/// Whether the capture is marked truncated after pushing `line`.
pub open spec fn truncated_after_push(held: Seq<u8>, limit: int, line: Seq<char>, truncated: bool) -> bool {
    if held.len() >= limit || line_bytes(line).len() > limit - held.len() {
        true
    } else {
        truncated
    }
}

impl LimitedCapture {
    /// An empty capture that keeps at most `limit` bytes.
    pub fn new(limit: usize) -> (r: LimitedCapture)
        ensures
            r.output@ == Seq::<char>::empty(),
            r.limit == limit,
            !r.truncated,
    {
        LimitedCapture { output: String::new(), limit, truncated: false }
    }

    /// A capture that holds the text of an error as its only line.
    pub fn from_error(error: &str) -> (r: LimitedCapture)
        requires
            !cuts_inside_char(0, OUTPUT_LIMIT_BYTES as nat, error@),
        ensures
            r.limit == OUTPUT_LIMIT_BYTES,
            line_bytes(error@).len() <= OUTPUT_LIMIT_BYTES ==> utf8_bytes(r.output@) == line_bytes(error@)
                && !r.truncated,
            line_bytes(error@).len() > OUTPUT_LIMIT_BYTES ==> utf8_bytes(r.output@) == line_bytes(
                error@,
            ).subrange(0, OUTPUT_LIMIT_BYTES as int) && r.truncated,
    {
        let mut capture = LimitedCapture::new(OUTPUT_LIMIT_BYTES);
        assert(utf8_bytes(capture.output@) =~= Seq::<u8>::empty());
        capture.push_line(error);
        assert(Seq::<u8>::empty() + line_bytes(error@) =~= line_bytes(error@));
        assert(Seq::<u8>::empty() + line_bytes(error@).subrange(0, OUTPUT_LIMIT_BYTES as int)
            =~= line_bytes(error@).subrange(0, OUTPUT_LIMIT_BYTES as int));
        capture
    }

    /// Adds a line and its newline.  Once the limit is reached nothing more
    /// is kept; a line that does not fit is cut at the limit.  Either way
    /// the capture is marked truncated.
    pub fn push_line(&mut self, line: &str)
        requires
            !cuts_inside_char(utf8_bytes(old(self).output@).len(), old(self).limit as nat, line@),
        ensures
            final(self).limit == old(self).limit,
            utf8_bytes(final(self).output@) == bytes_after_push(
                utf8_bytes(old(self).output@),
                old(self).limit as int,
                line@,
            ),
            final(self).truncated == truncated_after_push(
                utf8_bytes(old(self).output@),
                old(self).limit as int,
                line@,
                old(self).truncated,
            ),
    {
        let held = self.output.as_str().as_bytes().len();
        if held >= self.limit {
            self.truncated = true;
            return ;
        }
        let remaining = self.limit - held;
        let line_with_newline = concat2(line, "\n");
        proof {
            reveal_strlit("\n");
            assert(line_with_newline@ =~= line@.push('\n'));
        }
        let ghost before = self.output@;
        let lw = line_with_newline.as_str();
        assert(lw.spec_bytes() == line_bytes(line@));
        assert(held == utf8_bytes(before).len());
        if lw.as_bytes().len() > remaining {
            assert(!cuts_inside_char(held as nat, self.limit as nat, line@));
            assert(is_char_boundary(lw.spec_bytes(), remaining as int));
            let (head, _) = lw.split_at(remaining);
            self.output.append(head);
            self.truncated = true;
            proof {
                vstd::utf8::encode_utf8_decode_utf8(head@);
                lemma_encode_concat(before, head@);
            }
        } else {
            self.output.append(lw);
            proof {
                lemma_encode_concat(before, line_with_newline@);
            }
        }
    }
}

/// Pushing a line onto output that is within the limit keeps it within
/// the limit, and keeps everything it held before.
pub proof fn lemma_push_within_limit(held: Seq<u8>, limit: int, line: Seq<char>)
    requires
        0 <= held.len() <= limit,
    ensures
        bytes_after_push(held, limit, line).len() <= limit,
        held.is_prefix_of(bytes_after_push(held, limit, line)),
{
    let added = line_bytes(line);
    if held.len() < limit && added.len() > limit - held.len() {
        assert((held + added.subrange(0, limit - held.len())).subrange(0, held.len() as int) =~= held);
    } else if held.len() < limit {
        assert((held + added).subrange(0, held.len() as int) =~= held);
    }
}

/// A capture that is marked truncated stays marked.
pub proof fn lemma_truncated_stays(held: Seq<u8>, limit: int, line: Seq<char>, truncated: bool)
    ensures
        truncated ==> truncated_after_push(held, limit, line, truncated),
{
}

/// The bytes of a stream of lines, each with its newline.
pub open spec fn stream_bytes(lines: Seq<Seq<char>>) -> Seq<u8>
    decreases lines.len(),
{
    if lines.len() == 0 {
        Seq::empty()
    } else {
        stream_bytes(lines.drop_last()) + line_bytes(lines.last())
    }
}

/// What a capture under `limit` that starts empty holds after the lines
/// are pushed in order, and whether it is marked truncated.
pub open spec fn capture_of(lines: Seq<Seq<char>>, limit: int) -> (Seq<u8>, bool)
    decreases lines.len(),
{
    if lines.len() == 0 {
        (Seq::empty(), false)
    } else {
        let (held, truncated) = capture_of(lines.drop_last(), limit);
        (
            bytes_after_push(held, limit, lines.last()),
            truncated_after_push(held, limit, lines.last(), truncated),
        )
    }
}

proof fn lemma_line_bytes_nonempty(line: Seq<char>)
    ensures
        line_bytes(line).len() >= 1,
{
    let s = line.push('\n');
    assert(s.len() > 0);
    assert(encode_utf8(s) == encode_scalar(s[0] as u32) + encode_utf8(s.drop_first()));
}

/// Capturing a whole stream of lines under a limit keeps exactly the
/// stream's first bytes, up to the limit, and marks the capture truncated
/// exactly when the stream is longer than the limit.
pub proof fn lemma_capture_stream(lines: Seq<Seq<char>>, limit: int)
    requires
        limit >= 0,
    ensures
        capture_of(lines, limit).0 == stream_bytes(lines).subrange(
            0,
            if stream_bytes(lines).len() <= limit {
                stream_bytes(lines).len() as int
            } else {
                limit
            },
        ),
        capture_of(lines, limit).1 <==> stream_bytes(lines).len() > limit,
    decreases lines.len(),
{
    if lines.len() > 0 {
        let d = lines.drop_last();
        let line = lines.last();
        lemma_capture_stream(d, limit);
        lemma_line_bytes_nonempty(line);
        let prev = stream_bytes(d);
        let added = line_bytes(line);
        let all = stream_bytes(lines);
        assert(all == prev + added);
        let held = capture_of(d, limit).0;
        if prev.len() >= limit {
            assert(held =~= all.subrange(0, limit));
        } else {
            assert(held =~= prev);
            if added.len() > limit - prev.len() {
                assert(held + added.subrange(0, limit - prev.len()) =~= all.subrange(0, limit));
            } else {
                assert(held + added =~= all.subrange(0, all.len() as int));
            }
        }
    }
}

} // verus!
