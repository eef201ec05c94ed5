//! Reading a response body piece by piece: fixed-size chunks of buffered
//! content, re-chunking of a streamed body, lines of text, and the checks
//! made before iteration starts.
use crate::text::{push_char, strings_view};
use vstd::prelude::*;

verus! {

// ----- before iterating ----------------------------------------------------

/// What happens when iteration over a body is asked for.
#[derive(Debug, Clone, Copy, PartialEq, Eq)]
pub enum IterPlan {
    /// A synchronous iterator was asked of an asynchronous stream.
    AsyncStreamError,
    /// The body was already streamed and nothing is kept.
    StreamConsumed,
    /// Iterate over the underlying stream (which is then used up).
    FromStream,
    /// Iterate over the buffered content.
    FromContent,
}

/// The choice made before iterating over a body.
pub open spec fn spec_iter_plan(has_stream: bool, async_stream: bool, consumed: bool, content_empty: bool) -> IterPlan {
    if has_stream && async_stream {
        IterPlan::AsyncStreamError
    } else if consumed && content_empty && !has_stream {
        IterPlan::StreamConsumed
    } else if has_stream {
        IterPlan::FromStream
    } else {
        IterPlan::FromContent
    }
}

/// Decides how iteration over a body proceeds.
pub fn iter_plan(has_stream: bool, async_stream: bool, consumed: bool, content_empty: bool) -> (r: IterPlan)
    ensures
        r == spec_iter_plan(has_stream, async_stream, consumed, content_empty),
{
    if has_stream && async_stream {
        IterPlan::AsyncStreamError
    } else if consumed && content_empty && !has_stream {
        IterPlan::StreamConsumed
    } else if has_stream {
        IterPlan::FromStream
    } else {
        IterPlan::FromContent
    }
}

/// The chunk size used when none is given.
pub fn chunk_size_or_default(chunk_size: Option<usize>) -> (r: usize)
    ensures
        r == match chunk_size {
            Some(c) => c,
            None => 65536,
        },
{
    match chunk_size {
        Some(c) => c,
        None => 65536,
    }
}

// ----- chunks of buffered content ------------------------------------------

/// Buffered content handed out in chunks of a fixed size.
pub struct ContentChunks {
    content: Vec<u8>,
    position: usize,
    chunk_size: usize,
}

impl ContentChunks {
    /// The content.
    pub closed spec fn content(&self) -> Seq<u8> {
        self.content@
    }

    /// How much has been handed out.
    pub closed spec fn position(&self) -> nat {
        self.position as nat
    }

    /// The chunk size.
    pub closed spec fn chunk_size(&self) -> nat {
        self.chunk_size as nat
    }

    /// Starts at the beginning of the content.
    pub fn new(content: Vec<u8>, chunk_size: usize) -> (c: Self)
        ensures
            c.content() == content@,
            c.position() == 0,
            c.chunk_size() == chunk_size,
    {
        ContentChunks { content, position: 0, chunk_size }
    }

    /// The next chunk: up to `chunk_size` bytes from where the last one
    /// ended; `None` once everything was handed out.
    pub fn next(&mut self) -> (r: Option<Vec<u8>>)
        ensures
            final(self).content() == old(self).content(),
            final(self).chunk_size() == old(self).chunk_size(),
            ({
                let p = old(self).position();
                let n = old(self).content().len();
                if p >= n {
                    r is None && final(self).position() == p
                } else {
                    let end = if p + old(self).chunk_size() < n {
                        p + old(self).chunk_size()
                    } else {
                        n
                    };
                    r matches Some(c) && c@ == old(self).content().subrange(p as int, end as int)
                        && final(self).position() == end
                }
            }),
    {
        if self.position >= self.content.len() {
            return None;
        }
        let end = if self.chunk_size < self.content.len() - self.position {
            self.position + self.chunk_size
        } else {
            self.content.len()
        };
        let mut chunk: Vec<u8> = Vec::new();
        let mut i = self.position;
        while i < end
            invariant
                self.position <= i <= end <= self.content@.len(),
                chunk@ == self.content@.subrange(self.position as int, i as int),
            decreases end - i,
        {
            chunk.push(self.content[i]);
            i = i + 1;
            assert(chunk@ =~= self.content@.subrange(self.position as int, i as int));
        }
        self.position = end;
        Some(chunk)
    }
}

// ----- re-chunking a stream ------------------------------------------------

/// Re-chunks a streamed body: no chunk handed out is longer than the chunk
/// size; what does not fit waits in a buffer.
pub struct Rechunker {
    buffer: Vec<u8>,
    chunk_size: usize,
}

impl Rechunker {
    /// The bytes waiting.
    pub closed spec fn buffered(&self) -> Seq<u8> {
        self.buffer@
    }

    /// The chunk size.
    pub closed spec fn chunk_size(&self) -> nat {
        self.chunk_size as nat
    }

    /// Nothing waiting yet.
    pub fn new(chunk_size: usize) -> (r: Self)
        ensures
            r.buffered().len() == 0,
            r.chunk_size() == chunk_size,
    {
        Rechunker { buffer: Vec::new(), chunk_size }
    }

    /// Hands out waiting bytes first: up to `chunk_size` of them, or `None`
    /// when nothing waits.
    pub fn pop_buffered(&mut self) -> (r: Option<Vec<u8>>)
        ensures
            final(self).chunk_size() == old(self).chunk_size(),
            old(self).buffered().len() == 0 ==> r is None && final(self).buffered() == old(
                self,
            ).buffered(),
            old(self).buffered().len() > 0 ==> (r matches Some(c) && c@ + final(self).buffered()
                == old(self).buffered() && c@.len() == if old(self).chunk_size() < old(
                self,
            ).buffered().len() {
                old(self).chunk_size()
            } else {
                old(self).buffered().len()
            }),
    {
        if self.buffer.len() == 0 {
            return None;
        }
        let end = if self.chunk_size < self.buffer.len() {
            self.chunk_size
        } else {
            self.buffer.len()
        };
        let ghost old_buf = self.buffer@;
        let mut chunk: Vec<u8> = Vec::new();
        let mut rest: Vec<u8> = Vec::new();
        let mut i: usize = 0;
        while i < self.buffer.len()
            invariant
                i <= self.buffer@.len(),
                end <= self.buffer@.len(),
                self.buffer@ == old_buf,
                chunk@ == old_buf.subrange(0, if i < end { i as int } else { end as int }),
                rest@ == if i < end {
                    Seq::<u8>::empty()
                } else {
                    old_buf.subrange(end as int, i as int)
                },
            decreases self.buffer.len() - i,
        {
            if i < end {
                chunk.push(self.buffer[i]);
            } else {
                rest.push(self.buffer[i]);
            }
            i = i + 1;
            assert(chunk@ =~= old_buf.subrange(0, if i < end { i as int } else { end as int }));
            assert(rest@ =~= if i < end {
                Seq::<u8>::empty()
            } else {
                old_buf.subrange(end as int, i as int)
            });
        }
        self.buffer = rest;
        assert(chunk@ + self.buffer@ =~= old_buf);
        Some(chunk)
    }

    /// Takes a chunk from the stream: an empty one is skipped (`None`); one
    /// that fits is handed out whole; a longer one is cut at the chunk size
    /// and the rest waits.
    pub fn accept(&mut self, chunk: Vec<u8>) -> (r: Option<Vec<u8>>)
        requires
            old(self).buffered().len() == 0,
        ensures
            final(self).chunk_size() == old(self).chunk_size(),
            chunk@.len() == 0 ==> r is None && final(self).buffered().len() == 0,
            chunk@.len() > 0 ==> (r matches Some(c) && c@ + final(self).buffered() == chunk@
                && c@.len() == if old(self).chunk_size() < chunk@.len() {
                old(self).chunk_size()
            } else {
                chunk@.len()
            }),
    {
        if chunk.len() == 0 {
            return None;
        }
        if chunk.len() <= self.chunk_size {
            return Some(chunk);
        }
        let cs = self.chunk_size;
        let mut head: Vec<u8> = Vec::new();
        let mut i: usize = 0;
        while i < cs
            invariant
                i <= cs < chunk@.len(),
                head@ == chunk@.subrange(0, i as int),
            decreases cs - i,
        {
            head.push(chunk[i]);
            i = i + 1;
            assert(head@ =~= chunk@.subrange(0, i as int));
        }
        let mut rest: Vec<u8> = Vec::new();
        while i < chunk.len()
            invariant
                cs <= i <= chunk@.len(),
                rest@ == chunk@.subrange(cs as int, i as int),
            decreases chunk.len() - i,
        {
            rest.push(chunk[i]);
            i = i + 1;
            assert(rest@ =~= chunk@.subrange(cs as int, i as int));
        }
        self.buffer = rest;
        assert(head@ + self.buffer@ =~= chunk@);
        Some(head)
    }
}

// ----- lines ---------------------------------------------------------------

/// The lines of a text after position `i`, with `cur` the line read so far:
/// "\r\n", "\n" and "\r" end a line; a last line without an ending is kept
/// unless empty.
pub open spec fn lines_from(t: Seq<char>, i: int, cur: Seq<char>) -> Seq<Seq<char>>
    decreases t.len() - i,
{
    if i < 0 || i >= t.len() {
        if cur.len() > 0 {
            seq![cur]
        } else {
            Seq::empty()
        }
    } else if t[i] == '\r' {
        if i + 1 < t.len() && t[i + 1] == '\n' {
            seq![cur] + lines_from(t, i + 2, Seq::empty())
        } else {
            seq![cur] + lines_from(t, i + 1, Seq::empty())
        }
    } else if t[i] == '\n' {
        seq![cur] + lines_from(t, i + 1, Seq::empty())
    } else {
        lines_from(t, i + 1, cur.push(t[i]))
    }
}

/// Splits a text into lines.
pub fn split_lines(text: &str) -> (r: Vec<String>)
    ensures
        strings_view(r@) == lines_from(text@, 0, Seq::empty()),
{
    let cs = crate::text::chars_of(text);
    let n = cs.len();
    let mut lines: Vec<String> = Vec::new();
    let mut cur = String::new();
    let mut i: usize = 0;
    while i < n
        invariant
            i <= n,
            n == cs@.len(),
            cs@ == text@,
            lines_from(text@, 0, Seq::empty()) == strings_view(lines@) + lines_from(text@, i as int, cur@),
        decreases n - i,
    {
        let c = cs[i];
        if c == '\r' || c == '\n' {
            let ghost old_lines = lines@;
            let ghost line = cur@;
            let done = cur;
            cur = String::new();
            proof {
                crate::text::lemma_strings_view_push(old_lines, done);
            }
            lines.push(done);
            if c == '\r' && n - i > 1 && cs[i + 1] == '\n' {
                i = i + 2;
            } else {
                i = i + 1;
            }
            assert(strings_view(lines@) + lines_from(text@, i as int, cur@) =~= strings_view(old_lines) + (
            seq![line] + lines_from(text@, i as int, Seq::empty())));
        } else {
            push_char(&mut cur, c);
            i = i + 1;
        }
    }
    if cur.as_str().is_empty() {
        assert(strings_view(lines@) + Seq::<Seq<char>>::empty() =~= strings_view(lines@));
    } else {
        let ghost old_lines = lines@;
        let last = cur;
        proof {
            crate::text::lemma_strings_view_push(old_lines, last);
        }
        lines.push(last);
    }
    lines
}

} // verus!
