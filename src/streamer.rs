use vstd::prelude::*;
use vstd::slice::{slice_subrange, slice_to_vec};

verus! {

broadcast use vstd::seq_lib::group_seq_properties;

/// An empty response body: it yields no frame and its exact size is zero.
pub struct Empty {}

impl Empty {
    pub fn new() -> (r: Self) {
        Empty {}
    }

    pub fn is_end_stream(&self) -> (r: bool)
        ensures
            r,
    {
        true
    }

    pub fn size_hint(&self) -> (r: u64)
        ensures
            r == 0,
    {
        0
    }
}

/// The decisions of a chunked body producer: how many bytes to ask of the
/// source next, and when to stop. `remaining` is the byte budget of a bounded
/// producer, `None` for one that runs to the end of the source.
pub struct Streamer {
    pub buf_size: usize,
    pub remaining: Option<u64>,
    pub finished: bool,
}

impl Streamer {
    /// A producer that reads chunks of `buf_size` bytes until the source ends.
    pub fn new(buf_size: usize) -> (r: Self)
        ensures
            r.buf_size == buf_size,
            r.remaining is None,
            !r.finished,
    {
        Streamer { buf_size, remaining: None, finished: false }
    }

    /// A producer that stops after `max_length` bytes, or earlier where the
    /// source ends.
    pub fn sized(buf_size: usize, max_length: u64) -> (r: Self)
        ensures
            r.buf_size == buf_size,
            r.remaining == Some(max_length),
            !r.finished,
    {
        Streamer { buf_size, remaining: Some(max_length), finished: false }
    }

    /// The size of the next read, or `None` once the sequence has ended.
    pub open spec fn next_read_spec(self) -> Option<nat> {
        if self.finished {
            None
        } else {
            match self.remaining {
                None => Some(self.buf_size as nat),
                Some(m) => if m == 0 {
                    None
                } else if m >= self.buf_size {
                    Some(self.buf_size as nat)
                } else {
                    Some(m as nat)
                },
            }
        }
    }

    pub fn next_read(&self) -> (r: Option<usize>)
        ensures
            match self.next_read_spec() {
                Some(n) => r == Some(n as usize),
                None => r is None,
            },
    {
        if self.finished {
            return None;
        }
        match self.remaining {
            None => Some(self.buf_size),
            Some(m) => if m == 0 {
                None
            } else if m >= self.buf_size as u64 {
                Some(self.buf_size)
            } else {
                Some(m as usize)
            },
        }
    }

    /// Records that a read returned `n` bytes: zero ends the sequence, any
    /// other count is taken off the budget.
    pub fn advance(&mut self, n: usize)
        requires
            old(self).next_read_spec() matches Some(k) && n <= k,
        ensures
            final(self).buf_size == old(self).buf_size,
            n == 0 ==> final(self).finished && final(self).remaining == old(self).remaining,
            n > 0 ==> !final(self).finished,
            n > 0 ==> match old(self).remaining {
                None => final(self).remaining is None,
                Some(m) => final(self).remaining == Some((m - n) as u64),
            },
    {
        if n == 0 {
            self.finished = true;
        } else {
            match self.remaining {
                None => {},
                Some(m) => {
                    self.remaining = Some(m - n as u64);
                },
            }
        }
    }
}

/// The bytes of all frames, in order.
pub open spec fn concat(frames: Seq<Vec<u8>>) -> Seq<u8> {
    frames.map_values(|f: Vec<u8>| f@).flatten()
}

/// Where the frames of `s` over a source of `len` bytes, read from `start`,
/// stop: at the end of the source, or earlier where the budget runs out. A
/// producer with no buffer ends at once.
pub open spec fn frames_end(s: Streamer, len: int, start: int) -> int {
    if s.buf_size == 0 {
        start
    } else {
        match s.remaining {
            None => len,
            Some(m) => if start + m < len { start + m } else { len },
        }
    }
}

/// A bounded producer with a buffer, over a source that holds the whole
/// selected range, stops exactly at the range's end, whatever its buffer size:
/// with the postcondition of `frames_over`, its frames together are exactly
/// the `max_length` bytes from `start`.
pub proof fn lemma_bounded_frames_cover_range(buf_size: usize, max_length: u64, len: int, start: int)
    requires
        buf_size > 0,
        0 <= start,
        start + max_length <= len,
    ensures
        frames_end(Streamer { buf_size, remaining: Some(max_length), finished: false }, len, start)
            == start + max_length,
{
}

/// The frames that `s` yields over `content` read from `start`, where every
/// read returns the next bytes of `content` in order, as many as were asked
/// for or what is left. Each frame is non-empty and at most `buf_size` long,
/// and together they are exactly the selected bytes.
pub fn frames_over(s: Streamer, content: &[u8], start: usize) -> (r: Vec<Vec<u8>>)
    requires
        !s.finished,
        start <= content@.len(),
    ensures
        concat(r@) == content@.subrange(start as int, frames_end(s, content@.len() as int, start as int)),
        forall|i: int| 0 <= i < r@.len() ==> 0 < (#[trigger] r@[i])@.len() <= s.buf_size,
{
    let mut st = s;
    let mut pos: usize = start;
    let mut frames: Vec<Vec<u8>> = Vec::new();
    loop
        invariant
            st.buf_size == s.buf_size,
            !st.finished,
            start <= pos <= content@.len(),
            concat(frames@) == content@.subrange(start as int, pos as int),
            forall|i: int| 0 <= i < frames@.len() ==> 0 < (#[trigger] frames@[i])@.len() <= s.buf_size,
            s.buf_size == 0 ==> pos == start,
            match s.remaining {
                None => st.remaining is None,
                Some(m) => pos - start <= m && st.remaining == Some((m - (pos - start)) as u64),
            },
        ensures
            pos == frames_end(s, content@.len() as int, start as int),
        decreases content@.len() - pos,
    {
        let n = match st.next_read() {
            Some(n) => n,
            None => break,
        };
        let avail = content.len() - pos;
        let k = if n < avail { n } else { avail };
        if k == 0 {
            break;
        }
        let frame = slice_to_vec(slice_subrange(content, pos, pos + k));
        st.advance(k);
        proof {
            let fv = frames@.map_values(|f: Vec<u8>| f@);
            assert(frames@.push(frame).map_values(|f: Vec<u8>| f@) =~= fv.push(frame@));
            fv.lemma_flatten_push(frame@);
            assert(content@.subrange(start as int, pos as int) + frame@
                =~= content@.subrange(start as int, pos + k));
        }
        frames.push(frame);
        pos = pos + k;
    }
    frames
}

} // verus!
