//! The bounded streaming copy at the heart of ingest: data is offered to a
//! sink in fixed-size chunks, a short write is retried until the chunk is
//! fully accepted, and a write that accepts zero bytes while bytes remain is
//! a fatal I/O fault, never an end-of-stream signal.
//!
//! The sink here is a model: it records every accepted byte and follows a
//! script saying how many bytes it takes per call, so that short writes and
//! dead sinks can be exercised deterministically.

use vstd::prelude::*;

use crate::error::Error;

verus! {

/// An in-memory byte sink with scripted acceptance.
pub struct SinkModel {
    /// Every byte accepted so far, in order.
    pub written: Vec<u8>,
    /// Per-call acceptance bounds: the next write takes at most `accepts[0]`
    /// bytes and consumes that entry; past the script's end the sink takes
    /// everything offered.
    pub accepts: Vec<usize>,
}

/// The sink ended with `neww` after starting at `oldw`: it accepted a strict
/// prefix of `data` (possibly none of it).
pub open spec fn wrote_prefix(oldw: Seq<u8>, neww: Seq<u8>, data: Seq<u8>) -> bool {
    let w = neww.len() - oldw.len();
    &&& 0 <= w < data.len()
    &&& neww == oldw + data.take(w)
}

/// Between `olds` and `news` the script was consumed up to and including
/// its first zero entry: the sink refused to take anything while data
/// remained, and the copy stopped right there — a dead write is never
/// retried.
pub open spec fn script_hit_zero(olds: Seq<usize>, news: Seq<usize>) -> bool {
    let consumed = olds.len() - news.len();
    &&& 1 <= consumed <= olds.len()
    &&& olds[consumed - 1] == 0
    &&& forall|i: int| 0 <= i < consumed - 1 ==> olds[i] != 0
    &&& news == olds.skip(consumed)
}

/// Between `olds` and `news` only non-zero script entries were consumed: no
/// write was answered with zero bytes along the way.
pub open spec fn consumed_no_zero(olds: Seq<usize>, news: Seq<usize>) -> bool {
    let consumed = olds.len() - news.len();
    &&& 0 <= consumed <= olds.len()
    &&& forall|i: int| 0 <= i < consumed ==> olds[i] != 0
    &&& news == olds.skip(consumed)
}

impl SinkModel {
    /// A sink that accepts everything offered.
    pub fn new() -> (r: SinkModel)
        ensures
            r.written@ == Seq::<u8>::empty(),
            r.accepts@ == Seq::<usize>::empty(),
    {
        SinkModel { written: Vec::new(), accepts: Vec::new() }
    }

    /// A sink that follows `script` before accepting everything.
    pub fn with_script(script: Vec<usize>) -> (r: SinkModel)
        ensures
            r.written@ == Seq::<u8>::empty(),
            r.accepts == script,
    {
        SinkModel { written: Vec::new(), accepts: script }
    }

    /// Offer `buf[from..]` to the sink; it accepts a count bounded by the
    /// script and appends exactly those bytes.
    pub fn write(&mut self, buf: &Vec<u8>, from: usize) -> (n: usize)
        requires
            from <= buf@.len(),
        ensures
            n <= buf@.len() - from,
            old(self).accepts@.len() > 0 ==> {
                &&& n == vstd::math::min(
                    old(self).accepts@[0] as int,
                    buf@.len() - from,
                )
                &&& final(self).accepts@ == old(self).accepts@.skip(1)
            },
            old(self).accepts@.len() == 0 ==> n == buf@.len() - from && final(self).accepts@
                == old(self).accepts@,
            final(self).written@ == old(self).written@ + buf@.subrange(
                from as int,
                from + n,
            ),
    {
        let offered = buf.len() - from;
        let take = if self.accepts.len() > 0 {
            let a = self.accepts.remove(0);
            if a < offered {
                a
            } else {
                offered
            }
        } else {
            offered
        };
        let ghost accepts_now = self.accepts@;
        let mut k: usize = 0;
        while k < take
            invariant
                from + take <= buf@.len(),
                buf@.len() <= usize::MAX,
                k <= take,
                self.written@ == old(self).written@ + buf@.subrange(from as int, from + k),
                self.accepts@ == accepts_now,
            decreases take - k,
        {
            self.written.push(buf[from + k]);
            assert(self.written@ =~= old(self).written@ + buf@.subrange(from as int, from + k + 1));
            k += 1;
        }
        take
    }
}

/// Write all of `buf` to the sink, retrying short writes; a write that
/// accepts zero bytes while bytes remain aborts at once with an I/O fault —
/// it is never retried. Success comes exactly when no consumed script entry
/// was zero, and then the sink has accepted exactly `buf` beyond what it
/// already held; on a fault the sink holds a strict prefix and the script
/// shows the zero as the first one consumed.
pub fn write_all(sink: &mut SinkModel, buf: &Vec<u8>) -> (r: Result<(), Error>)
    ensures
        r is Ok ==> final(sink).written@ == old(sink).written@ + buf@ && consumed_no_zero(
            old(sink).accepts@,
            final(sink).accepts@,
        ),
        r is Err ==> r->Err_0 == Error::IoFault && wrote_prefix(
            old(sink).written@,
            final(sink).written@,
            buf@,
        ) && script_hit_zero(old(sink).accepts@, final(sink).accepts@),
        final(sink).accepts@.len() <= old(sink).accepts@.len(),
        final(sink).accepts@ == old(sink).accepts@.skip(
            old(sink).accepts@.len() - final(sink).accepts@.len(),
        ),
{
    let mut wrote: usize = 0;
    proof {
        assert(old(sink).accepts@.skip(0) =~= old(sink).accepts@);
        assert(sink.written@ =~= old(sink).written@ + buf@.take(0));
    }
    while wrote < buf.len()
        invariant
            wrote <= buf@.len(),
            sink.written@ == old(sink).written@ + buf@.take(wrote as int),
            sink.accepts@.len() <= old(sink).accepts@.len(),
            sink.accepts@ == old(sink).accepts@.skip(
                old(sink).accepts@.len() - sink.accepts@.len(),
            ),
            forall|i: int|
                0 <= i < old(sink).accepts@.len() - sink.accepts@.len() ==> old(
                    sink,
                ).accepts@[i] != 0,
        decreases buf@.len() - wrote,
    {
        let ghost pre = *sink;
        let n = sink.write(buf, wrote);
        proof {
            let ghost c0 = old(sink).accepts@.len() - pre.accepts@.len();
            if pre.accepts@.len() > 0 {
                assert(pre.accepts@.skip(1) =~= old(sink).accepts@.skip(c0 + 1));
                assert(pre.accepts@[0] == old(sink).accepts@[c0]);
            }
        }
        if n == 0 {
            proof {
                let ghost consumed = old(sink).accepts@.len() - sink.accepts@.len();
                assert(pre.accepts@.len() > 0);
                assert(pre.accepts@[0] == 0);
                assert(old(sink).accepts@[consumed - 1] == pre.accepts@[0]);
                assert(sink.written@ =~= old(sink).written@ + buf@.take(wrote as int));
            }
            return Err(Error::IoFault);
        }
        proof {
            assert(buf@.take(wrote as int) + buf@.subrange(wrote as int, wrote + n) =~= buf@.take(
                wrote + n,
            ));
        }
        wrote += n;
    }
    proof {
        assert(buf@.take(buf@.len() as int) =~= buf@);
    }
    Ok(())
}

/// Pump `source` into the sink in chunks of at most `chunk_size` bytes,
/// retrying short writes, aborting at once on a zero-byte write. Success
/// comes exactly when no consumed script entry was zero, and then the sink
/// has accepted exactly `source`; on a fault it holds a strict prefix of it
/// and the first zero consumed is where the copy stopped.
pub fn pump(source: &Vec<u8>, chunk_size: usize, sink: &mut SinkModel) -> (r: Result<(), Error>)
    requires
        chunk_size >= 1,
    ensures
        r is Ok ==> final(sink).written@ == old(sink).written@ + source@ && consumed_no_zero(
            old(sink).accepts@,
            final(sink).accepts@,
        ),
        r is Err ==> r->Err_0 == Error::IoFault && wrote_prefix(
            old(sink).written@,
            final(sink).written@,
            source@,
        ) && script_hit_zero(old(sink).accepts@, final(sink).accepts@),
{
    let n = source.len();
    let mut pos: usize = 0;
    proof {
        assert(old(sink).accepts@.skip(0) =~= old(sink).accepts@);
        assert(sink.written@ =~= old(sink).written@ + source@.take(0));
    }
    while pos < n
        invariant
            chunk_size >= 1,
            n == source@.len(),
            pos <= n,
            sink.written@ == old(sink).written@ + source@.take(pos as int),
            sink.accepts@.len() <= old(sink).accepts@.len(),
            sink.accepts@ == old(sink).accepts@.skip(
                old(sink).accepts@.len() - sink.accepts@.len(),
            ),
            forall|i: int|
                0 <= i < old(sink).accepts@.len() - sink.accepts@.len() ==> old(
                    sink,
                ).accepts@[i] != 0,
        decreases n - pos,
    {
        let end = if n - pos < chunk_size {
            n
        } else {
            pos + chunk_size
        };
        let mut chunk: Vec<u8> = Vec::new();
        let mut j: usize = pos;
        while j < end
            invariant
                pos <= j <= end <= n,
                n == source@.len(),
                chunk@ == source@.subrange(pos as int, j as int),
            decreases end - j,
        {
            chunk.push(source[j]);
            assert(chunk@ =~= source@.subrange(pos as int, j + 1));
            j += 1;
        }
        let ghost pre = *sink;
        let r = write_all(sink, &chunk);
        proof {
            let ghost c0 = old(sink).accepts@.len() - pre.accepts@.len();
            let ghost c1 = pre.accepts@.len() - sink.accepts@.len();
            assert(pre.accepts@.skip(c1) =~= old(sink).accepts@.skip(c0 + c1));
            assert forall|i: int| c0 <= i < c0 + c1 implies old(sink).accepts@[i]
                == pre.accepts@[i - c0] by {
                assert(pre.accepts@[i - c0] == old(sink).accepts@.skip(c0)[i - c0]);
            }
        }
        if let Err(e) = r {
            proof {
                let ghost w = sink.written@.len() - pre.written@.len();
                assert(sink.written@ == pre.written@ + chunk@.take(w));
                assert(source@.take(pos as int) + source@.subrange(pos as int, pos + w)
                    =~= source@.take(pos + w));
                assert(chunk@.take(w) =~= source@.subrange(pos as int, pos + w));
                assert(sink.written@ =~= old(sink).written@ + source@.take(pos + w));
                let ghost consumed = old(sink).accepts@.len() - sink.accepts@.len();
                let ghost cpre = old(sink).accepts@.len() - pre.accepts@.len();
                assert(pre.accepts@[consumed - cpre - 1] == old(sink).accepts@[consumed - 1]);
            }
            return Err(e);
        }
        proof {
            assert(source@.take(pos as int) + source@.subrange(pos as int, end as int)
                =~= source@.take(end as int));
        }
        pos = end;
    }
    proof {
        assert(source@.take(n as int) =~= source@);
    }
    Ok(())
}

} // verus!
