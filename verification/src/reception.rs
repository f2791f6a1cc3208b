//! Receiving the outcome of a WebSocket frame: when the body is read on, when a
//! piece is decoded, when the decoder is flushed, and what is kept.

use crate::fold::{joined, law_failed_piece_ends};
use crate::headers::header_fields;
use crate::responses_ws::{
    answers, answers_failure, answers_full, answers_stream, batch_views, chunk_views, kind_of,
    outcome_kind, Batch, BatchView, Chunk, ChunkView, OutcomeKind, ReceivedOutcome, WsFrameError,
};
use http::HeaderMap;
use vstd::prelude::*;

verus! {

/// An outcome that is being received.
pub struct Reception {
    pub status: u16,
    pub headers: HeaderMap,
    pub streamed: bool,
    /// What has arrived of a buffered success.
    pub body: Vec<u8>,
    /// What has arrived with a status other than success.
    pub chunks: Vec<Chunk>,
    /// What decoding a success has given.
    pub batches: Vec<Batch>,
}

/// What is to be done next.
pub enum Demand {
    /// The next piece of the body is read.
    Piece,
    /// The piece is decoded.
    Decode(Vec<u8>),
    /// The decoder is asked for what it still holds.
    Flush,
    /// Nothing: the outcome is complete.
    Done,
}

impl Reception {
    /// How the outcome is received.
    pub open spec fn kind(&self) -> OutcomeKind {
        kind_of(self.status, self.streamed)
    }

    /// Whether this is the same outcome, whatever has been received of it.
    pub open spec fn same_outcome(&self, other: Reception) -> bool {
        &&& self.status == other.status
        &&& self.headers == other.headers
        &&& self.streamed == other.streamed
    }

    /// An outcome of which nothing has been received.
    pub fn new(status: u16, headers: HeaderMap, streamed: bool) -> (r: Self)
        ensures
            r.status == status,
            r.headers == headers,
            r.streamed == streamed,
            r.body@.len() == 0,
            r.chunks@.len() == 0,
            r.batches@.len() == 0,
    {
        Reception {
            status,
            headers,
            streamed,
            body: Vec::new(),
            chunks: Vec::new(),
            batches: Vec::new(),
        }
    }

    /// Takes the next piece of the body, or its end. A body that came with a
    /// status other than success is kept as it is; any other is decoded piece by
    /// piece, and the decoder is flushed at its end. A piece that did not arrive
    /// ends the reception.
    pub fn on_piece(&mut self, piece: Option<Chunk>) -> (r: Demand)
        ensures
            final(self).same_outcome(*old(self)),
            match piece {
                None => {
                    &&& r == if old(self).kind() is Failure {
                        Demand::Done
                    } else {
                        Demand::Flush
                    }
                    &&& *final(self) == *old(self)
                },
                Some(chunk) => if old(self).kind() is Failure {
                    &&& r == if chunk is Ok {
                        Demand::Piece
                    } else {
                        Demand::Done
                    }
                    &&& final(self).chunks@ == old(self).chunks@.push(chunk)
                    &&& final(self).batches == old(self).batches
                    &&& final(self).body == old(self).body
                } else {
                    &&& final(self).chunks == old(self).chunks
                    &&& match chunk {
                        Ok(bytes) => {
                            &&& r == Demand::Decode(bytes)
                            &&& final(self).batches == old(self).batches
                            &&& final(self).body@ == if old(self).kind() is Full {
                                old(self).body@ + bytes@
                            } else {
                                old(self).body@
                            }
                        },
                        Err(reason) => {
                            &&& r is Done
                            &&& final(self).batches@ == old(self).batches@.push(Err(reason))
                            &&& final(self).body == old(self).body
                        },
                    }
                },
            },
    {
        let kind = outcome_kind(self.status, self.streamed);
        match piece {
            None => match kind {
                OutcomeKind::Failure => Demand::Done,
                OutcomeKind::Full | OutcomeKind::Stream => Demand::Flush,
            },
            Some(chunk) => match kind {
                OutcomeKind::Failure => {
                    let arrived = chunk.is_ok();
                    self.chunks.push(chunk);
                    if arrived {
                        Demand::Piece
                    } else {
                        Demand::Done
                    }
                },
                OutcomeKind::Full | OutcomeKind::Stream => match chunk {
                    Ok(bytes) => {
                        if !self.streamed {
                            let ghost before = self.body@;
                            self.body.extend_from_slice(bytes.as_slice());
                            assert(self.body@ =~= before + bytes@);
                        }
                        Demand::Decode(bytes)
                    },
                    Err(reason) => {
                        self.batches.push(Err(reason));
                        Demand::Done
                    },
                },
            },
        }
    }

    /// Takes what decoding a piece gave. A piece that could not be read ends the
    /// reception.
    pub fn on_decoded(&mut self, batch: Batch) -> (r: Demand)
        ensures
            final(self).same_outcome(*old(self)),
            final(self).body == old(self).body,
            final(self).chunks == old(self).chunks,
            final(self).batches@ == old(self).batches@.push(batch),
            r == if batch is Ok {
                Demand::Piece
            } else {
                Demand::Done
            },
    {
        let readable = batch.is_ok();
        self.batches.push(batch);
        if readable {
            Demand::Piece
        } else {
            Demand::Done
        }
    }

    /// Takes what the decoder still held, which completes the outcome.
    pub fn on_flushed(&mut self, batch: Batch) -> (r: Demand)
        ensures
            final(self).same_outcome(*old(self)),
            final(self).body == old(self).body,
            final(self).chunks == old(self).chunks,
            final(self).batches@ == old(self).batches@.push(batch),
            r is Done,
    {
        self.batches.push(batch);
        Demand::Done
    }

    /// What has been received.
    pub fn into_outcome(self) -> (r: ReceivedOutcome)
        ensures
            r == match self.kind() {
                OutcomeKind::Failure => ReceivedOutcome::Failure {
                    status: self.status,
                    headers: self.headers,
                    chunks: self.chunks,
                },
                OutcomeKind::Full => ReceivedOutcome::Full {
                    body: self.body,
                    batches: self.batches,
                },
                OutcomeKind::Stream => ReceivedOutcome::Stream { batches: self.batches },
            },
    {
        match outcome_kind(self.status, self.streamed) {
            OutcomeKind::Failure => ReceivedOutcome::Failure {
                status: self.status,
                headers: self.headers,
                chunks: self.chunks,
            },
            OutcomeKind::Full => ReceivedOutcome::Full { body: self.body, batches: self.batches },
            OutcomeKind::Stream => ReceivedOutcome::Stream { batches: self.batches },
        }
    }
}

/// Ending a reception at a piece that could not be read loses nothing: what would
/// have followed does not change what the pieces give.
pub proof fn law_decoding_may_end(batches: Seq<Batch>, later: Seq<Batch>)
    requires
        batches.len() > 0,
        batches.last() is Err,
    ensures
        joined(batch_views(batches + later)) == joined(batch_views(batches)),
{
    let all: Seq<BatchView> = batch_views(batches + later);
    let n = batches.len() - 1;
    assert(all[n] == batch_views(batches)[n]);
    law_failed_piece_ends(all, n);
    assert(all.take(n + 1) =~= batch_views(batches));
}

/// Ending a reception at a piece that did not arrive loses nothing: what would
/// have followed does not change what the pieces give.
pub proof fn law_reading_may_end(chunks: Seq<Chunk>, later: Seq<Chunk>)
    requires
        chunks.len() > 0,
        chunks.last() is Err,
    ensures
        joined(chunk_views(chunks + later)) == joined(chunk_views(chunks)),
{
    let all: Seq<ChunkView> = chunk_views(chunks + later);
    let n = chunks.len() - 1;
    assert(all[n] == chunk_views(chunks)[n]);
    law_failed_piece_ends(all, n);
    assert(all.take(n + 1) =~= chunk_views(chunks));
}

/// A piece of a body with what decoding it gives, or the reason why the piece did
/// not arrive.
pub type Arrival = Result<(Vec<u8>, Batch), String>;

/// The piece as it arrived.
pub open spec fn chunk_of(arrival: Arrival) -> Chunk {
    match arrival {
        Ok((bytes, _)) => Ok(bytes),
        Err(reason) => Err(reason),
    }
}

/// What decoding the piece gives.
pub open spec fn batch_of(arrival: Arrival) -> Batch {
    match arrival {
        Ok((_, batch)) => batch,
        Err(reason) => Err(reason),
    }
}

/// The pieces as they arrived.
pub open spec fn chunks_of(arrivals: Seq<Arrival>) -> Seq<Chunk> {
    arrivals.map_values(|a: Arrival| chunk_of(a))
}

/// What decoding the pieces gives.
pub open spec fn batches_of(arrivals: Seq<Arrival>) -> Seq<Batch> {
    arrivals.map_values(|a: Arrival| batch_of(a))
}

/// The bytes of the pieces that arrived.
pub open spec fn bytes_of(arrivals: Seq<Arrival>) -> Seq<u8>
    decreases arrivals.len(),
{
    if arrivals.len() == 0 {
        Seq::empty()
    } else {
        bytes_of(arrivals.drop_last()) + match arrivals.last() {
            Ok((bytes, _)) => bytes@,
            Err(_) => Seq::empty(),
        }
    }
}

/// Whether the body is read on behind a piece.
pub open spec fn reads_on(kind: OutcomeKind, arrival: Arrival) -> bool {
    if kind is Failure {
        arrival is Ok
    } else {
        batch_of(arrival) is Ok
    }
}

/// A reception from its beginning to its end.
pub struct Run {
    pub outcome: ReceivedOutcome,
    /// How many pieces were read.
    pub read: usize,
    /// Whether the end of the body was reached.
    pub complete: bool,
}

/// Whether a reception is the one of an outcome with the given pieces, where the
/// decoder holds `flushed` at their end. It reads up to the first piece that did
/// not arrive or could not be read. A success keeps what decoding gave for the
/// pieces in order, followed by what the decoder held where the end was reached;
/// a buffered one keeps their bytes too. Anything else keeps the pieces alone.
pub open spec fn is_run(
    run: Run,
    status: u16,
    headers: HeaderMap,
    streamed: bool,
    arrivals: Seq<Arrival>,
    flushed: Batch,
) -> bool {
    let kind = kind_of(status, streamed);
    let read = arrivals.take(run.read as int);
    let decoded = if run.complete {
        batches_of(read).push(flushed)
    } else {
        batches_of(read)
    };
    &&& run.read <= arrivals.len()
    &&& forall|i: int| 0 <= i < run.read - 1 ==> reads_on(kind, #[trigger] arrivals[i])
    &&& if run.complete {
        run.read == arrivals.len() && (run.read > 0 ==> reads_on(kind, arrivals.last()))
    } else {
        run.read > 0 && !reads_on(kind, arrivals[run.read - 1])
    }
    &&& match run.outcome {
        ReceivedOutcome::Failure { status: s, headers: h, chunks } => {
            kind is Failure && s == status && h == headers && chunks@ == chunks_of(read)
        },
        ReceivedOutcome::Full { body, batches } => {
            kind is Full && body@ == bytes_of(read) && batches@ == decoded
        },
        ReceivedOutcome::Stream { batches } => kind is Stream && batches@ == decoded,
    }
}

/// Receives a whole outcome, where its pieces with what decoding each gives, and
/// what the decoder holds at their end, are at hand.
pub fn receive_all(
    status: u16,
    headers: HeaderMap,
    streamed: bool,
    arrivals: Vec<Arrival>,
    flushed: Batch,
) -> (r: Run)
    ensures
        is_run(r, status, headers, streamed, arrivals@, flushed),
{
    let ghost all = arrivals@;
    let ghost kind = kind_of(status, streamed);
    let mut reception = Reception::new(status, headers, streamed);
    let count: usize = arrivals.len();
    let mut read: usize = 0;
    proof {
        assert(chunks_of(all.take(0)) =~= Seq::empty());
        assert(batches_of(all.take(0)) =~= Seq::empty());
        assert(reception.chunks@ =~= Seq::empty());
        assert(reception.batches@ =~= Seq::empty());
        assert(reception.body@ =~= Seq::empty());
    }
    for arrival in it: arrivals
        invariant
            all == arrivals@,
            all.len() == count,
            kind == kind_of(status, streamed),
            reception.status == status,
            reception.headers == headers,
            reception.streamed == streamed,
            it.seq() == all,
            it.index() == read,
            read <= all.len(),
            forall|i: int| 0 <= i < read ==> reads_on(kind, #[trigger] all[i]),
            kind is Failure ==> reception.chunks@ == chunks_of(all.take(read as int)),
            !(kind is Failure) ==> reception.batches@ == batches_of(all.take(read as int)),
            kind is Full ==> reception.body@ == bytes_of(all.take(read as int)),
    {
        let ghost before = all.take(read as int);
        proof {
            let now = all.take(read + 1);
            assert(arrival == all[read as int]);
            assert(now.drop_last() =~= before);
            assert(now.last() == arrival);
            assert(chunks_of(now) =~= chunks_of(before).push(chunk_of(arrival)));
            assert(batches_of(now) =~= batches_of(before).push(batch_of(arrival)));
        }
        read += 1;
        let demand = match arrival {
            Ok((bytes, batch)) => match reception.on_piece(Some(Ok(bytes))) {
                Demand::Decode(_) => reception.on_decoded(batch),
                demand => demand,
            },
            Err(reason) => {
                let demand = reception.on_piece(Some(Err(reason)));
                assert(bytes_of(all.take(read as int)) =~= bytes_of(before));
                demand
            },
        };
        match demand {
            Demand::Piece => {},
            _ => {
                return Run { outcome: reception.into_outcome(), read, complete: false };
            },
        }
    }
    assert(all.take(all.len() as int) =~= all);
    match reception.on_piece(None) {
        Demand::Flush => {
            reception.on_flushed(flushed);
        },
        _ => {},
    }
    Run { outcome: reception.into_outcome(), read, complete: true }
}

/// An outcome is answered by what all its pieces together give, wherever its
/// reception ended: the messages of the pieces in order and then those that the
/// decoder still held, or the first reason why a piece did not arrive or could
/// not be read. A status other than success is answered by the bytes of all
/// pieces in the same way.
pub proof fn law_whole_reception(
    run: Run,
    status: u16,
    headers: HeaderMap,
    streamed: bool,
    arrivals: Seq<Arrival>,
    flushed: Batch,
    r: Result<Vec<String>, WsFrameError>,
)
    requires
        is_run(run, status, headers, streamed, arrivals, flushed),
    ensures
        ({
            let body = joined(chunk_views(chunks_of(arrivals)));
            let messages = joined(batch_views(batches_of(arrivals).push(flushed)));
            answers(run.outcome, r) <==> match kind_of(status, streamed) {
                OutcomeKind::Failure => answers_failure(status, header_fields(headers), body, r),
                OutcomeKind::Full => answers_full(bytes_of(arrivals), messages, r),
                OutcomeKind::Stream => answers_stream(messages, r),
            }
        }),
{
    let n = run.read as int;
    let read = arrivals.take(n);
    if run.complete {
        assert(read =~= arrivals);
    } else {
        let later = arrivals.skip(n);
        if kind_of(status, streamed) is Failure {
            assert(chunks_of(read).last() == chunk_of(arrivals[n - 1]));
            law_reading_may_end(chunks_of(read), chunks_of(later));
            assert(chunks_of(read) + chunks_of(later) =~= chunks_of(arrivals));
        } else {
            let decoded = batches_of(read);
            let rest = batches_of(later).push(flushed);
            assert(decoded.last() == batch_of(arrivals[n - 1]));
            law_decoding_may_end(decoded, rest);
            assert(decoded + rest =~= batches_of(arrivals).push(flushed));
            assert(batch_views(decoded)[n - 1] is Err);
            law_failed_piece_ends(batch_views(decoded), n - 1);
        }
    }
}

} // verus!
