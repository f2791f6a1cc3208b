//! What an outcome of the pipeline is answered with.

use super::frames::{lemma_error_model, lemma_frame_says, lemma_own_errors, says_error};
use super::terms::{is_own_error, views};
use crate::fold::{joined, law_failed_piece_ends, lemma_joined_from_front, lemma_joined_push};
use crate::headers::header_fields;
use crate::json::{json_parsed, json_parsed_bytes};
use crate::reception::{
    batch_of, bytes_of, chunk_of, reads_on, receive_all, Arrival, Demand, Reception, Run,
};
use crate::responses_ws::{
    batch_views, chunk_views, collect_batches, collect_body, error_model, json_body_to_message, kind_of,
    message_of_parsed, messages_or_error, outcome_kind, outcome_to_messages, succeeded, texts,
    Batch, BatchView, Chunk, ChunkView, OutcomeKind, ReceivedOutcome, WsFrameError,
};
use crate::text::{lossy_text, utf8_lossy};
use http::HeaderMap;
use serde_json::Value;
use vstd::prelude::*;
use vstd::utf8::{encode_utf8, valid_utf8};

verus! {

/// Some runs, one behind the other.
pub open spec fn end_to_end<T>(runs: Seq<Seq<T>>) -> Seq<T>
    decreases runs.len(),
{
    if runs.len() == 0 {
        Seq::empty()
    } else {
        runs[0] + end_to_end(runs.drop_first())
    }
}

/// Whether the piece at a position is the first that failed.
pub open spec fn is_first_failure<T>(pieces: Seq<Result<T, String>>, n: int) -> bool {
    &&& 0 <= n < pieces.len()
    &&& pieces[n] is Err
    &&& forall|i: int| 0 <= i < n ==> (#[trigger] pieces[i]) is Ok
}

/// Whether no piece failed.
pub open spec fn none_failed<T>(pieces: Seq<Result<T, String>>) -> bool {
    forall|i: int| 0 <= i < pieces.len() ==> (#[trigger] pieces[i]) is Ok
}

/// All messages of pieces of which none failed.
pub open spec fn all_messages(batches: Seq<Batch>) -> Seq<Seq<char>> {
    end_to_end(Seq::new(batches.len(), |i: int| views(batches[i]->Ok_0@)))
}

/// All bytes of pieces of which none failed.
pub open spec fn all_bytes(chunks: Seq<Chunk>) -> Seq<u8> {
    end_to_end(Seq::new(chunks.len(), |i: int| chunks[i]->Ok_0@))
}

/// Whether a text is what some bytes encode, or the best that can be made of them.
pub open spec fn is_text_of(bytes: Seq<u8>, text: Seq<char>) -> bool {
    if valid_utf8(bytes) {
        encode_utf8(text) == bytes
    } else {
        text == utf8_lossy(bytes)
    }
}

proof fn lemma_views(strings: Seq<String>)
    ensures
        texts(strings) == views(strings),
{
    assert(texts(strings) =~= views(strings));
}

proof fn lemma_lossy(bytes: Seq<u8>)
    ensures
        is_text_of(bytes, lossy_text(bytes)),
{
    if valid_utf8(bytes) {
        vstd::utf8::decode_utf8_encode_utf8(bytes);
    }
}

/// Joining pieces of which none failed puts them end to end.
proof fn lemma_joined_all<T, E>(pieces: Seq<Result<Seq<T>, E>>)
    requires
        forall|i: int| 0 <= i < pieces.len() ==> (#[trigger] pieces[i]) is Ok,
    ensures
        joined(pieces) == Result::<Seq<T>, E>::Ok(
            end_to_end(Seq::new(pieces.len(), |i: int| pieces[i]->Ok_0)),
        ),
    decreases pieces.len(),
{
    let runs = Seq::new(pieces.len(), |i: int| pieces[i]->Ok_0);
    if pieces.len() > 0 {
        let rest = pieces.drop_first();
        assert forall|i: int| 0 <= i < rest.len() implies (#[trigger] rest[i]) is Ok by {
            assert(rest[i] == pieces[i + 1]);
        }
        lemma_joined_all(rest);
        lemma_joined_from_front(pieces);
        assert(pieces[0] is Ok);
        assert(runs.drop_first() =~= Seq::new(rest.len(), |i: int| rest[i]->Ok_0));
    }
}

/// Joining pieces gives the first failure.
proof fn lemma_joined_failure<T, E>(pieces: Seq<Result<Seq<T>, E>>, n: int)
    requires
        0 <= n < pieces.len(),
        pieces[n] is Err,
        forall|i: int| 0 <= i < n ==> (#[trigger] pieces[i]) is Ok,
    ensures
        joined(pieces) == Result::<Seq<T>, E>::Err(pieces[n]->Err_0),
{
    let front = pieces.take(n);
    assert forall|i: int| 0 <= i < front.len() implies (#[trigger] front[i]) is Ok by {
        assert(front[i] == pieces[i]);
    }
    lemma_joined_all(front);
    lemma_joined_push(pieces, n);
    law_failed_piece_ends(pieces, n);
}

proof fn lemma_batches(batches: Seq<Batch>)
    ensures
        none_failed(batches) ==> joined(batch_views(batches)) == BatchView::Ok(
            all_messages(batches),
        ),
        forall|n: int| #[trigger]
            is_first_failure(batches, n) ==> joined(batch_views(batches)) == BatchView::Err(
                batches[n]->Err_0@,
            ),
{
    let pieces = batch_views(batches);
    assert(forall|i: int| 0 <= i < batches.len() ==> ((#[trigger] pieces[i]) is Ok <==> batches[i]
        is Ok));
    if none_failed(batches) {
        lemma_joined_all(pieces);
        let a = Seq::new(pieces.len(), |i: int| pieces[i]->Ok_0);
        let b = Seq::new(batches.len(), |i: int| views(batches[i]->Ok_0@));
        assert forall|i: int| 0 <= i < a.len() implies #[trigger] a[i] == b[i] by {
            assert(batches[i] is Ok);
            lemma_views(batches[i]->Ok_0@);
        }
        assert(a =~= b);
    }
    assert forall|n: int| #[trigger] is_first_failure(batches, n) implies joined(pieces)
        == BatchView::Err(batches[n]->Err_0@) by {
        assert forall|i: int| 0 <= i < n implies (#[trigger] pieces[i]) is Ok by {
            assert(batches[i] is Ok);
        }
        lemma_joined_failure(pieces, n);
    }
}

proof fn lemma_chunks(chunks: Seq<Chunk>)
    ensures
        none_failed(chunks) ==> joined(chunk_views(chunks)) == ChunkView::Ok(all_bytes(chunks)),
        forall|n: int| #[trigger]
            is_first_failure(chunks, n) ==> joined(chunk_views(chunks)) == ChunkView::Err(
                chunks[n]->Err_0@,
            ),
{
    let pieces = chunk_views(chunks);
    assert(forall|i: int| 0 <= i < chunks.len() ==> ((#[trigger] pieces[i]) is Ok <==> chunks[i]
        is Ok));
    if none_failed(chunks) {
        lemma_joined_all(pieces);
        let a = Seq::new(pieces.len(), |i: int| pieces[i]->Ok_0);
        let b = Seq::new(chunks.len(), |i: int| chunks[i]->Ok_0@);
        assert forall|i: int| 0 <= i < a.len() implies #[trigger] a[i] == b[i] by {
            assert(chunks[i] is Ok);
        }
        assert(a =~= b);
    }
    assert forall|n: int| #[trigger] is_first_failure(chunks, n) implies joined(pieces)
        == ChunkView::Err(chunks[n]->Err_0@) by {
        assert forall|i: int| 0 <= i < n implies (#[trigger] pieces[i]) is Ok by {
            assert(chunks[i] is Ok);
        }
        lemma_joined_failure(pieces, n);
    }
}

/// Whether a result is an error of the gateway's own.
pub open spec fn fails_with<T>(r: Result<T, WsFrameError>, status: u16, message: Seq<char>) -> bool {
    r matches Err(e) && is_own_error(e, status, message)
}

/// Just the statuses from 200 to 299 are success, and how an outcome is received
/// depends on that and on whether it is streamed alone.
pub proof fn law_success(status: u16, streamed: bool, success: bool, kind: OutcomeKind)
    requires
        call_ensures(succeeded, (status,), success),
        call_ensures(outcome_kind, (status, streamed), kind),
    ensures
        success <==> 200 <= status <= 299,
        kind is Failure <==> !(200 <= status <= 299),
        kind is Stream <==> 200 <= status <= 299 && streamed,
        kind is Full <==> 200 <= status <= 299 && !streamed,
{
}

/// The messages of pieces are all of them, end to end, and the first piece that
/// could not be read is an error with its reason. Bytes are put together alike.
pub proof fn law_collected(
    batches: &Vec<Batch>,
    messages: Result<Vec<String>, WsFrameError>,
    chunks: &Vec<Chunk>,
    body: Result<Vec<u8>, WsFrameError>,
)
    requires
        call_ensures(collect_batches, (batches,), messages),
        call_ensures(collect_body, (chunks,), body),
    ensures
        none_failed(batches@) ==> (messages matches Ok(out) && views(out@) == all_messages(
            batches@,
        )),
        forall|n: int| #[trigger]
            is_first_failure(batches@, n) ==> fails_with(messages, 502, batches@[n]->Err_0@),
        none_failed(chunks@) ==> (body matches Ok(out) && out@ == all_bytes(chunks@)),
        forall|n: int| #[trigger]
            is_first_failure(chunks@, n) ==> fails_with(body, 502, chunks@[n]->Err_0@),
{
    lemma_batches(batches@);
    lemma_chunks(chunks@);
    if let Ok(out) = messages {
        lemma_views(out@);
    }
    assert forall|n: int| #[trigger] is_first_failure(batches@, n) implies fails_with(
        messages,
        502,
        batches@[n]->Err_0@,
    ) by {
        lemma_own_errors(502, batches@[n]->Err_0@);
    }
    assert forall|n: int| #[trigger] is_first_failure(chunks@, n) implies fails_with(
        body,
        502,
        chunks@[n]->Err_0@,
    ) by {
        lemma_own_errors(502, chunks@[n]->Err_0@);
    }
}

/// A body that is JSON is passed on byte for byte, and any other is refused with
/// the reason why it is none.
pub proof fn law_json_body(
    body: &[u8],
    r: Result<String, WsFrameError>,
    parsed: Result<Value, String>,
    of_parsed: Result<String, WsFrameError>,
)
    requires
        call_ensures(json_body_to_message, (body,), r),
        call_ensures(message_of_parsed, (body, parsed), of_parsed),
    ensures
        json_parsed_bytes(body@) is Ok ==> (r matches Ok(m) && encode_utf8(m@) == body@),
        json_parsed_bytes(body@) matches Err(reason) ==> fails_with(
            r,
            502,
            "upstream returned non-SSE websocket response: "@ + reason,
        ),
        parsed is Ok ==> (of_parsed matches Ok(m) && is_text_of(body@, m@)),
        parsed matches Err(reason) ==> fails_with(
            of_parsed,
            502,
            "upstream returned non-SSE websocket response: "@ + reason@,
        ),
{
    let why = "upstream returned non-SSE websocket response: "@;
    if let Err(reason) = json_parsed_bytes(body@) {
        lemma_own_errors(502, why + reason);
    }
    if let Err(reason) = parsed {
        lemma_own_errors(502, why + reason@);
    }
    lemma_lossy(body@);
}

/// A streamed success is answered with the messages of all its pieces, in order,
/// or with the first reason why one could not be read.
pub proof fn law_streamed_outcome(batches: Vec<Batch>, r: Result<Vec<String>, WsFrameError>)
    requires
        call_ensures(outcome_to_messages, (ReceivedOutcome::Stream { batches },), r),
    ensures
        none_failed(batches@) ==> (r matches Ok(out) && views(out@) == all_messages(batches@)),
        forall|n: int| #[trigger]
            is_first_failure(batches@, n) ==> fails_with(r, 502, batches@[n]->Err_0@),
{
    lemma_batches(batches@);
    if let Ok(out) = r {
        lemma_views(out@);
    }
    assert forall|n: int| #[trigger] is_first_failure(batches@, n) implies fails_with(
        r,
        502,
        batches@[n]->Err_0@,
    ) by {
        lemma_own_errors(502, batches@[n]->Err_0@);
    }
}

/// A buffered success is answered alike; where it holds no messages but a body,
/// the body itself is the message where it is JSON, and refused where it is not.
pub proof fn law_buffered_outcome(
    body: Vec<u8>,
    batches: Vec<Batch>,
    r: Result<Vec<String>, WsFrameError>,
)
    requires
        call_ensures(outcome_to_messages, (ReceivedOutcome::Full { body, batches },), r),
    ensures
        none_failed(batches@) && (all_messages(batches@).len() > 0 || body@.len() == 0) ==> (
        r matches Ok(out) && views(out@) == all_messages(batches@)),
        none_failed(batches@) && all_messages(batches@).len() == 0 && body@.len() > 0 ==> match json_parsed_bytes(
            body@,
        ) {
            Ok(_) => r matches Ok(out) && out@.len() == 1 && encode_utf8(out@[0]@) == body@,
            Err(reason) => fails_with(
                r,
                502,
                "upstream returned non-SSE websocket response: "@ + reason,
            ),
        },
        forall|n: int| #[trigger]
            is_first_failure(batches@, n) ==> fails_with(r, 502, batches@[n]->Err_0@),
{
    lemma_batches(batches@);
    if all_messages(batches@).len() == 0 {
        assert(all_messages(batches@) =~= Seq::empty());
    }
    if let Ok(out) = r {
        lemma_views(out@);
    }
    if let Err(reason) = json_parsed_bytes(body@) {
        lemma_own_errors(502, "upstream returned non-SSE websocket response: "@ + reason);
    }
    assert forall|n: int| #[trigger] is_first_failure(batches@, n) implies fails_with(
        r,
        502,
        batches@[n]->Err_0@,
    ) by {
        lemma_own_errors(502, batches@[n]->Err_0@);
    }
}

/// A status other than success is answered with one message. It says the error
/// that the whole body speaks of, with the status, and repeats the headers. The
/// first piece that did not arrive is an error with its reason.
pub proof fn law_failed_outcome(
    status: u16,
    headers: HeaderMap,
    chunks: Vec<Chunk>,
    r: Result<Vec<String>, WsFrameError>,
)
    requires
        call_ensures(
            outcome_to_messages,
            (ReceivedOutcome::Failure { status, headers, chunks },),
            r,
        ),
    ensures
        none_failed(chunks@) ==> (r matches Ok(out) && out@.len() == 1 && exists|text: Seq<char>|
            is_text_of(all_bytes(chunks@), text) && #[trigger] says_error(
                out@[0]@,
                status,
                text,
                None,
                header_fields(headers),
            )),
        forall|n: int| #[trigger]
            is_first_failure(chunks@, n) ==> fails_with(r, 502, chunks@[n]->Err_0@),
{
    lemma_chunks(chunks@);
    if none_failed(chunks@) {
        let text = lossy_text(all_bytes(chunks@));
        let fields = header_fields(headers);
        let error = error_model(text, json_parsed(text));
        lemma_lossy(all_bytes(chunks@));
        lemma_error_model(text, json_parsed(text));
        lemma_frame_says(status, text, error, None, fields);
        let out = r->Ok_0;
        assert(texts(out@).len() == out@.len());
        assert(texts(out@)[0] == out@[0]@);
        assert(says_error(out@[0]@, status, text, None, fields));
    }
    assert forall|n: int| #[trigger] is_first_failure(chunks@, n) implies fails_with(
        r,
        502,
        chunks@[n]->Err_0@,
    ) by {
        lemma_own_errors(502, chunks@[n]->Err_0@);
    }
}

/// What is sent is the messages, or the one message that says the error in their
/// place.
pub proof fn law_messages_or_error(result: Result<Vec<String>, WsFrameError>, r: Vec<String>)
    requires
        call_ensures(messages_or_error, (result,), r),
    ensures
        result matches Ok(messages) ==> views(r@) == views(messages@),
        result matches Err(e) ==> r@.len() == 1 && says_error(
            r@[0]@,
            e.status,
            e.body@,
            e.retry_after_secs,
            header_fields(e.headers),
        ),
{
    if let Err(e) = result {
        lemma_error_model(e.body@, json_parsed(e.body@));
        lemma_frame_says(
            e.status,
            e.body@,
            error_model(e.body@, json_parsed(e.body@)),
            e.retry_after_secs,
            header_fields(e.headers),
        );
        assert(texts(r@).len() == r@.len());
        assert(texts(r@)[0] == r@[0]@);
    }
}

/// Whether a piece of a success arrived and could be read.
pub open spec fn is_readable(arrival: Arrival) -> bool {
    arrival matches Ok((_, batch)) && batch is Ok
}

/// Why a piece of a success did not arrive or could not be read.
pub open spec fn trouble(arrival: Arrival) -> Seq<char> {
    match arrival {
        Ok((_, batch)) => batch->Err_0@,
        Err(reason) => reason@,
    }
}

/// Whether what decoding gave is kept as it has to be: that of each piece in
/// order, up to the first piece that did not arrive or could not be read, or
/// where there is none, to the end and with what the decoder still held.
pub open spec fn keeps_decoded(
    run: Run,
    kept: Seq<Batch>,
    arrivals: Seq<Arrival>,
    flushed: Batch,
) -> bool {
    &&& forall|i: int|
        0 <= i < arrivals.len() && is_readable(#[trigger] arrivals[i]) && i < kept.len() ==> kept[i]
            == arrivals[i]->Ok_0.1
    &&& (forall|i: int| 0 <= i < arrivals.len() ==> is_readable(#[trigger] arrivals[i])) ==> {
        &&& run.complete && run.read == arrivals.len()
        &&& kept.len() == arrivals.len() + 1 && kept.last() == flushed
    }
    &&& forall|n: int|
        0 <= n < arrivals.len() && !is_readable(arrivals[n]) && (forall|i: int|
            0 <= i < n ==> is_readable(#[trigger] arrivals[i])) ==> {
            &&& !run.complete && run.read == n + 1 && kept.len() == n + 1
            &&& kept.last() matches Err(reason) && reason@ == #[trigger] trouble(arrivals[n])
        }
}

proof fn lemma_end_to_end_push<T>(runs: Seq<Seq<T>>, last: Seq<T>)
    ensures
        end_to_end(runs.push(last)) == end_to_end(runs) + last,
    decreases runs.len(),
{
    if runs.len() == 0 {
        assert(runs.push(last).drop_first() =~= Seq::empty());
        assert(end_to_end(runs.push(last).drop_first()) =~= Seq::empty());
        assert(end_to_end(runs.push(last)) =~= last);
        assert(end_to_end(runs) + last =~= last);
    } else {
        lemma_end_to_end_push(runs.drop_first(), last);
        assert(runs.push(last).drop_first() =~= runs.drop_first().push(last));
        assert(end_to_end(runs.push(last)) =~= end_to_end(runs) + last);
    }
}

/// The bytes of a piece that arrived.
pub open spec fn arrived_bytes(arrival: Arrival) -> Seq<u8> {
    match arrival {
        Ok((bytes, _)) => bytes@,
        Err(_) => Seq::empty(),
    }
}

proof fn lemma_bytes_of(arrivals: Seq<Arrival>)
    ensures
        bytes_of(arrivals) == end_to_end(
            Seq::new(arrivals.len(), |i: int| arrived_bytes(arrivals[i])),
        ),
    decreases arrivals.len(),
{
    let all = Seq::new(arrivals.len(), |i: int| arrived_bytes(arrivals[i]));
    if arrivals.len() > 0 {
        let front = arrivals.drop_last();
        let some = Seq::new(front.len(), |i: int| arrived_bytes(front[i]));
        lemma_bytes_of(front);
        assert(all =~= some.push(arrived_bytes(arrivals.last())));
        lemma_end_to_end_push(some, arrived_bytes(arrivals.last()));
    }
}

/// The reception of a streamed success keeps what decoding gave, and that of a
/// buffered one keeps the bytes of the pieces that it read too.
pub proof fn law_received_success(
    status: u16,
    headers: HeaderMap,
    streamed: bool,
    arrivals: Vec<Arrival>,
    flushed: Batch,
    run: Run,
)
    requires
        call_ensures(receive_all, (status, headers, streamed, arrivals, flushed), run),
        200 <= status <= 299,
    ensures
        streamed ==> (run.outcome matches ReceivedOutcome::Stream { batches } && keeps_decoded(
            run,
            batches@,
            arrivals@,
            flushed,
        )),
        !streamed ==> (run.outcome matches ReceivedOutcome::Full { body, batches }
            && keeps_decoded(run, batches@, arrivals@, flushed) && body@ == end_to_end(
            Seq::new(run.read as nat, |i: int| arrived_bytes(arrivals@[i])),
        )),
{
    let kind = kind_of(status, streamed);
    let all = arrivals@;
    let read = all.take(run.read as int);
    lemma_bytes_of(read);
    assert(Seq::new(read.len(), |i: int| arrived_bytes(read[i])) =~= Seq::new(
        run.read as nat,
        |i: int| arrived_bytes(all[i]),
    ));
    assert(forall|i: int|
        0 <= i < all.len() ==> is_readable(#[trigger] all[i]) == reads_on(kind, all[i]));
    if !run.complete {
        assert(!is_readable(all[run.read - 1]));
    }
    let kept = match run.outcome {
        ReceivedOutcome::Stream { batches } => batches@,
        ReceivedOutcome::Full { body, batches } => batches@,
        _ => Seq::empty(),
    };
    assert forall|n: int|
        0 <= n < all.len() && !is_readable(all[n]) && (forall|i: int|
            0 <= i < n ==> is_readable(#[trigger] all[i])) implies {
        &&& !run.complete && run.read == n + 1 && kept.len() == n + 1
        &&& kept.last() matches Err(reason) && reason@ == #[trigger] trouble(all[n])
    } by {
        if run.complete {
            assert(reads_on(kind, all[n]));
        } else if n < run.read - 1 {
            assert(reads_on(kind, all[n]));
        } else if n > run.read - 1 {
            assert(is_readable(all[run.read - 1]));
        }
        assert(kept.last() == batch_of(all[n]));
    }
}

/// The reception of any other status keeps the pieces as they arrived, up to the
/// first that did not, and decodes nothing.
pub proof fn law_received_failure(
    status: u16,
    headers: HeaderMap,
    streamed: bool,
    arrivals: Vec<Arrival>,
    flushed: Batch,
    run: Run,
)
    requires
        call_ensures(receive_all, (status, headers, streamed, arrivals, flushed), run),
        !(200 <= status <= 299),
    ensures
        run.outcome matches ReceivedOutcome::Failure { status: s, headers: h, chunks } && {
            &&& s == status && h == headers && chunks@.len() == run.read && run.read
                <= arrivals@.len()
            &&& forall|i: int| #![trigger chunks@[i]]
                0 <= i < chunks@.len() ==> match arrivals@[i] {
                    Ok((bytes, _)) => chunks@[i] == Chunk::Ok(bytes),
                    Err(reason) => chunks@[i] == Chunk::Err(reason) && i == run.read - 1,
                }
            &&& run.read < arrivals@.len() ==> run.read > 0 && arrivals@[run.read - 1] is Err
        },
{
    let kind = kind_of(status, streamed);
    let all = arrivals@;
    if let ReceivedOutcome::Failure { status: s, headers: h, chunks } = run.outcome {
        assert forall|i: int| #![trigger chunks@[i]] 0 <= i < chunks@.len() implies match all[i] {
            Ok((bytes, _)) => chunks@[i] == Chunk::Ok(bytes),
            Err(reason) => chunks@[i] == Chunk::Err(reason) && i == run.read - 1,
        } by {
            assert(chunks@[i] == chunk_of(all[i]));
            if i < run.read - 1 {
                assert(reads_on(kind, all[i]));
            }
        }
    }
}

/// A reception starts with nothing, and ends with what it holds: the pieces of a
/// failure, what decoding a success gave, and the body of a buffered success.
pub proof fn law_reception_ends(
    status: u16,
    headers: HeaderMap,
    streamed: bool,
    fresh: Reception,
    held: Reception,
    outcome: ReceivedOutcome,
)
    requires
        call_ensures(Reception::new, (status, headers, streamed), fresh),
        call_ensures(Reception::into_outcome, (held,), outcome),
    ensures
        fresh.status == status && fresh.headers == headers && fresh.streamed == streamed,
        fresh.body@.len() == 0 && fresh.chunks@.len() == 0 && fresh.batches@.len() == 0,
        !(200 <= held.status <= 299) ==> outcome == (ReceivedOutcome::Failure {
            status: held.status,
            headers: held.headers,
            chunks: held.chunks,
        }),
        200 <= held.status <= 299 && !held.streamed ==> outcome == (ReceivedOutcome::Full {
            body: held.body,
            batches: held.batches,
        }),
        200 <= held.status <= 299 && held.streamed ==> outcome == (ReceivedOutcome::Stream {
            batches: held.batches,
        }),
{
}

/// Whether a reception is another, but for what it holds.
pub open spec fn same_reception(a: Reception, b: Reception) -> bool {
    a.status == b.status && a.headers == b.headers && a.streamed == b.streamed
}

/// A piece of a failure is kept, and reading goes on unless it did not arrive. A
/// piece of a success is decoded; one that did not arrive ends the reception. The
/// end of a body flushes the decoder of a success, and completes a failure.
pub proof fn law_piece_taken(reception: &mut Reception, piece: Option<Chunk>, r: Demand)
    requires
        call_ensures(Reception::on_piece, (reception, piece), r),
    ensures
        ({
            let a = *old(reception);
            let b = *final(reception);
            let success = 200 <= a.status <= 299;
            &&& same_reception(a, b)
            &&& piece is None ==> a == b && (success ==> r is Flush) && (!success ==> r is Done)
            &&& piece matches Some(chunk) ==> !success ==> {
                &&& b.chunks@ == a.chunks@.push(chunk) && b.batches == a.batches && b.body == a.body
                &&& chunk is Ok ==> r is Piece
                &&& chunk is Err ==> r is Done
            }
            &&& piece matches Some(Ok(bytes)) ==> success ==> {
                &&& r matches Demand::Decode(out) && out@ == bytes@
                &&& b.chunks == a.chunks && b.batches == a.batches
                &&& a.streamed ==> b.body@ == a.body@
                &&& !a.streamed ==> b.body@ == a.body@ + bytes@
            }
            &&& piece matches Some(Err(reason)) ==> success ==> {
                &&& r is Done
                &&& b.batches@ == a.batches@.push(Batch::Err(reason))
                &&& b.chunks == a.chunks && b.body == a.body
            }
        }),
{
}

/// What decoding gave is kept. Reading goes on behind a piece that could be read,
/// and ends behind one that could not or behind the flush.
pub proof fn law_batch_taken(reception: &mut Reception, batch: Batch, r: Demand)
    requires
        call_ensures(Reception::on_decoded, (reception, batch), r),
    ensures
        ({
            let a = *old(reception);
            let b = *final(reception);
            &&& same_reception(a, b) && b.body == a.body && b.chunks == a.chunks
            &&& b.batches@ == a.batches@.push(batch)
            &&& batch is Ok ==> r is Piece
            &&& batch is Err ==> r is Done
        }),
{
}

/// What the decoder still held is kept, and completes the reception.
pub proof fn law_flush_taken(reception: &mut Reception, batch: Batch, r: Demand)
    requires
        call_ensures(Reception::on_flushed, (reception, batch), r),
    ensures
        ({
            let a = *old(reception);
            let b = *final(reception);
            &&& same_reception(a, b) && b.body == a.body && b.chunks == a.chunks
            &&& b.batches@ == a.batches@.push(batch)
            &&& r is Done
        }),
{
}

} // verus!
