use gproxy::reception::{receive_all, Arrival, Demand, Reception};
use gproxy::responses_ws::{collect_batches, outcome_to_messages, Batch, Chunk, ReceivedOutcome};
use http::{HeaderMap, HeaderValue};

/// Receives an outcome, with a decoder that answers from a list. Says how many
/// pieces were read and whether the decoder was flushed.
fn receive(
    status: u16,
    streamed: bool,
    pieces: Vec<Chunk>,
    decoded: Vec<Batch>,
    flushed: Batch,
) -> (ReceivedOutcome, usize, bool) {
    let mut headers = HeaderMap::new();
    headers.insert("x-a", HeaderValue::from_static("1"));
    let mut reception = Reception::new(status, headers, streamed);
    let mut pieces = pieces.into_iter();
    let mut decoded = decoded.into_iter();
    let mut read = 0;
    let mut flush = false;
    let mut demand = Demand::Piece;
    loop {
        demand = match demand {
            Demand::Piece => {
                let piece = pieces.next();
                if piece.is_some() {
                    read += 1;
                }
                reception.on_piece(piece)
            }
            Demand::Decode(_) => reception.on_decoded(decoded.next().unwrap()),
            Demand::Flush => {
                flush = true;
                reception.on_flushed(flushed.clone())
            }
            Demand::Done => return (reception.into_outcome(), read, flush),
        };
    }
}

fn message(text: &str) -> Batch {
    Ok(vec![text.to_string()])
}

#[test]
fn failure_is_kept_as_it_arrives() {
    let pieces = vec![Ok(b"ab".to_vec()), Ok(b"c".to_vec())];
    let (outcome, read, flush) = receive(500, true, pieces.clone(), vec![], message("no"));
    assert_eq!((read, flush), (2, false));
    match outcome {
        ReceivedOutcome::Failure {
            status,
            headers,
            chunks,
        } => {
            assert_eq!(status, 500);
            assert_eq!(headers.get("x-a").unwrap(), "1");
            assert_eq!(chunks, pieces);
        }
        _ => panic!("the status was no success"),
    }
}

#[test]
fn failure_that_breaks_off_is_read_no_further() {
    let pieces = vec![Ok(vec![1]), Err("reset".to_string()), Ok(vec![2])];
    let (outcome, read, flush) = receive(404, true, pieces, vec![], message("no"));
    assert_eq!((read, flush), (2, false));
    match outcome {
        ReceivedOutcome::Failure { chunks, .. } => {
            assert_eq!(chunks, vec![Ok(vec![1]), Err("reset".to_string())]);
        }
        _ => panic!("the status was no success"),
    }
}

#[test]
fn buffered_success_keeps_its_body_and_is_flushed() {
    let (outcome, read, flush) = receive(
        200,
        false,
        vec![Ok(b"body".to_vec())],
        vec![message("a")],
        message("b"),
    );
    assert_eq!((read, flush), (1, true));
    match outcome {
        ReceivedOutcome::Full { body, batches } => {
            assert_eq!(body, b"body");
            assert_eq!(batches, vec![message("a"), message("b")]);
        }
        _ => panic!("the outcome was buffered"),
    }
}

#[test]
fn unreadable_buffered_success_is_not_flushed() {
    let (outcome, _, flush) = receive(
        200,
        false,
        vec![Ok(b"body".to_vec())],
        vec![Err("bad".to_string())],
        message("b"),
    );
    assert!(!flush);
    assert_eq!(outcome_to_messages(outcome).err().unwrap().status, 502);
}

#[test]
fn streamed_success_is_decoded_to_its_end() {
    let (outcome, read, flush) = receive(
        201,
        true,
        vec![Ok(vec![1]), Ok(vec![2])],
        vec![message("a"), message("b")],
        message("c"),
    );
    assert_eq!((read, flush), (2, true));
    assert_eq!(outcome_to_messages(outcome).unwrap(), vec!["a", "b", "c"]);
}

#[test]
fn streamed_success_ends_at_the_first_failure() {
    let pieces = vec![Ok(vec![1]), Err("reset".to_string()), Ok(vec![2])];
    let (outcome, read, flush) = receive(200, true, pieces, vec![message("a")], message("c"));
    assert_eq!((read, flush), (2, false));
    let pieces = vec![Ok(vec![1]), Ok(vec![2]), Ok(vec![3])];
    let decoded = vec![message("a"), Err("reset".to_string())];
    let (other, read, flush) = receive(200, true, pieces, decoded, message("c"));
    assert_eq!((read, flush), (2, false));
    for outcome in [outcome, other] {
        match outcome {
            ReceivedOutcome::Stream { batches } => {
                assert_eq!(batches, vec![message("a"), Err("reset".to_string())]);
                let mut more = batches.clone();
                more.push(message("later"));
                assert_eq!(
                    collect_batches(&batches).err().unwrap().body,
                    collect_batches(&more).err().unwrap().body
                );
            }
            _ => panic!("the outcome was streamed"),
        }
    }
}

fn arrival(bytes: &[u8], batch: Batch) -> Arrival {
    Ok((bytes.to_vec(), batch))
}

#[test]
fn whole_stream_is_received_and_flushed() {
    let arrivals = vec![arrival(b"1", message("a")), arrival(b"2", Ok(vec![]))];
    let run = receive_all(200, HeaderMap::new(), true, arrivals, message("b"));
    assert_eq!((run.read, run.complete), (2, true));
    assert_eq!(outcome_to_messages(run.outcome).unwrap(), vec!["a", "b"]);
}

#[test]
fn whole_buffered_body_is_kept() {
    let arrivals = vec![arrival(b"{\"a\"", Ok(vec![])), arrival(b":1}", Ok(vec![]))];
    let run = receive_all(200, HeaderMap::new(), false, arrivals, Ok(vec![]));
    assert_eq!((run.read, run.complete), (2, true));
    assert_eq!(outcome_to_messages(run.outcome).unwrap(), vec!["{\"a\":1}"]);
}

#[test]
fn reception_ends_at_a_piece_that_failed() {
    for failed in [Err("x".to_string()), arrival(b"2", Err("x".to_string()))] {
        let arrivals = vec![
            arrival(b"1", message("a")),
            failed,
            arrival(b"3", message("c")),
        ];
        let run = receive_all(200, HeaderMap::new(), true, arrivals, message("d"));
        assert_eq!((run.read, run.complete), (2, false));
        let all = vec![
            message("a"),
            Err("x".to_string()),
            message("c"),
            message("d"),
        ];
        assert_eq!(
            outcome_to_messages(run.outcome).err().unwrap().body,
            collect_batches(&all).err().unwrap().body
        );
    }
}

#[test]
fn failure_is_received_without_decoding() {
    let arrivals = vec![
        arrival(b"no", Err("not looked at".to_string())),
        arrival(b"pe", message("nor this")),
    ];
    let run = receive_all(500, HeaderMap::new(), true, arrivals, message("d"));
    assert_eq!((run.read, run.complete), (2, true));
    let frames = outcome_to_messages(run.outcome).unwrap();
    assert_eq!(frames.len(), 1);
    assert!(frames[0].contains("\"message\":\"nope\""), "{}", frames[0]);
}

#[test]
fn empty_body_is_complete_at_once() {
    let run = receive_all(200, HeaderMap::new(), true, vec![], message("a"));
    assert_eq!((run.read, run.complete), (0, true));
    assert_eq!(outcome_to_messages(run.outcome).unwrap(), vec!["a"]);
}
