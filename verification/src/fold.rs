//! Going through pieces one by one, up to the first that fails.

use vstd::prelude::*;

verus! {

/// What a step makes of some pieces in order, or the first failure.
pub open spec fn folded<S, X, E>(
    start: S,
    step: spec_fn(S, X) -> Result<S, E>,
    pieces: Seq<X>,
) -> Result<S, E>
    decreases pieces.len(),
{
    if pieces.len() == 0 {
        Ok(start)
    } else {
        match folded(start, step, pieces.drop_last()) {
            Err(failure) => Err(failure),
            Ok(state) => step(state, pieces.last()),
        }
    }
}

/// The step that appends a piece to those before it.
pub open spec fn appending<T, E>() -> spec_fn(Seq<T>, Result<Seq<T>, E>) -> Result<Seq<T>, E> {
    |before: Seq<T>, piece: Result<Seq<T>, E>|
        match piece {
            Err(failure) => Err(failure),
            Ok(more) => Ok(before + more),
        }
}

/// Some pieces in order, or the first failure among them.
pub open spec fn joined<T, E>(pieces: Seq<Result<Seq<T>, E>>) -> Result<Seq<T>, E> {
    folded(Seq::empty(), appending(), pieces)
}

/// The first failure decides, whatever follows it.
pub proof fn law_first_failure_decides<S, X, E>(
    start: S,
    step: spec_fn(S, X) -> Result<S, E>,
    pieces: Seq<X>,
    n: int,
)
    requires
        0 <= n <= pieces.len(),
        folded(start, step, pieces.take(n)) is Err,
    ensures
        folded(start, step, pieces) == folded(start, step, pieces.take(n)),
    decreases pieces.len(),
{
    if n == pieces.len() {
        assert(pieces.take(n) =~= pieces);
    } else {
        assert(pieces.drop_last().take(n) =~= pieces.take(n));
        law_first_failure_decides(start, step, pieces.drop_last(), n);
    }
}

/// Whatever follows a piece that failed need not be looked at.
pub proof fn law_failed_piece_ends<T, E>(pieces: Seq<Result<Seq<T>, E>>, n: int)
    requires
        0 <= n < pieces.len(),
        pieces[n] is Err,
    ensures
        joined(pieces) == joined(pieces.take(n + 1)),
        joined(pieces) is Err,
{
    lemma_joined_push(pieces, n);
    law_first_failure_decides(Seq::empty(), appending(), pieces, n + 1);
}

/// A piece joins behind those before it.
pub proof fn lemma_joined_push<T, E>(pieces: Seq<Result<Seq<T>, E>>, n: int)
    requires
        0 <= n < pieces.len(),
    ensures
        joined(pieces.take(n + 1)) == match joined(pieces.take(n)) {
            Err(failure) => Err(failure),
            Ok(before) => match pieces[n] {
                Err(failure) => Err(failure),
                Ok(more) => Ok(before + more),
            },
        },
{
    assert(pieces.take(n + 1).drop_last() =~= pieces.take(n));
    assert(pieces.take(n + 1).last() == pieces[n]);
}

/// Pieces join from the front as from the back.
pub proof fn lemma_joined_from_front<T, E>(pieces: Seq<Result<Seq<T>, E>>)
    requires
        pieces.len() > 0,
    ensures
        joined(pieces) == match pieces[0] {
            Err(failure) => Err(failure),
            Ok(first) => match joined(pieces.drop_first()) {
                Err(failure) => Err(failure),
                Ok(rest) => Ok(first + rest),
            },
        },
    decreases pieces.len(),
{
    let front = pieces.drop_last();
    let empty = Seq::<T>::empty();
    if front.len() == 0 {
        assert(joined(front) == Result::<Seq<T>, E>::Ok(empty));
        assert(joined(pieces.drop_first()) == Result::<Seq<T>, E>::Ok(empty));
        if let Ok(first) = pieces[0] {
            assert(empty + first =~= first);
            assert(first + empty =~= first);
        }
    } else {
        lemma_joined_from_front(front);
        assert(front.drop_first() =~= pieces.drop_first().drop_last());
        if let (Ok(first), Ok(last)) = (pieces[0], pieces.last()) {
            if let Ok(middle) = joined(front.drop_first()) {
                assert((first + middle) + last =~= first + (middle + last));
            }
        }
    }
}

} // verus!
