//! The choice, among the legal moves of a position, of the move that a
//! record or a player means.
//!
//! A record names a move by the kind of the piece and its destination, and
//! tells the file or the rank of its origin where that is needed to tell it
//! from another move. A legal move is given here as its origin and its
//! destination, and the choice as its place in the list of legal moves.

use crate::play::board::Square;
use crate::play::outcome::ChessOutcome;
use vstd::prelude::*;

verus! {

/// A legal move: its origin and its destination.
pub type Step = (Square, Square);

/// Why a move is not made.
#[derive(PartialEq, Eq, Debug, Copy, Clone, Structural)]
pub enum MoveError {
    /// The side to move has no piece on the square that the move starts
    /// from.
    NoPieceOnSource,
    /// The move ends where it starts.
    NoMovement,
    /// The game has ended.
    GameEnded,
    /// No legal move is the move that is meant.
    NotPossible,
}

impl MoveError {
    /// The words in which the refusal is told.
    pub open spec fn spec_message(self) -> Seq<char> {
        match self {
            MoveError::NoPieceOnSource => "The playing player has no piece on the source square!"@,
            MoveError::NoMovement => "Move does not actually move"@,
            MoveError::GameEnded => "Can't do move since the game has already ended."@,
            MoveError::NotPossible => "Move not found as possibility"@,
        }
    }

    /// The words in which the refusal is told.
    pub fn message(&self) -> (text: &'static str)
        ensures
            text@ == self.spec_message(),
    {
        match self {
            MoveError::NoPieceOnSource => "The playing player has no piece on the source square!",
            MoveError::NoMovement => "Move does not actually move",
            MoveError::GameEnded => "Can't do move since the game has already ended.",
            MoveError::NotPossible => "Move not found as possibility",
        }
    }
}

/// What becomes of a move from `source` to `destination` that the side to
/// move asks for, whose pieces stand on `own_squares`: the place of the
/// legal move that is made, or why none is. The reasons are tried in the
/// order of `MoveError`.
pub open spec fn spec_move_piece(
    legal: Seq<Step>,
    own_squares: Seq<Square>,
    source: Square,
    destination: Square,
    outcome: Option<ChessOutcome>,
) -> Result<int, MoveError> {
    if !spec_holds(own_squares, source) {
        Err(MoveError::NoPieceOnSource)
    } else if source.spec_index() == destination.spec_index() {
        Err(MoveError::NoMovement)
    } else if outcome is Some {
        Err(MoveError::GameEnded)
    } else {
        match spec_find_step(legal, source, destination) {
            Some(i) => Ok(i),
            None => Err(MoveError::NotPossible),
        }
    }
}

/// What becomes of a move that a record names by a piece on one of
/// `piece_squares`, a destination and what it tells of the origin: the
/// place of the legal move that is made, or why none is.
pub open spec fn spec_move_piece_by_type(
    legal: Seq<Step>,
    piece_squares: Seq<Square>,
    destination: Square,
    src_col: Option<u8>,
    src_row: Option<u8>,
    outcome: Option<ChessOutcome>,
) -> Result<int, MoveError> {
    if outcome is Some {
        Err(MoveError::GameEnded)
    } else {
        match spec_select(
            legal,
            spec_candidates(legal, piece_squares, destination),
            src_col,
            src_row,
        ) {
            Some(i) => Ok(i),
            None => Err(MoveError::NotPossible),
        }
    }
}

/// Whether a square is among the squares of a list.
pub open spec fn spec_holds(squares: Seq<Square>, square: Square) -> bool {
    exists|i: int| 0 <= i < squares.len() && squares[i].spec_index() == square.spec_index()
}

/// Whether a legal move is a candidate: it starts from one of the squares
/// on which a piece of the kind stands, and ends on the destination.
pub open spec fn spec_is_candidate(step: Step, piece_squares: Seq<Square>, destination: Square) -> bool {
    spec_holds(piece_squares, step.0) && step.1.spec_index() == destination.spec_index()
}

/// The places of the candidates in the list of legal moves, in order.
pub open spec fn spec_candidates(
    legal: Seq<Step>,
    piece_squares: Seq<Square>,
    destination: Square,
) -> Seq<int>
    decreases legal.len(),
{
    if legal.len() == 0 {
        Seq::empty()
    } else {
        let before = spec_candidates(legal.drop_last(), piece_squares, destination);
        if spec_is_candidate(legal.last(), piece_squares, destination) {
            before.push(legal.len() - 1)
        } else {
            before
        }
    }
}

/// The first of the candidates that starts from the given file.
pub open spec fn spec_first_on_file(legal: Seq<Step>, candidates: Seq<int>, file: u8) -> Option<int>
    decreases candidates.len(),
{
    if candidates.len() == 0 {
        None
    } else if legal[candidates[0]].0.spec_x() == file {
        Some(candidates[0])
    } else {
        spec_first_on_file(legal, candidates.drop_first(), file)
    }
}

/// The first of the candidates that starts from the given rank.
pub open spec fn spec_first_on_rank(legal: Seq<Step>, candidates: Seq<int>, rank: u8) -> Option<int>
    decreases candidates.len(),
{
    if candidates.len() == 0 {
        None
    } else if legal[candidates[0]].0.spec_y() == rank {
        Some(candidates[0])
    } else {
        spec_first_on_rank(legal, candidates.drop_first(), rank)
    }
}

/// The candidate that is meant. A single candidate is the one. Among
/// several, it is the first that starts from the file that the record
/// tells, if it tells one and there is such a candidate; else the first
/// that starts from the rank that it tells. With no candidate, or none that
/// fits, no move is meant.
pub open spec fn spec_select(
    legal: Seq<Step>,
    candidates: Seq<int>,
    src_col: Option<u8>,
    src_row: Option<u8>,
) -> Option<int> {
    if candidates.len() == 0 {
        None
    } else if candidates.len() == 1 {
        Some(candidates[0])
    } else {
        let by_file = match src_col {
            Some(file) => spec_first_on_file(legal, candidates, file),
            None => None,
        };
        if by_file is Some {
            by_file
        } else {
            match src_row {
                Some(rank) => spec_first_on_rank(legal, candidates, rank),
                None => None,
            }
        }
    }
}

/// The place of the last legal move from `source` to `destination`.
pub open spec fn spec_find_step(legal: Seq<Step>, source: Square, destination: Square) -> Option<int>
    decreases legal.len(),
{
    if legal.len() == 0 {
        None
    } else if legal.last().0.spec_index() == source.spec_index() && legal.last().1.spec_index()
        == destination.spec_index() {
        Some(legal.len() - 1)
    } else {
        spec_find_step(legal.drop_last(), source, destination)
    }
}

/// Whether a square is among the squares of a list.
pub fn holds(squares: &Vec<Square>, square: Square) -> (found: bool)
    ensures
        found == spec_holds(squares@, square),
{
    let mut i: usize = 0;
    while i < squares.len()
        invariant
            i <= squares.len(),
            forall|j: int| 0 <= j < i ==> squares@[j].spec_index() != square.spec_index(),
        decreases squares.len() - i,
    {
        if squares[i].index() == square.index() {
            return true;
        }
        i += 1;
    }
    false
}

/// The places of the candidates in the list of legal moves, in order: the
/// moves that start from one of `piece_squares` and end on `destination`.
pub fn candidates(legal: &Vec<Step>, piece_squares: &Vec<Square>, destination: Square) -> (found:
    Vec<usize>)
    ensures
        found@.map_values(|i: usize| i as int) == spec_candidates(
            legal@,
            piece_squares@,
            destination,
        ),
        forall|k: int| 0 <= k < found@.len() ==> found@[k] < legal@.len(),
{
    let mut found: Vec<usize> = Vec::new();
    let mut i: usize = 0;
    proof {
        assert(legal@.take(0) =~= Seq::<Step>::empty());
        assert(found@.map_values(|i: usize| i as int) =~= Seq::<int>::empty());
    }
    while i < legal.len()
        invariant
            i <= legal.len(),
            found@.map_values(|i: usize| i as int) == spec_candidates(
                legal@.take(i as int),
                piece_squares@,
                destination,
            ),
            forall|k: int| 0 <= k < found@.len() ==> found@[k] < legal@.len(),
        decreases legal.len() - i,
    {
        let ghost before = found@;
        proof {
            assert(legal@.take(i + 1).drop_last() =~= legal@.take(i as int));
            assert(legal@.take(i + 1).last() == legal@[i as int]);
        }
        if holds(piece_squares, legal[i].0) && legal[i].1.index() == destination.index() {
            found.push(i);
            proof {
                assert(found@.map_values(|i: usize| i as int) =~= before.map_values(
                    |i: usize| i as int,
                ).push(i as int));
            }
        }
        i += 1;
    }
    proof {
        assert(legal@.take(legal@.len() as int) =~= legal@);
    }
    found
}

/// The first of the candidates that starts from the given file.
pub fn first_on_file(legal: &Vec<Step>, candidates: &Vec<usize>, file: u8) -> (r: Option<usize>)
    requires
        forall|k: int| 0 <= k < candidates@.len() ==> candidates@[k] < legal@.len(),
    ensures
        match r {
            Some(i) => spec_first_on_file(legal@, candidates@.map_values(|i: usize| i as int), file) == Some(i as int) && i < legal@.len(),
            None => spec_first_on_file(legal@, candidates@.map_values(|i: usize| i as int), file) is None,
        },
{
    let ghost all = candidates@.map_values(|i: usize| i as int);
    let mut k: usize = 0;
    proof {
        assert(all.skip(0) =~= all);
    }
    while k < candidates.len()
        invariant
            k <= candidates.len(),
            all == candidates@.map_values(|i: usize| i as int),
            forall|j: int| 0 <= j < candidates@.len() ==> candidates@[j] < legal@.len(),
            spec_first_on_file(legal@, all, file) == spec_first_on_file(
                legal@,
                all.skip(k as int),
                file,
            ),
        decreases candidates.len() - k,
    {
        proof {
            assert(all.skip(k as int)[0] == candidates@[k as int] as int);
            assert(all.skip(k as int).drop_first() =~= all.skip(k + 1));
        }
        if legal[candidates[k]].0.x() == file {
            return Some(candidates[k]);
        }
        k += 1;
    }
    proof {
        assert(all.skip(k as int).len() == 0);
    }
    None
}

/// The first of the candidates that starts from the given rank.
pub fn first_on_rank(legal: &Vec<Step>, candidates: &Vec<usize>, rank: u8) -> (r: Option<usize>)
    requires
        forall|k: int| 0 <= k < candidates@.len() ==> candidates@[k] < legal@.len(),
    ensures
        match r {
            Some(i) => spec_first_on_rank(legal@, candidates@.map_values(|i: usize| i as int), rank) == Some(i as int) && i < legal@.len(),
            None => spec_first_on_rank(legal@, candidates@.map_values(|i: usize| i as int), rank) is None,
        },
{
    let ghost all = candidates@.map_values(|i: usize| i as int);
    let mut k: usize = 0;
    proof {
        assert(all.skip(0) =~= all);
    }
    while k < candidates.len()
        invariant
            k <= candidates.len(),
            all == candidates@.map_values(|i: usize| i as int),
            forall|j: int| 0 <= j < candidates@.len() ==> candidates@[j] < legal@.len(),
            spec_first_on_rank(legal@, all, rank) == spec_first_on_rank(
                legal@,
                all.skip(k as int),
                rank,
            ),
        decreases candidates.len() - k,
    {
        proof {
            assert(all.skip(k as int)[0] == candidates@[k as int] as int);
            assert(all.skip(k as int).drop_first() =~= all.skip(k + 1));
        }
        if legal[candidates[k]].0.y() == rank {
            return Some(candidates[k]);
        }
        k += 1;
    }
    proof {
        assert(all.skip(k as int).len() == 0);
    }
    None
}

/// The place, in the list of legal moves, of the move that a record means
/// by a piece on one of `piece_squares`, a destination and what it tells of
/// the origin; `None` where no legal move fits.
pub fn select_move(
    legal: &Vec<Step>,
    piece_squares: &Vec<Square>,
    destination: Square,
    src_col: Option<u8>,
    src_row: Option<u8>,
) -> (r: Option<usize>)
    ensures
        match r {
            Some(i) => spec_select(
            legal@,
            spec_candidates(legal@, piece_squares@, destination),
            src_col,
            src_row,
        ) == Some(i as int) && i < legal@.len(),
            None => spec_select(
            legal@,
            spec_candidates(legal@, piece_squares@, destination),
            src_col,
            src_row,
        ) is None,
        },
{
    let found = candidates(legal, piece_squares, destination);
    let ghost all = found@.map_values(|i: usize| i as int);
    if found.len() == 0 {
        return None;
    }
    if found.len() == 1 {
        assert(all[0] == found@[0] as int);
        return Some(found[0]);
    }
    if let Some(file) = src_col {
        if let Some(i) = first_on_file(legal, &found, file) {
            return Some(i);
        }
    }
    if let Some(rank) = src_row {
        return first_on_rank(legal, &found, rank);
    }
    None
}

/// The place, in the list of legal moves, of the last move from `source`
/// to `destination`; `None` where there is none.
pub fn find_step(legal: &Vec<Step>, source: Square, destination: Square) -> (r: Option<usize>)
    ensures
        match r {
            Some(i) => spec_find_step(legal@, source, destination) == Some(i as int) && i < legal@.len(),
            None => spec_find_step(legal@, source, destination) is None,
        },
{
    let mut i: usize = legal.len();
    proof {
        assert(legal@.take(i as int) =~= legal@);
    }
    while i > 0
        invariant
            i <= legal.len(),
            spec_find_step(legal@, source, destination) == spec_find_step(
                legal@.take(i as int),
                source,
                destination,
            ),
        decreases i,
    {
        proof {
            assert(legal@.take(i as int).last() == legal@[i - 1]);
            assert(legal@.take(i as int).drop_last() =~= legal@.take(i - 1));
        }
        i -= 1;
        if legal[i].0.index() == source.index() && legal[i].1.index() == destination.index() {
            return Some(i);
        }
    }
    None
}

/// The place, in the list of legal moves, of the move from `source` to
/// `destination` that the side to move makes, or why it makes none.
pub fn move_piece(
    legal: &Vec<Step>,
    own_squares: &Vec<Square>,
    source: Square,
    destination: Square,
    outcome: Option<ChessOutcome>,
) -> (r: Result<usize, MoveError>)
    ensures
        match r {
            Ok(i) => spec_move_piece(legal@, own_squares@, source, destination, outcome) == Ok::<
                int,
                MoveError,
            >(i as int) && i < legal@.len(),
            Err(e) => spec_move_piece(legal@, own_squares@, source, destination, outcome) == Err::<
                int,
                MoveError,
            >(e),
        },
{
    if !holds(own_squares, source) {
        return Err(MoveError::NoPieceOnSource);
    }
    if source.index() == destination.index() {
        return Err(MoveError::NoMovement);
    }
    if outcome.is_some() {
        return Err(MoveError::GameEnded);
    }
    match find_step(legal, source, destination) {
        Some(i) => Ok(i),
        None => Err(MoveError::NotPossible),
    }
}

/// The place, in the list of legal moves, of the move that a record names,
/// or why none is made.
pub fn move_piece_by_type(
    legal: &Vec<Step>,
    piece_squares: &Vec<Square>,
    destination: Square,
    src_col: Option<u8>,
    src_row: Option<u8>,
    outcome: Option<ChessOutcome>,
) -> (r: Result<usize, MoveError>)
    ensures
        match r {
            Ok(i) => spec_move_piece_by_type(
                legal@,
                piece_squares@,
                destination,
                src_col,
                src_row,
                outcome,
            ) == Ok::<int, MoveError>(i as int) && i < legal@.len(),
            Err(e) => spec_move_piece_by_type(
                legal@,
                piece_squares@,
                destination,
                src_col,
                src_row,
                outcome,
            ) == Err::<int, MoveError>(e),
        },
{
    if outcome.is_some() {
        return Err(MoveError::GameEnded);
    }
    match select_move(legal, piece_squares, destination, src_col, src_row) {
        Some(i) => Ok(i),
        None => Err(MoveError::NotPossible),
    }
}

/// The place that `spec_find_step` gives is the place of a legal move from
/// the source to the destination, and no later legal move is one.
pub proof fn lemma_find_step_is_last(legal: Seq<Step>, source: Square, destination: Square)
    ensures
        match spec_find_step(legal, source, destination) {
            Some(i) => 0 <= i < legal.len() && legal[i].0.spec_index() == source.spec_index()
                && legal[i].1.spec_index() == destination.spec_index() && forall|j: int|
                i < j < legal.len() ==> !(#[trigger] legal[j].0.spec_index() == source.spec_index()
                    && legal[j].1.spec_index() == destination.spec_index()),
            None => forall|j: int|
                0 <= j < legal.len() ==> !(#[trigger] legal[j].0.spec_index() == source.spec_index()
                    && legal[j].1.spec_index() == destination.spec_index()),
        },
    decreases legal.len(),
{
    if legal.len() > 0 {
        let shorter = legal.drop_last();
        lemma_find_step_is_last(shorter, source, destination);
        assert forall|j: int| 0 <= j < shorter.len() implies shorter[j] == legal[j] by {}
        if !(legal.last().0.spec_index() == source.spec_index() && legal.last().1.spec_index()
            == destination.spec_index()) {
            match spec_find_step(shorter, source, destination) {
                Some(i) => {
                    assert forall|j: int| i < j < legal.len() implies !(#[trigger] legal[j].0.spec_index()
                        == source.spec_index() && legal[j].1.spec_index()
                        == destination.spec_index()) by {
                        if j < shorter.len() {
                            assert(shorter[j] == legal[j]);
                        }
                    }
                },
                None => {
                    assert forall|j: int| 0 <= j < legal.len() implies !(#[trigger] legal[j].0.spec_index()
                        == source.spec_index() && legal[j].1.spec_index()
                        == destination.spec_index()) by {
                        if j < shorter.len() {
                            assert(shorter[j] == legal[j]);
                        }
                    }
                },
            }
        }
    }
}

/// Every candidate is a legal move of a piece of the kind to the
/// destination, and the candidates stand in the order of the legal moves.
pub proof fn lemma_candidates_are_candidates(
    legal: Seq<Step>,
    piece_squares: Seq<Square>,
    destination: Square,
)
    ensures
        forall|k: int|
            0 <= k < spec_candidates(legal, piece_squares, destination).len() ==> {
                let i = #[trigger] spec_candidates(legal, piece_squares, destination)[k];
                0 <= i < legal.len() && spec_is_candidate(legal[i], piece_squares, destination)
            },
        forall|k: int, l: int|
            0 <= k < l < spec_candidates(legal, piece_squares, destination).len()
                ==> #[trigger] spec_candidates(legal, piece_squares, destination)[k]
                < #[trigger] spec_candidates(legal, piece_squares, destination)[l],
    decreases legal.len(),
{
    if legal.len() > 0 {
        let shorter = legal.drop_last();
        lemma_candidates_are_candidates(shorter, piece_squares, destination);
        let before = spec_candidates(shorter, piece_squares, destination);
        let all = spec_candidates(legal, piece_squares, destination);
        assert forall|k: int| 0 <= k < before.len() implies 0 <= #[trigger] before[k] < shorter.len()
            && shorter[before[k]] == legal[before[k]] by {}
        assert forall|k: int| 0 <= k < all.len() implies {
            let i = #[trigger] all[k];
            0 <= i < legal.len() && spec_is_candidate(legal[i], piece_squares, destination)
        } by {
            if k < before.len() {
                assert(all[k] == before[k]);
            }
        }
        assert forall|k: int, l: int| 0 <= k < l < all.len() implies #[trigger] all[k]
            < #[trigger] all[l] by {
            assert(all[k] == before[k]);
            if l < before.len() {
                assert(all[l] == before[l]);
            }
        }
    }
}

} // verus!
