//! A board on a touch screen: where its squares lie, which square a finger
//! touches, and what a touch means.

use crate::play::board::Square;
use crate::play::player::Player;
use vstd::prelude::*;

verus! {

/// A rectangle of the screen, in pixels.
#[derive(PartialEq, Eq, Debug, Copy, Clone, Structural)]
pub struct Rect {
    pub left: u32,
    pub top: u32,
    pub width: u32,
    pub height: u32,
}

/// What a finger that leaves the board asks for.
#[derive(PartialEq, Eq, Debug, Copy, Clone, Structural)]
pub enum TapAction {
    /// Nothing: an empty square was touched with no piece selected.
    Nothing,
    /// The piece on the square is selected.
    Select { square: Square },
    /// The selection is given up.
    Cancel,
    /// A move is asked for.
    Move { from: Square, to: Square },
}

impl Rect {
    /// Whether the point lies in the rectangle. The left and the upper edge
    /// belong to it, the right and the lower edge do not.
    pub open spec fn spec_holds(self, x: u16, y: u16) -> bool {
        self.left <= x < self.left + self.width && self.top <= y < self.top + self.height
    }

    /// Whether the rectangle lies within the range of screen coordinates.
    pub open spec fn in_range(self) -> bool {
        self.left + self.width <= u32::MAX && self.top + self.height <= u32::MAX
    }
}

/// Whether a finger at the given point hits the rectangle.
pub fn is_hitting(x: u16, y: u16, hitbox: Rect) -> (hit: bool)
    requires
        hitbox.in_range(),
    ensures
        hit == hitbox.spec_holds(x, y),
{
    (x as u32) >= hitbox.left && (x as u32) < (hitbox.left + hitbox.width) && (y as u32)
        >= hitbox.top && (y as u32) < (hitbox.top + hitbox.height)
}

/// The side of a square of a board that fills the width of the screen.
pub open spec fn spec_square_size(display_width: u32) -> u32 {
    display_width / 8
}

/// The rectangle of the square on file `x` and rank `y`, both counted from
/// 0, of a board in the middle of the screen with White at the bottom.
pub open spec fn spec_square_hitbox(display_width: u32, display_height: u32, x: u32, y: u32) -> Rect {
    let size = spec_square_size(display_width);
    Rect {
        left: ((display_width - size * 8) / 2 + size * x) as u32,
        top: ((display_height - size * 8) / 2 + size * (7 - y)) as u32,
        width: size,
        height: size,
    }
}

/// The rectangle of the square on file `x` and rank `y` of a board in the
/// middle of a screen that is at least as high as it is wide.
pub fn square_hitbox(display_width: u32, display_height: u32, x: u32, y: u32) -> (hitbox: Rect)
    requires
        display_width <= display_height,
        x < 8,
        y < 8,
    ensures
        hitbox == spec_square_hitbox(display_width, display_height, x, y),
        hitbox.in_range(),
        hitbox.left + hitbox.width <= display_width,
        hitbox.top + hitbox.height <= display_height,
{
    let size = display_width / 8;
    assert(size * 8 <= display_width);
    assert(size * x + size <= size * 8) by (nonlinear_arith)
        requires
            x < 8,
    ;
    assert(size * (7 - y) + size <= size * 8) by (nonlinear_arith)
        requires
            y < 8,
    ;
    Rect {
        left: ((display_width - size * 8) / 2) + size * x,
        top: ((display_height - size * 8) / 2) + size * (7 - y),
        width: size,
        height: size,
    }
}

/// The square of the board that a finger at the given point touches: its
/// file and rank, both counted from 0.
pub fn square_at(display_width: u32, display_height: u32, px: u16, py: u16) -> (touched: Option<
    (u32, u32),
>)
    requires
        display_width <= display_height,
    ensures
        match touched {
            Some((x, y)) => x < 8 && y < 8 && spec_square_hitbox(
                display_width,
                display_height,
                x,
                y,
            ).spec_holds(px, py),
            None => forall|x: u32, y: u32|
                x < 8 && y < 8 ==> !(#[trigger] spec_square_hitbox(
                    display_width,
                    display_height,
                    x,
                    y,
                )).spec_holds(px, py),
        },
{
    let mut x: u32 = 0;
    while x < 8
        invariant
            x <= 8,
            display_width <= display_height,
            forall|i: u32, j: u32|
                i < x && j < 8 ==> !(#[trigger] spec_square_hitbox(
                    display_width,
                    display_height,
                    i,
                    j,
                )).spec_holds(px, py),
        decreases 8 - x,
    {
        let mut y: u32 = 0;
        while y < 8
            invariant
                x < 8,
                y <= 8,
                display_width <= display_height,
                forall|i: u32, j: u32|
                    i < x && j < 8 ==> !(#[trigger] spec_square_hitbox(
                        display_width,
                        display_height,
                        i,
                        j,
                    )).spec_holds(px, py),
                forall|j: u32|
                    j < y ==> !(#[trigger] spec_square_hitbox(
                        display_width,
                        display_height,
                        x,
                        j,
                    )).spec_holds(px, py),
            decreases 8 - y,
        {
            if is_hitting(px, py, square_hitbox(display_width, display_height, x, y)) {
                return Some((x, y));
            }
            y += 1;
        }
        x += 1;
    }
    None
}

/// What a finger asks for that leaves the board on the square `released`,
/// having come down on `finger_down`, while `selected` is the selected
/// square and `has_piece` tells whether a piece stands on `released`.
///
/// With a square selected, a touch of the same square gives the selection
/// up and a touch of another asks for the move there. With none selected, a
/// finger that came down elsewhere has swiped: it asks for the move from
/// there. A finger that stayed on its square selects the piece on it.
pub open spec fn spec_tap(
    selected: Option<Square>,
    finger_down: Option<Square>,
    released: Square,
    has_piece: bool,
) -> TapAction {
    match selected {
        Some(last) => if last == released {
            TapAction::Cancel
        } else {
            TapAction::Move { from: last, to: released }
        },
        None => {
            let down = match finger_down {
                Some(square) => square,
                None => released,
            };
            if down != released {
                TapAction::Move { from: down, to: released }
            } else if has_piece {
                TapAction::Select { square: released }
            } else {
                TapAction::Nothing
            }
        },
    }
}

/// What a finger asks for that leaves the board on the square `released`.
pub fn tap(
    selected: Option<Square>,
    finger_down: Option<Square>,
    released: Square,
    has_piece: bool,
) -> (action: TapAction)
    ensures
        action == spec_tap(selected, finger_down, released, has_piece),
{
    match selected {
        Some(last) => {
            if last == released {
                TapAction::Cancel
            } else {
                TapAction::Move { from: last, to: released }
            }
        },
        None => {
            let down = match finger_down {
                Some(square) => square,
                None => released,
            };
            if down != released {
                TapAction::Move { from: down, to: released }
            } else if has_piece {
                TapAction::Select { square: released }
            } else {
                TapAction::Nothing
            }
        },
    }
}

/// What a finger asks for that leaves the board of a replay on the square
/// `released`. As `spec_tap`, but with a square selected a touch of another
/// square asks for the move there only if `is_possible_move` tells that the
/// move is legal; if it is not, the piece on the touched square is selected
/// instead, and the selection is given up where no piece stands there.
pub open spec fn spec_tap_in_replay(
    selected: Option<Square>,
    finger_down: Option<Square>,
    released: Square,
    has_piece: bool,
    is_possible_move: bool,
) -> TapAction {
    match selected {
        Some(last) => if last == released {
            TapAction::Cancel
        } else if is_possible_move {
            TapAction::Move { from: last, to: released }
        } else if has_piece {
            TapAction::Select { square: released }
        } else {
            TapAction::Cancel
        },
        None => spec_tap(selected, finger_down, released, has_piece),
    }
}

/// What a finger asks for that leaves the board of a replay on the square
/// `released`.
pub fn tap_in_replay(
    selected: Option<Square>,
    finger_down: Option<Square>,
    released: Square,
    has_piece: bool,
    is_possible_move: bool,
) -> (action: TapAction)
    ensures
        action == spec_tap_in_replay(selected, finger_down, released, has_piece, is_possible_move),
{
    match selected {
        Some(last) => {
            if last == released {
                TapAction::Cancel
            } else if is_possible_move {
                TapAction::Move { from: last, to: released }
            } else if has_piece {
                TapAction::Select { square: released }
            } else {
                TapAction::Cancel
            }
        },
        None => tap(selected, finger_down, released, has_piece),
    }
}

/// How many moves the undo button takes back: one in a game of two
/// players; against a machine one while the machine is to move, and
/// two, the machine's answer and the player's own move, while the player is.
pub open spec fn spec_undo_count(two_players: bool, turn: Player) -> u16 {
    if two_players || turn == Player::Black {
        1
    } else {
        2
    }
}

/// How many moves the undo button takes back.
pub fn undo_count(two_players: bool, turn: Player) -> (count: u16)
    ensures
        count == spec_undo_count(two_players, turn),
{
    if two_players {
        1
    } else {
        match turn {
            Player::Black => 1,
            Player::White => 2,
        }
    }
}

/// The squares of the board do not overlap: a point lies in the rectangle
/// of one square at most.
pub proof fn lemma_squares_are_disjoint(
    display_width: u32,
    display_height: u32,
    x1: u32,
    y1: u32,
    x2: u32,
    y2: u32,
    px: u16,
    py: u16,
)
    requires
        display_width <= display_height,
        x1 < 8,
        y1 < 8,
        x2 < 8,
        y2 < 8,
        spec_square_hitbox(display_width, display_height, x1, y1).spec_holds(px, py),
        spec_square_hitbox(display_width, display_height, x2, y2).spec_holds(px, py),
    ensures
        x1 == x2,
        y1 == y2,
{
    let size = spec_square_size(display_width) as int;
    assert(size * 8 <= display_width);
    if x1 < x2 {
        assert(size * x1 + size <= size * x2) by (nonlinear_arith)
            requires
                x1 < x2,
                size >= 0,
        ;
    }
    if x2 < x1 {
        assert(size * x2 + size <= size * x1) by (nonlinear_arith)
            requires
                x2 < x1,
                size >= 0,
        ;
    }
    if y1 < y2 {
        assert(size * (7 - y2) + size <= size * (7 - y1)) by (nonlinear_arith)
            requires
                y1 < y2,
                size >= 0,
        ;
    }
    if y2 < y1 {
        assert(size * (7 - y1) + size <= size * (7 - y2)) by (nonlinear_arith)
            requires
                y2 < y1,
                size >= 0,
        ;
    }
    assert(size * x1 <= size * 7 && size * x2 <= size * 7 && size * (7 - y1) <= size * 7 && size
        * (7 - y2) <= size * 7) by (nonlinear_arith)
        requires
            x1 < 8,
            x2 < 8,
            y1 < 8,
            y2 < 8,
            size >= 0,
    ;
}

} // verus!
