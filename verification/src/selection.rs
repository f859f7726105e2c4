//! Hover tracking and the selection / move state machine.
//!
//! One logical tick runs in strict order: the input layer picks the hovered
//! hex and overwrites `HoveredTile`; a click then drives
//! `SelectionController::handle_click`, which may move a piece and always
//! leaves the indicator set consistent with the current selection.
//!
//! A click on a hex holding a piece selects that piece (the first one in
//! registration order) and recomputes the indicators.  A click on an empty
//! hex that is a legal destination of the selected piece moves it there and
//! recomputes the indicators from the new position, so no stale indicator
//! survives a move.  Any other click deselects.  At most one piece is
//! selected at a time: the selection is held as the index of that piece.

use vstd::prelude::*;

use crate::hex::{contains_coord, coord_in_seq, HexCoord, RADIUS_LIMIT};
use crate::move_range::{lemma_move_range_membership, spec_move_range, MoveRangeCalculator};
use crate::pixel::{pick, spec_pick, UNIT_LIMIT};

verus! {

/// The hex currently under the pointer, or `None` when the pointer is off
/// the board or the window has no cursor.  A single slot, fully overwritten
/// once per input sample.
pub struct HoveredTile {
    pub position: Option<HexCoord>,
}

impl HoveredTile {
    /// Overwrites the slot with this sample's value.
    pub fn update(&mut self, position: Option<HexCoord>)
        ensures
            final(self).position == position,
    {
        self.position = position;
    }

    /// Recomputes the slot from a cursor offset in fixed-point grid units,
    /// by pointer picking against the board radius.
    pub fn sample(&mut self, xu: i64, yu: i64, board_radius: i64)
        requires
            -UNIT_LIMIT <= xu <= UNIT_LIMIT,
            -UNIT_LIMIT <= yu <= UNIT_LIMIT,
            0 <= board_radius,
        ensures
            final(self).position == spec_pick(xu as int, yu as int, board_radius as int),
    {
        let picked = pick(xu, yu, board_radius);
        self.position = picked;
    }
}

impl Default for HoveredTile {
    /// Starts with no hovered hex.
    fn default() -> (h: HoveredTile)
        ensures
            h.position is None,
    {
        HoveredTile { position: None }
    }
}

/// The kind of a game piece; only settlers exist so far.
#[derive(Clone, Copy, PartialEq, Eq, Structural, Debug)]
pub enum PieceType {
    Settler,
}

impl Default for PieceType {
    fn default() -> (t: PieceType)
        ensures
            t == PieceType::Settler,
    {
        PieceType::Settler
    }
}

/// A movable piece: its tile, its kind, and how far it may move in one step.
#[derive(Clone, Copy, PartialEq, Eq, Structural, Debug)]
pub struct GamePiece {
    pub coord: HexCoord,
    pub piece_type: PieceType,
    pub move_range: i64,
}

impl Default for GamePiece {
    /// A settler at the board center with move range 1.
    fn default() -> (p: GamePiece)
        ensures
            p == (GamePiece {
                coord: HexCoord { q: 0, r: 0, s: 0 },
                piece_type: PieceType::Settler,
                move_range: 1,
            }),
    {
        GamePiece {
            coord: HexCoord { q: 0, r: 0, s: 0 },
            piece_type: PieceType::Settler,
            move_range: 1,
        }
    }
}

/// The coordinates of all pieces, in registration order.
pub open spec fn piece_coords(pieces: Seq<GamePiece>) -> Seq<HexCoord> {
    pieces.map_values(|p: GamePiece| p.coord)
}

/// The coordinates of every piece except the one at index `i`: the occupancy
/// the piece at `i` must respect.
pub open spec fn occupied_by_others(pieces: Seq<GamePiece>, i: int) -> Seq<HexCoord> {
    piece_coords(pieces).remove(i)
}

/// The index of the first piece standing at `c`, scanning from `from`.
pub open spec fn first_piece_at(pieces: Seq<GamePiece>, c: HexCoord, from: int) -> Option<int>
    decreases pieces.len() - from,
{
    if from < 0 || from >= pieces.len() {
        None
    } else if pieces[from].coord == c {
        Some(from)
    } else {
        first_piece_at(pieces, c, from + 1)
    }
}

/// A found index is in range and names a piece standing at `c`.
pub proof fn lemma_first_piece_at_some(pieces: Seq<GamePiece>, c: HexCoord, from: int)
    ensures
        match first_piece_at(pieces, c, from) {
            Some(i) => from <= i < pieces.len() && pieces[i].coord == c,
            None => true,
        },
    decreases pieces.len() - from,
{
    if from < 0 || from >= pieces.len() {
    } else if pieces[from].coord == c {
    } else {
        lemma_first_piece_at_some(pieces, c, from + 1);
    }
}

/// The selection index as a mathematical option.
pub open spec fn sel_index(s: Option<usize>) -> Option<int> {
    match s {
        Some(i) => Some(i as int),
        None => None,
    }
}

/// The transition one click performs on the whole game state
/// `(pieces, selection, indicators)`.
pub open spec fn spec_click(
    pieces: Seq<GamePiece>,
    radius: int,
    selected: Option<int>,
    indicators: Seq<HexCoord>,
    hovered: Option<HexCoord>,
) -> (Seq<GamePiece>, Option<int>, Seq<HexCoord>) {
    match hovered {
        None => (pieces, selected, indicators),
        Some(c) => match first_piece_at(pieces, c, 0) {
            Some(i) => (
                pieces,
                Some(i),
                spec_move_range(
                    pieces[i].coord,
                    pieces[i].move_range as int,
                    radius,
                    occupied_by_others(pieces, i),
                ),
            ),
            None => match selected {
                Some(i) => if 0 <= i < pieces.len() && coord_in_seq(indicators, c) {
                    let moved = pieces.update(
                        i,
                        GamePiece {
                            coord: c,
                            piece_type: pieces[i].piece_type,
                            move_range: pieces[i].move_range,
                        },
                    );
                    (
                        moved,
                        Some(i),
                        spec_move_range(
                            c,
                            pieces[i].move_range as int,
                            radius,
                            occupied_by_others(moved, i),
                        ),
                    )
                } else {
                    (pieces, None, Seq::empty())
                },
                None => (pieces, None, Seq::empty()),
            },
        },
    }
}

/// Tracks which piece is selected and owns the derived indicator set.
pub struct SelectionController {
    pub pieces: Vec<GamePiece>,
    pub board_radius: i64,
    pub selected: Option<usize>,
    pub indicators: Vec<HexCoord>,
}

impl SelectionController {
    /// The controller invariant: pieces sit on the board with supported move
    /// ranges; when a piece is selected the indicators are exactly its legal
    /// destinations, and when none is they are empty.
    pub open spec fn inv(self) -> bool {
        &&& 0 <= self.board_radius <= RADIUS_LIMIT
        &&& forall|i: int|
            0 <= i < self.pieces@.len() ==> (#[trigger] self.pieces@[i]).coord.wf()
                && self.pieces@[i].coord.in_bounds(self.board_radius as int) && 0
                <= self.pieces@[i].move_range <= RADIUS_LIMIT
        &&& match self.selected {
            Some(i) => i < self.pieces@.len() && self.indicators@ == spec_move_range(
                self.pieces@[i as int].coord,
                self.pieces@[i as int].move_range as int,
                self.board_radius as int,
                occupied_by_others(self.pieces@, i as int),
            ),
            None => self.indicators@ == Seq::<HexCoord>::empty(),
        }
    }

    /// An empty controller for a board of the given radius.
    pub fn new(board_radius: i64) -> (s: SelectionController)
        requires
            0 <= board_radius <= RADIUS_LIMIT,
        ensures
            s.inv(),
            s.pieces@ == Seq::<GamePiece>::empty(),
            s.board_radius == board_radius,
            s.selected is None,
            s.indicators@ == Seq::<HexCoord>::empty(),
    {
        let s = SelectionController {
            pieces: Vec::new(),
            board_radius,
            selected: None,
            indicators: Vec::new(),
        };
        proof {
            assert(s.pieces@ =~= Seq::<GamePiece>::empty());
            assert(s.indicators@ =~= Seq::<HexCoord>::empty());
        }
        s
    }

    /// Registers a piece at scenario start, while nothing is selected.
    pub fn add_piece(&mut self, coord: HexCoord, piece_type: PieceType, move_range: i64)
        requires
            old(self).inv(),
            old(self).selected is None,
            coord.wf(),
            coord.in_bounds(old(self).board_radius as int),
            0 <= move_range <= RADIUS_LIMIT,
        ensures
            final(self).inv(),
            final(self).pieces@ == old(self).pieces@.push(
                GamePiece { coord, piece_type, move_range },
            ),
            final(self).board_radius == old(self).board_radius,
            final(self).selected is None,
            final(self).indicators@ == old(self).indicators@,
    {
        self.pieces.push(GamePiece { coord, piece_type, move_range });
    }

    /// The index of the first piece at `c`, if any.
    fn find_piece_at(&self, c: HexCoord) -> (res: Option<usize>)
        ensures
            sel_index(res) == first_piece_at(self.pieces@, c, 0),
    {
        let mut i: usize = 0;
        while i < self.pieces.len()
            invariant
                0 <= i <= self.pieces@.len(),
                first_piece_at(self.pieces@, c, 0) == first_piece_at(self.pieces@, c, i as int),
            decreases self.pieces@.len() - i,
        {
            if self.pieces[i].coord == c {
                return Some(i);
            }
            i = i + 1;
        }
        None
    }

    /// The occupancy the piece at `skip` must respect: every other piece's
    /// coordinate.
    fn coords_of_others(&self, skip: usize) -> (v: Vec<HexCoord>)
        requires
            skip < self.pieces@.len(),
        ensures
            v@ == occupied_by_others(self.pieces@, skip as int),
    {
        let mut v: Vec<HexCoord> = Vec::new();
        let mut i: usize = 0;
        while i < self.pieces.len()
            invariant
                0 <= i <= self.pieces@.len(),
                v@.len() == i,
                forall|j: int| 0 <= j < i ==> v@[j] == (#[trigger] self.pieces@[j]).coord,
            decreases self.pieces@.len() - i,
        {
            let c = self.pieces[i].coord;
            v.push(c);
            i = i + 1;
        }
        proof {
            assert(v@ =~= piece_coords(self.pieces@));
        }
        v.remove(skip);
        v
    }

    /// Applies one click.  With no hovered hex nothing changes; otherwise the
    /// state steps exactly as `spec_click` describes: select the piece at the
    /// clicked hex, or move the selected piece to a clicked legal
    /// destination, or deselect.
    pub fn handle_click(&mut self, hovered: Option<HexCoord>)
        requires
            old(self).inv(),
        ensures
            final(self).inv(),
            final(self).board_radius == old(self).board_radius,
            ({
                let next = spec_click(
                    old(self).pieces@,
                    old(self).board_radius as int,
                    sel_index(old(self).selected),
                    old(self).indicators@,
                    hovered,
                );
                &&& final(self).pieces@ == next.0
                &&& sel_index(final(self).selected) == next.1
                &&& final(self).indicators@ == next.2
            }),
    {
        let clicked: HexCoord;
        match hovered {
            None => {
                return;
            },
            Some(c) => {
                clicked = c;
            },
        }
        let found = self.find_piece_at(clicked);
        proof {
            lemma_first_piece_at_some(self.pieces@, clicked, 0);
        }
        match found {
            Some(i) => {
                let piece = self.pieces[i];
                let occ = self.coords_of_others(i);
                let ind = MoveRangeCalculator::compute(
                    piece.coord,
                    piece.move_range,
                    self.board_radius,
                    &occ,
                );
                self.selected = Some(i);
                self.indicators = ind;
            },
            None => {
                if self.selected.is_some() && contains_coord(&self.indicators, clicked) {
                    let i = self.selected.unwrap();
                    let piece = self.pieces[i];
                    proof {
                        assert(piece.coord.in_bounds(RADIUS_LIMIT as int));
                        lemma_move_range_membership(
                            piece.coord,
                            piece.move_range as int,
                            self.board_radius as int,
                            occupied_by_others(self.pieces@, i as int),
                            clicked,
                        );
                        assert(clicked.wf() && clicked.in_bounds(self.board_radius as int));
                    }
                    let moved_piece = GamePiece {
                        coord: clicked,
                        piece_type: piece.piece_type,
                        move_range: piece.move_range,
                    };
                    let ghost pre = self.pieces@;
                    self.pieces.remove(i);
                    self.pieces.insert(i, moved_piece);
                    proof {
                        assert(self.pieces@ =~= pre.update(i as int, moved_piece));
                    }
                    let occ = self.coords_of_others(i);
                    let ind = MoveRangeCalculator::compute(
                        clicked,
                        piece.move_range,
                        self.board_radius,
                        &occ,
                    );
                    self.indicators = ind;
                } else {
                    self.selected = None;
                    self.indicators = Vec::new();
                    proof {
                        assert(self.indicators@ =~= Seq::<HexCoord>::empty());
                    }
                }
            },
        }
    }
}

/// A click on a hex where a piece stands only changes the selection: no
/// piece position changes, whatever was selected before.
pub proof fn law_click_on_piece_moves_nothing(
    pieces: Seq<GamePiece>,
    radius: int,
    selected: Option<int>,
    indicators: Seq<HexCoord>,
    c: HexCoord,
)
    requires
        first_piece_at(pieces, c, 0) is Some,
    ensures
        spec_click(pieces, radius, selected, indicators, Some(c)).0 == pieces,
{
}

/// Clicking the tile of a piece is idempotent: clicking it a second time
/// selects the same piece and rebuilds the same indicator set, leaving the
/// state exactly as after the first click.
pub proof fn law_click_idempotent(
    pieces: Seq<GamePiece>,
    radius: int,
    selected: Option<int>,
    indicators: Seq<HexCoord>,
    c: HexCoord,
)
    requires
        first_piece_at(pieces, c, 0) is Some,
    ensures
        ({
            let once = spec_click(pieces, radius, selected, indicators, Some(c));
            spec_click(once.0, radius, once.1, once.2, Some(c)) == once
        }),
{
}

} // verus!
