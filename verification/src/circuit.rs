//! The oblivious addressable-storage engine.
//!
//! A square grid of `dim * dim` opaque cells is addressed by a pair of
//! opaque scalars.  Because no cell can be selected by branching on a
//! secret, every read and write walks the whole coordinate table and
//! combines the per-cell results with conditional selects, so the pattern
//! of primitive operations is the same for every addressed coordinate.

use vstd::arithmetic::div_mod::{
    lemma_fundamental_div_mod, lemma_fundamental_div_mod_converse_div,
    lemma_fundamental_div_mod_converse_mod, lemma_mod_bound,
};
use vstd::prelude::*;

use crate::scalar::ObliviousScalar;

verus! {

/// Errors that the engine reports to its caller.
///
/// Only plaintext-detectable conditions are errors: a wrongly sized
/// constant batch or a player-slot mistake.  Secret-dependent outcomes
/// (an out-of-range encrypted coordinate, a token mismatch) are never
/// errors; they come back as encrypted defaults or encrypted flags, so the
/// error channel leaks nothing about encrypted contents.
#[derive(Clone, Copy, PartialEq, Eq, Structural, Debug)]
pub enum EngineError {
    /// Constant provisioning supplied the wrong number of scalars.
    ShapeMismatch,
    /// A player-slot index outside the registry was presented.
    InvalidSlot,
    /// A registration targeted a slot that is already taken.
    SlotAlreadySet,
}

/// The grid of opaque cells, in row-major order: cell `(x, y)` lives at
/// index `x * dim + y`.
pub struct Board<S> {
    pub eggs: Vec<S>,
}

impl<S: ObliviousScalar> Board<S> {
    /// The plaintexts the cells stand for, in grid order.
    pub open spec fn model(&self) -> Seq<u8> {
        Seq::new(self.eggs@.len(), |i: int| self.eggs@[i].val())
    }
}

/// The linear index of coordinate `(x, y)` on a `dim`-wide grid.
pub open spec fn cell_index(dim: int, x: u8, y: u8) -> int {
    x * dim + y
}

/// Whether `(x, y)` addresses a cell of a `dim`-wide grid.
pub open spec fn coord_in_range(dim: int, x: u8, y: u8) -> bool {
    x < dim && y < dim
}

/// What an oblivious read returns: the addressed cell when the coordinate
/// is on the grid, the caller's default otherwise.
pub open spec fn gather_spec(board: Seq<u8>, dim: int, x: u8, y: u8, default: u8) -> u8 {
    if coord_in_range(dim, x, y) {
        board[cell_index(dim, x, y)]
    } else {
        default
    }
}

/// What an oblivious write produces: the grid with exactly the addressed
/// cell replaced when the coordinate is on the grid, the unchanged grid
/// otherwise.
pub open spec fn scatter_spec(board: Seq<u8>, dim: int, x: u8, y: u8, value: u8) -> Seq<u8> {
    if coord_in_range(dim, x, y) {
        board.update(cell_index(dim, x, y), value)
    } else {
        board
    }
}

/// A coordinate table is canonical when entry `i` decodes to the pair
/// `(i / dim, i % dim)`, so each grid address appears exactly once.
pub open spec fn table_canonical<S: ObliviousScalar>(coords: Seq<(S, S)>, dim: int) -> bool {
    &&& coords.len() == dim * dim
    &&& forall|i: int|
        0 <= i < coords.len() ==> (#[trigger] coords[i]).0.val() == i / dim
            && coords[i].1.val() == i % dim
}

/// An on-grid coordinate's linear index stays inside the grid.
pub proof fn lemma_cell_index_bounds(dim: int, x: u8, y: u8)
    requires
        1 <= dim,
        coord_in_range(dim, x, y),
    ensures
        0 <= cell_index(dim, x, y) < dim * dim,
{
    assert(0 <= x * dim + y < dim * dim) by (nonlinear_arith)
        requires
            1 <= dim,
            0 <= x < dim,
            0 <= y < dim,
    ;
}

/// Table entry `i` matches an on-grid coordinate exactly when `i` is that
/// coordinate's linear index.
pub proof fn lemma_cell_index_match(dim: int, x: u8, y: u8, i: int)
    requires
        1 <= dim,
        coord_in_range(dim, x, y),
        0 <= i < dim * dim,
    ensures
        (i / dim == x && i % dim == y) <==> i == cell_index(dim, x, y),
{
    if i == cell_index(dim, x, y) {
        lemma_fundamental_div_mod_converse_div(i, dim, x as int, y as int);
        lemma_fundamental_div_mod_converse_mod(i, dim, x as int, y as int);
    }
    if i / dim == x && i % dim == y {
        lemma_fundamental_div_mod(i, dim);
    }
}

/// Distinct on-grid coordinates have distinct linear indices.
pub proof fn lemma_cell_index_injective(dim: int, x1: u8, y1: u8, x2: u8, y2: u8)
    requires
        1 <= dim,
        coord_in_range(dim, x1, y1),
        coord_in_range(dim, x2, y2),
        cell_index(dim, x1, y1) == cell_index(dim, x2, y2),
    ensures
        x1 == x2 && y1 == y2,
{
    let i = cell_index(dim, x1, y1);
    lemma_cell_index_bounds(dim, x1, y1);
    lemma_cell_index_match(dim, x1, y1, i);
    lemma_cell_index_match(dim, x2, y2, i);
}

/// Oblivious scatter: returns a full replacement grid in which exactly the
/// addressed cell carries `new_value` and every other cell is unchanged;
/// an off-grid coordinate reproduces the old grid.  Every cell is
/// recomputed through one conditional select — there is no early exit and
/// no cell-level skip, so the work done is independent of the encrypted
/// coordinate.
#[verifier::loop_isolation(false)]
pub fn update_egg<S: ObliviousScalar>(
    tile: &Board<S>,
    coord: &(S, S),
    board_coords: &Vec<(S, S)>,
    max_coord: &S,
    new_value: &S,
    dim: Ghost<int>,
) -> (r: Board<S>)
    requires
        1 <= dim@ <= 128,
        table_canonical(board_coords@, dim@),
        tile.eggs@.len() == dim@ * dim@,
        max_coord.val() == dim@ - 1,
    ensures
        r.model() =~= scatter_spec(
            tile.model(),
            dim@,
            coord.0.val(),
            coord.1.val(),
            new_value.val(),
        ),
{
    let x = &coord.0;
    let y = &coord.1;
    let ghost xv = x.val();
    let ghost yv = y.val();
    let x_in_bounds = x.le_ct(max_coord);
    let y_in_bounds = y.le_ct(max_coord);
    let in_bounds = S::and_ct(&x_in_bounds, &y_in_bounds);
    let n = tile.eggs.len();
    let mut eggs: Vec<S> = Vec::new();
    let mut i: usize = 0;
    while i < n
        invariant
            0 <= i <= n,
            eggs@.len() == i,
            forall|j: int|
                0 <= j < i ==> #[trigger] eggs@[j].val() == scatter_spec(
                    tile.model(),
                    dim@,
                    xv,
                    yv,
                    new_value.val(),
                )[j],
        decreases n - i,
    {
        let pair = &board_coords[i];
        let x_match = x.eq_ct(&pair.0);
        let y_match = y.eq_ct(&pair.1);
        let coord_match = S::and_ct(&x_match, &y_match);
        let safe_coord_match = S::and_ct(&coord_match, &in_bounds);
        // write the new value exactly where the address matches, keep the
        // old cell everywhere else
        let cell = new_value.mux_ct(&tile.eggs[i], &safe_coord_match);
        proof {
            if coord_in_range(dim@, xv, yv) {
                lemma_cell_index_bounds(dim@, xv, yv);
                lemma_cell_index_match(dim@, xv, yv, i as int);
            }
        }
        eggs.push(cell);
        i += 1;
    }
    let r = Board { eggs };
    proof {
        let target_model = scatter_spec(tile.model(), dim@, xv, yv, new_value.val());
        if coord_in_range(dim@, xv, yv) {
            lemma_cell_index_bounds(dim@, xv, yv);
        }
        assert(r.model().len() == target_model.len());
        assert forall|j: int| 0 <= j < r.model().len() implies r.model()[j] == target_model[j] by {
            assert(r.model()[j] == r.eggs@[j].val());
        }
    }
    r
}

/// Oblivious gather: returns the cell addressed by the encrypted
/// coordinate, or the caller's default when the coordinate is off the
/// grid.  The accumulator is folded through every cell unconditionally,
/// so the work done is independent of the encrypted coordinate.
#[verifier::loop_isolation(false)]
pub fn read_egg<S: ObliviousScalar>(
    tile: &Board<S>,
    coord: &(S, S),
    board_coords: &Vec<(S, S)>,
    max_coord: &S,
    default: &S,
    dim: Ghost<int>,
) -> (r: S)
    requires
        1 <= dim@ <= 128,
        table_canonical(board_coords@, dim@),
        tile.eggs@.len() == dim@ * dim@,
        max_coord.val() == dim@ - 1,
    ensures
        r.val() == gather_spec(tile.model(), dim@, coord.0.val(), coord.1.val(), default.val()),
{
    let x = &coord.0;
    let y = &coord.1;
    let ghost xv = x.val();
    let ghost yv = y.val();
    let ghost target = cell_index(dim@, xv, yv);
    let x_in_bounds = x.le_ct(max_coord);
    let y_in_bounds = y.le_ct(max_coord);
    let in_bounds = S::and_ct(&x_in_bounds, &y_in_bounds);
    let n = tile.eggs.len();
    let mut acc = default.dup();
    let mut i: usize = 0;
    while i < n
        invariant
            0 <= i <= n,
            acc.val() == (if coord_in_range(dim@, xv, yv) && target < i {
                tile.model()[target]
            } else {
                default.val()
            }),
        decreases n - i,
    {
        let pair = &board_coords[i];
        let x_match = x.eq_ct(&pair.0);
        let y_match = y.eq_ct(&pair.1);
        let coord_match = S::and_ct(&x_match, &y_match);
        let safe_coord_match = S::and_ct(&coord_match, &in_bounds);
        proof {
            if coord_in_range(dim@, xv, yv) {
                lemma_cell_index_bounds(dim@, xv, yv);
                lemma_cell_index_match(dim@, xv, yv, i as int);
            }
        }
        acc = tile.eggs[i].mux_ct(&acc, &safe_coord_match);
        i += 1;
    }
    proof {
        if coord_in_range(dim@, xv, yv) {
            lemma_cell_index_bounds(dim@, xv, yv);
        }
    }
    acc
}

/// A fresh board carrying the same contents cell for cell.  The storage
/// provider cannot mint ciphertexts, so a state reset is a plain copy of
/// the provisioned state.
#[verifier::loop_isolation(false)]
pub fn init_state<S: ObliviousScalar>(tile: &Board<S>) -> (r: Board<S>)
    ensures
        r.model() =~= tile.model(),
{
    let n = tile.eggs.len();
    let mut eggs: Vec<S> = Vec::new();
    let mut i: usize = 0;
    while i < n
        invariant
            0 <= i <= n,
            eggs@.len() == i,
            forall|j: int| 0 <= j < i ==> #[trigger] eggs@[j].val() == tile.eggs@[j].val(),
        decreases n - i,
    {
        eggs.push(tile.eggs[i].dup());
        i += 1;
    }
    Board { eggs }
}

/// How many canonical constants the engine needs: one per grid column,
/// and never fewer than the four direction codes.
pub open spec fn const_count(dim: int) -> int {
    if dim >= 4 {
        dim
    } else {
        4
    }
}

/// The x coordinate produced by one authorized move step, before the
/// commit select: one step right adds one, one step left adds `dim - 1`
/// (one short of a full wrap, so it equals `x - 1` modulo `dim`), any
/// other direction keeps `x`; the candidate is then reduced modulo `dim`.
/// The inner `% 256` mirrors the eight-bit wrap of the scalar adder.
pub open spec fn move_x_spec(x: u8, dir: u8, dim: int) -> int {
    let candidate = if dir == 3 {
        (x + 1) % 256
    } else if dir == 2 {
        (x + (dim - 1)) % 256
    } else {
        x as int
    };
    candidate % dim
}

/// The y coordinate produced by one authorized move step: up (code 0)
/// subtracts one modulo `dim`, down (code 1) adds one modulo `dim`, any
/// other direction keeps `y` reduced modulo `dim`.
pub open spec fn move_y_spec(y: u8, dir: u8, dim: int) -> int {
    let candidate = if dir == 1 {
        (y + 1) % 256
    } else if dir == 0 {
        (y + (dim - 1)) % 256
    } else {
        y as int
    };
    candidate % dim
}

/// A grid index splits into a row below `dim` and a column below `dim`.
pub proof fn lemma_grid_index(dim: int, i: int)
    requires
        1 <= dim,
        0 <= i < dim * dim,
    ensures
        0 <= i / dim < dim,
        0 <= i % dim < dim,
{
    lemma_mod_bound(i, dim);
    lemma_fundamental_div_mod(i, dim);
    assert(0 <= i / dim < dim) by (nonlinear_arith)
        requires
            dim >= 1,
            0 <= i < dim * dim,
            i == dim * (i / dim) + i % dim,
            0 <= i % dim < dim,
    ;
}

/// The storage engine: canonical constants, the coordinate table, the
/// grid and the player registry, owned together so that one instance is
/// one independent game.
pub struct Server<S: ObliviousScalar> {
    /// Grid side length; public configuration, not a secret.
    pub dim: usize,
    /// The provisioned constants, decoding to `0, 1, 2, ...` in order.
    pub constants: Vec<S>,
    /// A cached flag decoding to false, for plaintext-detectable error
    /// paths that must still answer in ciphertext.
    pub encrypted_false: S::Flag,
    /// Per-slot identity tokens; `None` until the slot registers.
    pub player_tokens: Vec<Option<S>>,
    /// Per-slot positions; `None` until the slot registers.
    pub player_coords: Vec<Option<(S, S)>>,
    /// The grid of cells.
    pub board: Board<S>,
    /// The coordinate table: entry `i` encodes `(i / dim, i % dim)`.
    pub board_coords: Vec<(S, S)>,
}

impl<S: ObliviousScalar> Server<S> {
    /// The plaintexts of the grid cells.
    pub open spec fn board_model(&self) -> Seq<u8> {
        self.board.model()
    }

    /// The plaintexts of the registered tokens, slot by slot.
    pub open spec fn tokens_model(&self) -> Seq<Option<u8>> {
        Seq::new(
            self.player_tokens@.len(),
            |i: int|
                match self.player_tokens@[i] {
                    Option::Some(t) => Option::Some(t.val()),
                    Option::None => Option::None,
                },
        )
    }

    /// The plaintexts of the registered positions, slot by slot.
    pub open spec fn coords_model(&self) -> Seq<Option<(u8, u8)>> {
        Seq::new(
            self.player_coords@.len(),
            |i: int|
                match self.player_coords@[i] {
                    Option::Some(c) => Option::Some((c.0.val(), c.1.val())),
                    Option::None => Option::None,
                },
        )
    }

    /// The number of player slots.
    pub open spec fn num_players(&self) -> int {
        self.player_tokens@.len() as int
    }

    /// Structural well-formedness: the grid, the coordinate table and the
    /// registry have their configured shapes, and the table rows point at
    /// the constants that generated them.
    pub open spec fn wf(&self) -> bool {
        &&& 1 <= self.dim <= 128
        &&& self.constants@.len() == const_count(self.dim as int)
        &&& self.board.eggs@.len() == self.dim * self.dim
        &&& self.board_coords@.len() == self.dim * self.dim
        &&& self.player_coords@.len() == self.player_tokens@.len()
        &&& forall|i: int|
            0 <= i < self.player_tokens@.len() ==> ((#[trigger] self.player_tokens@[i]) is Some
                <==> self.player_coords@[i] is Some)
        &&& forall|i: int|
            0 <= i < self.board_coords@.len() ==> (#[trigger] self.board_coords@[i]).0.val()
                == self.constants@[i / (self.dim as int)].val() && self.board_coords@[i].1.val()
                == self.constants@[i % (self.dim as int)].val()
    }

    /// The provisioning assumption: the supplied constants decode to
    /// `0, 1, 2, ...` in order, and the cached false flag decodes to
    /// false.  The engine cannot test this — the constants are opaque —
    /// so it is the protocol obligation of the provisioning party, and
    /// every content-level contract is relative to it.
    pub open spec fn canonical(&self) -> bool {
        &&& forall|i: int|
            0 <= i < self.constants@.len() ==> (#[trigger] self.constants@[i]).val() == i
        &&& !S::truth(&self.encrypted_false)
    }

    /// Every slot has registered.
    pub open spec fn all_ready(&self) -> bool {
        forall|i: int| 0 <= i < self.player_tokens@.len() ==> (#[trigger] self.player_tokens@[i]) is Some
    }

    /// Configuration that gameplay operations never touch.
    pub open spec fn same_config(&self, other: &Server<S>) -> bool {
        &&& self.dim == other.dim
        &&& self.constants@ == other.constants@
        &&& self.board_coords@ == other.board_coords@
        &&& self.encrypted_false == other.encrypted_false
    }
}

/// Under the provisioning assumption the coordinate table is canonical
/// and the highest grid constant decodes to `dim - 1`.
pub proof fn lemma_server_table<S: ObliviousScalar>(s: Server<S>)
    requires
        s.wf(),
        s.canonical(),
    ensures
        table_canonical(s.board_coords@, s.dim as int),
        s.constants@[s.dim - 1].val() == s.dim - 1,
{
    let dim = s.dim as int;
    assert forall|i: int|
        0 <= i < s.board_coords@.len() implies (#[trigger] s.board_coords@[i]).0.val() == i / dim
        && s.board_coords@[i].1.val() == i % dim by {
        lemma_grid_index(dim, i);
    }
}

impl<S: ObliviousScalar> Server<S> {
    /// Builds an engine from the provisioned constants.
    ///
    /// Exactly `const_count(dim)` constants are owed; any other batch
    /// size is a `ShapeMismatch`.  The grid starts as `dim * dim` copies
    /// of the first constant (the canonical zero), the coordinate table
    /// is the cross product of the first `dim` constants with themselves,
    /// and every player slot starts unregistered.
    #[verifier::loop_isolation(false)]
    pub fn from_constants(constants: Vec<S>, dim: usize, num_players: usize) -> (r: Result<
        Server<S>,
        EngineError,
    >)
        requires
            1 <= dim <= 128,
        ensures
            (r is Ok) <==> constants@.len() == const_count(dim as int),
            (r is Err) ==> r == Result::<Server<S>, EngineError>::Err(EngineError::ShapeMismatch),
            (r matches Ok(s) ==> {
                &&& s.wf()
                &&& s.dim == dim
                &&& s.num_players() == num_players
                &&& s.constants@ == constants@
                &&& forall|j: int| 0 <= j < dim * dim ==> s.board_model()[j] == constants@[0].val()
                &&& forall|i: int| 0 <= i < num_players ==> s.tokens_model()[i] is None
                &&& forall|i: int| 0 <= i < num_players ==> s.coords_model()[i] is None
                &&& S::truth(&s.encrypted_false) == (constants@[0].val() == constants@[1].val())
                &&& (forall|i: int|
                    0 <= i < constants@.len() ==> (#[trigger] constants@[i]).val() == i)
                    ==> s.canonical()
            }),
    {
        let needed: usize = if dim >= 4 {
            dim
        } else {
            4
        };
        if constants.len() != needed {
            return Err(EngineError::ShapeMismatch);
        }
        proof {
            assert(dim * dim <= 128 * 128) by (nonlinear_arith)
                requires
                    1 <= dim <= 128,
            ;
        }
        let n = dim * dim;
        let mut eggs: Vec<S> = Vec::new();
        let mut i: usize = 0;
        while i < n
            invariant
                0 <= i <= n,
                eggs@.len() == i,
                forall|j: int| 0 <= j < i ==> #[trigger] eggs@[j].val() == constants@[0].val(),
            decreases n - i,
        {
            eggs.push(constants[0].dup());
            i += 1;
        }
        let mut board_coords: Vec<(S, S)> = Vec::new();
        let mut i: usize = 0;
        while i < n
            invariant
                0 <= i <= n,
                board_coords@.len() == i,
                forall|j: int|
                    0 <= j < i ==> (#[trigger] board_coords@[j]).0.val() == constants@[j / (
                    dim as int)].val() && board_coords@[j].1.val() == constants@[j % (
                    dim as int)].val(),
            decreases n - i,
        {
            proof {
                lemma_grid_index(dim as int, i as int);
            }
            let row = i / dim;
            let col = i % dim;
            board_coords.push((constants[row].dup(), constants[col].dup()));
            i += 1;
        }
        let mut player_tokens: Vec<Option<S>> = Vec::new();
        let mut player_coords: Vec<Option<(S, S)>> = Vec::new();
        let mut i: usize = 0;
        while i < num_players
            invariant
                0 <= i <= num_players,
                player_tokens@.len() == i,
                player_coords@.len() == i,
                forall|j: int| 0 <= j < i ==> (#[trigger] player_tokens@[j]) is None,
                forall|j: int| 0 <= j < i ==> (#[trigger] player_coords@[j]) is None,
            decreases num_players - i,
        {
            player_tokens.push(None);
            player_coords.push(None);
            i += 1;
        }
        let encrypted_false = constants[0].eq_ct(&constants[1]);
        Ok(
            Server {
                dim,
                constants,
                encrypted_false,
                player_tokens,
                player_coords,
                board: Board { eggs },
                board_coords,
            },
        )
    }

    /// Registers a player slot: stores its identity token and its
    /// starting position.  A slot registers exactly once; a second
    /// registration is rejected rather than silently overwriting, so a
    /// token can never be swapped after the fact.  Slot numbers are
    /// plaintext, so both error paths are ordinary errors.
    pub fn set_player(&mut self, player_id: usize, token: S, coords: (S, S)) -> (r: Result<
        (),
        EngineError,
    >)
        requires
            old(self).wf(),
        ensures
            final(self).wf(),
            (r is Ok) <==> (player_id < old(self).num_players()
                && old(self).tokens_model()[player_id as int] is None),
            r == Result::<(), EngineError>::Err(EngineError::InvalidSlot) <==> player_id >= old(
                self,
            ).num_players(),
            r == Result::<(), EngineError>::Err(EngineError::SlotAlreadySet) <==> (player_id < old(
                self,
            ).num_players() && old(self).tokens_model()[player_id as int] is Some),
            (r is Err) ==> *final(self) == *old(self),
            (r is Ok) ==> {
                &&& final(self).same_config(&*old(self))
                &&& final(self).board.eggs@ == old(self).board.eggs@
                &&& final(self).tokens_model() == old(self).tokens_model().update(
                    player_id as int,
                    Option::Some(token.val()),
                )
                &&& final(self).coords_model() == old(self).coords_model().update(
                    player_id as int,
                    Option::Some((coords.0.val(), coords.1.val())),
                )
                &&& old(self).canonical() ==> final(self).canonical()
            },
    {
        if player_id >= self.player_tokens.len() {
            return Err(EngineError::InvalidSlot);
        }
        if self.player_tokens[player_id].is_some() {
            return Err(EngineError::SlotAlreadySet);
        }
        self.player_tokens.set(player_id, Some(token));
        self.player_coords.set(player_id, Some(coords));
        proof {
            assert(final(self).tokens_model() =~= old(self).tokens_model().update(
                player_id as int,
                Option::Some(token.val()),
            ));
            assert(final(self).coords_model() =~= old(self).coords_model().update(
                player_id as int,
                Option::Some((coords.0.val(), coords.1.val())),
            ));
        }
        Ok(())
    }

    /// True exactly when every slot has registered.  Readiness is
    /// plaintext — which slots are taken is not a secret — so this check
    /// may short-circuit.
    #[verifier::loop_isolation(false)]
    pub fn check_all_players_ready(&self) -> (r: bool)
        ensures
            r == self.all_ready(),
    {
        let n = self.player_tokens.len();
        let mut i: usize = 0;
        while i < n
            invariant
                0 <= i <= n,
                forall|j: int| 0 <= j < i ==> (#[trigger] self.player_tokens@[j]) is Some,
            decreases n - i,
        {
            if self.player_tokens[i].is_none() {
                return false;
            }
            i += 1;
        }
        true
    }

    /// Oblivious write: replaces the grid with one in which exactly the
    /// addressed cell carries `new_value`; an off-grid encrypted
    /// coordinate leaves every cell unchanged, with the same amount of
    /// work either way.  Gameplay is gated on every slot being
    /// registered.
    pub fn set_fhe_square(&mut self, coord: &(S, S), new_value: S)
        requires
            old(self).wf(),
            old(self).canonical(),
            old(self).all_ready(),
        ensures
            final(self).wf(),
            final(self).canonical(),
            final(self).same_config(&*old(self)),
            final(self).player_tokens@ == old(self).player_tokens@,
            final(self).player_coords@ == old(self).player_coords@,
            final(self).board_model() == scatter_spec(
                old(self).board_model(),
                old(self).dim as int,
                coord.0.val(),
                coord.1.val(),
                new_value.val(),
            ),
    {
        proof {
            lemma_server_table(*self);
        }
        let ghost gdim = self.dim as int;
        let max_coord = &self.constants[self.dim - 1];
        let new_board = update_egg(
            &self.board,
            coord,
            &self.board_coords,
            max_coord,
            &new_value,
            Ghost(gdim),
        );
        self.board = new_board;
        proof {
            if coord_in_range(gdim, coord.0.val(), coord.1.val()) {
                lemma_cell_index_bounds(gdim, coord.0.val(), coord.1.val());
            }
        }
    }

    /// Oblivious read: the cell addressed by the encrypted coordinate,
    /// or the caller's default when the coordinate is off the grid.
    /// Which case occurred is not revealed: the result is opaque and the
    /// work done is the same either way.
    pub fn gather(&self, coord: &(S, S), default: &S) -> (r: S)
        requires
            self.wf(),
            self.canonical(),
        ensures
            r.val() == gather_spec(
                self.board_model(),
                self.dim as int,
                coord.0.val(),
                coord.1.val(),
                default.val(),
            ),
    {
        proof {
            lemma_server_table(*self);
        }
        let ghost gdim = self.dim as int;
        let max_coord = &self.constants[self.dim - 1];
        read_egg(&self.board, coord, &self.board_coords, max_coord, default, Ghost(gdim))
    }

    /// Whether a presented token decodes to the token registered in a
    /// slot.
    pub open spec fn token_matches(&self, player_id: int, presented: u8) -> bool {
        presented == (match self.player_tokens@[player_id] {
            Option::Some(t) => t.val(),
            Option::None => 0u8,
        })
    }

    /// The position a slot holds after a move attempt: one directional
    /// step with wraparound when the token matched, the unchanged
    /// position otherwise.
    pub open spec fn moved_coords(&self, player_id: int, presented: u8, dir: u8) -> (u8, u8) {
        let cur = (match self.player_coords@[player_id] {
            Option::Some(c) => (c.0.val(), c.1.val()),
            Option::None => (0u8, 0u8),
        });
        if self.token_matches(player_id, presented) {
            (
                (move_x_spec(cur.0, dir, self.dim as int) as u8),
                (move_y_spec(cur.1, dir, self.dim as int) as u8),
            )
        } else {
            cur
        }
    }

    /// Validates and applies one move request.
    ///
    /// An out-of-range slot is a plaintext-detectable caller error and
    /// answers with the canonical origin and an encrypted false.  For a
    /// valid slot, all four direction tests, both candidate coordinates
    /// and the wraparound reductions are computed unconditionally; the
    /// token comparison enters only as the final conditional select, and
    /// the slot is rewritten even on a mismatch, so the operation count
    /// never depends on any encrypted value.
    pub fn move_direction(&mut self, player_id: usize, token: &S, direction: &S) -> (r: (
        (S, S),
        S::Flag,
    ))
        requires
            old(self).wf(),
            old(self).canonical(),
            player_id < old(self).num_players() ==> old(self).player_tokens@[player_id as int]
                is Some,
        ensures
            final(self).wf(),
            final(self).canonical(),
            final(self).same_config(&*old(self)),
            final(self).board.eggs@ == old(self).board.eggs@,
            final(self).player_tokens@ == old(self).player_tokens@,
            player_id >= old(self).num_players() ==> {
                &&& *final(self) == *old(self)
                &&& !S::truth(&r.1)
                &&& r.0.0.val() == 0
                &&& r.0.1.val() == 0
            },
            player_id < old(self).num_players() ==> {
                &&& S::truth(&r.1) == old(self).token_matches(player_id as int, token.val())
                &&& (r.0.0.val(), r.0.1.val()) == old(self).moved_coords(
                    player_id as int,
                    token.val(),
                    direction.val(),
                )
                &&& final(self).coords_model() == old(self).coords_model().update(
                    player_id as int,
                    Option::Some(
                        old(self).moved_coords(player_id as int, token.val(), direction.val()),
                    ),
                )
            },
    {
        if player_id >= self.player_tokens.len() {
            return (
                (self.constants[0].dup(), self.constants[0].dup()),
                S::dup_flag(&self.encrypted_false),
            );
        }
        let ghost gdim = self.dim as int;
        let (current_x, current_y) = match &self.player_coords[player_id] {
            Some(c) => (c.0.dup(), c.1.dup()),
            None => vstd::pervasive::unreached(),
        };
        let player_token = match &self.player_tokens[player_id] {
            Some(t) => t,
            None => vstd::pervasive::unreached(),
        };

        let zero = &self.constants[0];
        let one = &self.constants[1];
        let two = &self.constants[2];
        let three = &self.constants[3];
        let max_coord = &self.constants[self.dim - 1];
        // decodes to `dim`: the grid side fits an eight-bit value
        let board_size = max_coord.add_ct(one);

        // all four direction tests run no matter which one holds
        let up = direction.eq_ct(zero);
        let down = direction.eq_ct(one);
        let left = direction.eq_ct(two);
        let right = direction.eq_ct(three);

        // a step left adds dim - 1, one short of a full wrap, which equals
        // x - 1 modulo the grid side
        let x_minus_one = current_x.add_ct(max_coord);
        let x_plus_one = current_x.add_ct(one);
        let new_x = x_plus_one.mux_ct(&x_minus_one.mux_ct(&current_x, &left), &right);
        let new_x_reduced = new_x.rem_ct(&board_size);

        let y_minus_one = current_y.add_ct(max_coord);
        let y_plus_one = current_y.add_ct(one);
        let new_y = y_plus_one.mux_ct(&y_minus_one.mux_ct(&current_y, &up), &down);
        let new_y_reduced = new_y.rem_ct(&board_size);

        let token_match = token.eq_ct(player_token);

        // the token test is the only gate, applied as a select: the slot
        // is rewritten even when nothing moves
        let final_x = new_x_reduced.mux_ct(&current_x, &token_match);
        let final_y = new_y_reduced.mux_ct(&current_y, &token_match);

        proof {
            lemma_mod_bound((if direction.val() == 3 {
                (current_x.val() + 1) % 256
            } else if direction.val() == 2 {
                (current_x.val() + (gdim - 1)) % 256
            } else {
                current_x.val() as int
            }), gdim);
            lemma_mod_bound((if direction.val() == 1 {
                (current_y.val() + 1) % 256
            } else if direction.val() == 0 {
                (current_y.val() + (gdim - 1)) % 256
            } else {
                current_y.val() as int
            }), gdim);
        }
        let ret_x = final_x.dup();
        let ret_y = final_y.dup();
        self.player_coords.set(player_id, Some((final_x, final_y)));
        proof {
            assert(final(self).coords_model() =~= old(self).coords_model().update(
                player_id as int,
                Option::Some(
                    old(self).moved_coords(player_id as int, token.val(), direction.val()),
                ),
            ));
        }
        ((ret_x, ret_y), token_match)
    }
}

/// Point-write/point-read consistency: for every on-grid coordinate and
/// every value, an oblivious read of a coordinate just written returns
/// the written value, whatever the grid held before and whatever default
/// the reader supplies.
pub proof fn lemma_gather_after_scatter(board: Seq<u8>, dim: int, x: u8, y: u8, v: u8, d: u8)
    requires
        1 <= dim,
        board.len() == dim * dim,
        coord_in_range(dim, x, y),
    ensures
        gather_spec(scatter_spec(board, dim, x, y, v), dim, x, y, d) == v,
{
    lemma_cell_index_bounds(dim, x, y);
}

/// Scatter non-interference: writing one on-grid coordinate never changes
/// what any other on-grid coordinate reads.
pub proof fn lemma_scatter_non_interference(
    board: Seq<u8>,
    dim: int,
    x1: u8,
    y1: u8,
    v: u8,
    x2: u8,
    y2: u8,
    d: u8,
)
    requires
        1 <= dim,
        board.len() == dim * dim,
        coord_in_range(dim, x1, y1),
        coord_in_range(dim, x2, y2),
        !(x1 == x2 && y1 == y2),
    ensures
        gather_spec(scatter_spec(board, dim, x1, y1, v), dim, x2, y2, d) == gather_spec(
            board,
            dim,
            x2,
            y2,
            d,
        ),
{
    lemma_cell_index_bounds(dim, x1, y1);
    lemma_cell_index_bounds(dim, x2, y2);
    if cell_index(dim, x1, y1) == cell_index(dim, x2, y2) {
        lemma_cell_index_injective(dim, x1, y1, x2, y2);
    }
}

/// The token gate: a move request whose presented token does not match
/// the slot's registered token leaves the stored positions exactly as
/// they were — the rewrite that `move_direction` performs on the slot
/// stores back the value the slot already held.
pub proof fn lemma_move_token_gate<S: ObliviousScalar>(
    s: Server<S>,
    player_id: int,
    presented: u8,
    dir: u8,
)
    requires
        s.wf(),
        0 <= player_id < s.num_players(),
        s.player_coords@[player_id] is Some,
        !s.token_matches(player_id, presented),
    ensures
        s.coords_model().update(
            player_id,
            Option::Some(s.moved_coords(player_id, presented, dir)),
        ) =~= s.coords_model(),
{
}

/// An out-of-range coordinate reads the supplied default, whatever the
/// grid holds.
pub proof fn lemma_out_of_range_gather(board: Seq<u8>, dim: int, x: u8, y: u8, d: u8)
    requires
        !coord_in_range(dim, x, y),
    ensures
        gather_spec(board, dim, x, y, d) == d,
{
}

/// Toroidal move semantics for positions on the grid: a step left from
/// column zero wraps to the last column and a step right from the last
/// column wraps to column zero, and symmetrically for up and down; a
/// direction along one axis leaves the other coordinate unchanged.
pub proof fn lemma_move_wraparound(x: u8, y: u8, dim: int)
    requires
        1 <= dim <= 128,
        x < dim,
        y < dim,
    ensures
        move_x_spec(x, 2, dim) == (if x == 0 {
            dim - 1
        } else {
            x - 1
        }),
        move_x_spec(x, 3, dim) == (if x + 1 == dim {
            0int
        } else {
            x + 1
        }),
        move_x_spec(x, 0, dim) == x,
        move_x_spec(x, 1, dim) == x,
        move_y_spec(y, 0, dim) == (if y == 0 {
            dim - 1
        } else {
            y - 1
        }),
        move_y_spec(y, 1, dim) == (if y + 1 == dim {
            0int
        } else {
            y + 1
        }),
        move_y_spec(y, 2, dim) == y,
        move_y_spec(y, 3, dim) == y,
{
    lemma_step_down(x, dim);
    lemma_step_up(x, dim);
    lemma_step_down(y, dim);
    lemma_step_up(y, dim);
    lemma_fundamental_div_mod_converse_mod(x as int, dim, 0, x as int);
    lemma_fundamental_div_mod_converse_mod(y as int, dim, 0, y as int);
}

/// Adding `dim - 1` to a coordinate below `dim` and reducing modulo the
/// grid side steps one column down with wraparound.
proof fn lemma_step_down(x: u8, dim: int)
    requires
        1 <= dim <= 128,
        x < dim,
    ensures
        ((x + (dim - 1)) % 256) % dim == (if x == 0 {
            dim - 1
        } else {
            x - 1
        }),
{
    lemma_fundamental_div_mod_converse_mod(x + (dim - 1), 256, 0, x + (dim - 1));
    if x == 0 {
        lemma_fundamental_div_mod_converse_mod(dim - 1, dim, 0, dim - 1);
    } else {
        lemma_fundamental_div_mod_converse_mod(x + (dim - 1), dim, 1, x - 1);
    }
}

/// Adding one to a coordinate below `dim` and reducing modulo the grid
/// side steps one column up with wraparound.
proof fn lemma_step_up(x: u8, dim: int)
    requires
        1 <= dim <= 128,
        x < dim,
    ensures
        ((x + 1) % 256) % dim == (if x + 1 == dim {
            0int
        } else {
            x + 1
        }),
{
    lemma_fundamental_div_mod_converse_mod(x + 1, 256, 0, x + 1);
    if x + 1 == dim {
        lemma_fundamental_div_mod_converse_mod(dim, dim, 1, 0);
    } else {
        lemma_fundamental_div_mod_converse_mod(x + 1, dim, 0, x + 1);
    }
}

} // verus!
