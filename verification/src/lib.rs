//! An oblivious addressable-storage engine for encrypted game state.
//!
//! The engine keeps a square grid of encrypted cells and a registry of
//! players, each holding an encrypted identity token and an encrypted
//! position.  Reads (`read_egg`), writes (`set_fhe_square`) and move
//! validation (`move_direction`) are built purely out of data-independent
//! primitive operations over opaque scalars, so the party that runs the
//! engine touches every cell the same way no matter which coordinate a
//! ciphertext addresses.

mod circuit;
mod fhe;
mod join_macro;
mod plain;
mod scalar;

pub use circuit::{
    cell_index, const_count, coord_in_range, gather_spec, init_state, lemma_gather_after_scatter,
    lemma_move_token_gate, lemma_move_wraparound, lemma_out_of_range_gather,
    lemma_scatter_non_interference, move_x_spec, move_y_spec, read_egg, scatter_spec,
    table_canonical, update_egg, Board, EngineError, Server,
};
pub use fhe::{
    setup_values, CipherBool, CipherU8, ClientKeyHandle, DecryptionShare, FheFlag, FheScalar,
    Seed, UserId,
};
pub use join_macro::__requires_sendable_closure;
pub use plain::{PlainFlag, PlainScalar};
pub use scalar::ObliviousScalar;
