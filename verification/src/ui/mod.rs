//! The decisions of the window: the shared mapping state, the rows of the
//! mapping list, and what closing and starting the window do.
pub mod components;
pub mod state;

pub use components::{
    cc_label, close_request, connection_status, lemma_row_order, row_name, row_to_add, start_minimized,
    CloseOutcome,
};
pub use state::AppState;
