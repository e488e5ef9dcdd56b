//! What holds of parsing and equality as a whole.
//!
//! Each law is a public proof function; its doc comment says it in words.
pub mod case;
pub mod equality;
pub mod idempotence;
pub mod round_trip;
pub mod scanned;
pub mod table;
pub mod values;
pub mod variants;

pub use case::law_case_insensitive;
pub use equality::{
    law_equal_to_itself, law_order_independent, law_symmetric, law_transitive, law_wildcard,
};
pub use idempotence::law_idempotent;
pub use round_trip::law_round_trip;
pub use table::{law_fast_path_agrees, law_table_entry_parses};
pub use values::law_token_values;
