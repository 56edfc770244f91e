//! The classical engine: hand-written evaluation terms, principal variation search
//! helpers, a replace-always cache table and simple time managers.
pub mod eval;
pub mod oracle;
pub mod helpers;
pub mod phase;
pub mod window;
pub mod formulas;
pub mod time;
pub mod search;
pub mod cache;
pub mod history;
pub mod partition;
pub mod engine;
pub mod eval_set;
pub mod terms;
