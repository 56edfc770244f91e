pub mod arith;
pub mod chess;
pub mod eval;
pub mod window;
pub mod params;
pub mod ordering;
pub mod abdada;
pub mod tt;
pub mod see;
pub mod oracle;
pub mod time;
pub mod nnue;
pub mod position;
pub mod tantabus;
pub mod search;
pub mod engine;
pub mod uci;
pub mod random;
pub mod selfplay;
pub mod simple;
pub mod gendata;
