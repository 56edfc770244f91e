//! The NNUE evaluation: a first layer kept incrementally up to date from both sides'
//! perspectives (the accumulator), and an output layer chosen by material bucket.
use vstd::prelude::*;
use crate::arith::trunc_div;
use crate::chess::{
    ChessMove, PieceKind, Side, board_color_on, board_colors, board_en_passant, board_piece_on,
    board_pieces, board_side_to_move, bb_has, next_square, popcnt, popcount, spec_board_colors,
    spec_board_en_passant, spec_board_pieces, spec_board_side_to_move, spec_color_on, spec_has,
    spec_next_square, spec_piece_on,
};
use crate::eval::{Eval, MAX_INCONCLUSIVE};

verus! {

/// Input features: one per color, piece and square.
pub const NUM_FEATURES: usize = 768;
/// Width of the first layer.
pub const L1_SIZE: usize = 768;
/// Number of output buckets, selected by material.
pub const BUCKETS: usize = 16;

/// The network's weights.
pub struct Nnue {
    pub input_layer: Vec<Vec<i16>>,
    pub input_layer_bias: Vec<i16>,
    pub hidden_layer: Vec<Vec<i8>>,
    pub hidden_layer_bias: Vec<i32>,
}

impl Nnue {
    /// Layer shapes: 768 feature rows of 768, 16 buckets of 1536 output weights.
    pub open spec fn wf(&self) -> bool {
        &&& self.input_layer.len() == NUM_FEATURES
        &&& (forall|i: int| 0 <= i < NUM_FEATURES ==> (#[trigger] self.input_layer[i]).len() == L1_SIZE)
        &&& self.input_layer_bias.len() == L1_SIZE
        &&& self.hidden_layer.len() == BUCKETS
        &&& (forall|i: int| 0 <= i < BUCKETS ==> (#[trigger] self.hidden_layer[i]).len() == 2 * L1_SIZE)
        &&& self.hidden_layer_bias.len() == BUCKETS
    }

    pub open spec fn rows(&self) -> Seq<Seq<i16>> {
        self.input_layer@.map_values(|r: Vec<i16>| r@)
    }
}

/// The first layer's output for both perspectives, and the material count used to
/// pick the output bucket.
#[derive(Clone, Debug)]
pub struct NnueAccumulator {
    pub white: Vec<i16>,
    pub black: Vec<i16>,
    pub material: usize,
}

/// Index of the input feature "piece of color on square".
pub open spec fn spec_feature(color: Side, piece: PieceKind, sq: int) -> int {
    sq + 64 * (piece.spec_index() + 6 * color.spec_index())
}

pub fn feature(color: Side, piece: PieceKind, sq: u8) -> (r: usize)
    requires
        sq < 64,
    ensures
        r == spec_feature(color, piece, sq as int),
        r < NUM_FEATURES,
{
    sq as usize + 64 * (piece.index() + 6 * color.index())
}

/// Clipped squared ReLU.
pub open spec fn spec_activate(v: i16) -> int {
    let c = if v < 0 { 0 } else if v > 127 { 127 } else { v as int };
    c * c
}

pub fn activate(v: i16) -> (r: i32)
    ensures
        r == spec_activate(v),
        0 <= r <= 16129,
{
    let c: i32 = if v < 0 { 0 } else if v > 127 { 127 } else { v as i32 };
    assert(0 <= c * c <= 127 * 127) by (nonlinear_arith) requires 0 <= c <= 127;
    c * c
}

/// `acc` with `row` added (or subtracted) elementwise, wrapping in two's complement.
pub open spec fn spec_apply(acc: Seq<i16>, row: Seq<i16>, add: bool) -> Seq<i16> {
    Seq::new(acc.len(), |i: int| if add {
        vstd::wrapping::i16_specs::wrapping_add(acc[i], row[i])
    } else {
        vstd::wrapping::i16_specs::wrapping_sub(acc[i], row[i])
    })
}

/// The accumulator after a list of feature updates.
pub open spec fn spec_apply_updates(acc: Seq<i16>, rows: Seq<Seq<i16>>, ups: Seq<(bool, usize)>) -> Seq<i16>
    decreases ups.len(),
{
    if ups.len() == 0 {
        acc
    } else {
        spec_apply_updates(spec_apply(acc, rows[ups[0].1 as int], ups[0].0), rows, ups.drop_first())
    }
}

pub fn vadd(a: &mut Vec<i16>, b: &Vec<i16>)
    requires
        old(a).len() == b.len(),
    ensures
        final(a)@ == spec_apply(old(a)@, b@, true),
{
    let n = a.len();
    let mut i: usize = 0;
    while i < n
        invariant
            n == a.len() == b.len() == old(a).len(),
            i <= n,
            forall|j: int| 0 <= j < i ==> a[j] == vstd::wrapping::i16_specs::wrapping_add(old(a)[j], b[j]),
            forall|j: int| i <= j < n ==> a[j] == old(a)[j],
        decreases n - i,
    {
        let v = a[i].wrapping_add(b[i]);
        a.set(i, v);
        i = i + 1;
    }
    assert(a@ =~= spec_apply(old(a)@, b@, true));
}

pub fn vsub(a: &mut Vec<i16>, b: &Vec<i16>)
    requires
        old(a).len() == b.len(),
    ensures
        final(a)@ == spec_apply(old(a)@, b@, false),
{
    let n = a.len();
    let mut i: usize = 0;
    while i < n
        invariant
            n == a.len() == b.len() == old(a).len(),
            i <= n,
            forall|j: int| 0 <= j < i ==> a[j] == vstd::wrapping::i16_specs::wrapping_sub(old(a)[j], b[j]),
            forall|j: int| i <= j < n ==> a[j] == old(a)[j],
        decreases n - i,
    {
        let v = a[i].wrapping_sub(b[i]);
        a.set(i, v);
        i = i + 1;
    }
    assert(a@ =~= spec_apply(old(a)@, b@, false));
}

/// Applies a list of feature updates to one perspective.
fn apply_updates(acc: &mut Vec<i16>, net: &Nnue, ups: &Vec<(bool, usize)>)
    requires
        net.wf(),
        old(acc).len() == L1_SIZE,
        forall|k: int| 0 <= k < ups.len() ==> (#[trigger] ups[k]).1 < NUM_FEATURES,
    ensures
        final(acc).len() == L1_SIZE,
        final(acc)@ == spec_apply_updates(old(acc)@, net.rows(), ups@),
{
    let mut k: usize = 0;
    assert(ups@.skip(0) =~= ups@);
    while k < ups.len()
        invariant
            net.wf(),
            acc.len() == L1_SIZE,
            k <= ups.len(),
            forall|k: int| 0 <= k < ups.len() ==> (#[trigger] ups[k]).1 < NUM_FEATURES,
            spec_apply_updates(old(acc)@, net.rows(), ups@) == spec_apply_updates(acc@, net.rows(), ups@.skip(k as int)),
        decreases ups.len() - k,
    {
        let (add, f) = ups[k];
        let row = &net.input_layer[f];
        assert(net.rows()[f as int] == row@);
        assert(ups@.skip(k as int)[0] == ups[k as int]);
        assert(ups@.skip(k as int).drop_first() =~= ups@.skip(k + 1));
        if add {
            vadd(acc, row);
        } else {
            vsub(acc, row);
        }
        k = k + 1;
    }
    assert(ups@.skip(k as int).len() == 0);
}

/// Weight of a piece for bucket selection (pawn 1, minor 3, rook 5, queen 8).
pub open spec fn spec_material_value(p: PieceKind) -> int {
    match p {
        PieceKind::Pawn => 1,
        PieceKind::Knight => 3,
        PieceKind::Bishop => 3,
        PieceKind::Rook => 5,
        PieceKind::Queen => 8,
        PieceKind::King => 0,
    }
}

/// Material of a board by bucket weights.
pub open spec fn spec_board_material(board: cozy_chess::Board) -> int {
    popcount(spec_board_pieces(board, PieceKind::Pawn)) as int + 3 * popcount(spec_board_pieces(board, PieceKind::Bishop))
        + 3 * popcount(spec_board_pieces(board, PieceKind::Knight)) + 5 * popcount(spec_board_pieces(board, PieceKind::Rook))
        + 8 * popcount(spec_board_pieces(board, PieceKind::Queen))
}

/// A bitboard without its lowest square.
pub open spec fn pop_lowest(bb: u64) -> u64 {
    bb & sub1(bb)
}

pub open spec fn sub1(bb: u64) -> u64 {
    (bb - 1) as u64
}

pub proof fn lemma_pop_lowest_decreases(bb: u64)
    requires
        bb != 0,
    ensures
        pop_lowest(bb) < bb,
{
    let m = sub1(bb);
    assert(bb & m < bb) by (bit_vector)
        requires bb != 0, m == (bb - 1) as u64;
}

/// The color of the piece on `sq` as the accumulator sees it: white if white has a
/// piece there, black otherwise.
pub open spec fn spec_owner(board: cozy_chess::Board, sq: u8) -> Side {
    if spec_has(spec_board_colors(board, Side::White), sq) { Side::White } else { Side::Black }
}

/// The features of the pieces of kind `p` still in `bb`, lowest square first, from
/// white's perspective (`white_view`) or black's (colors swapped, board flipped).
pub open spec fn spec_piece_features(board: cozy_chess::Board, p: PieceKind, bb: u64, white_view: bool) -> Seq<(bool, usize)>
    decreases bb,
{
    if bb == 0 {
        Seq::empty()
    } else {
        proof {
            lemma_pop_lowest_decreases(bb);
        }
        let sq = spec_next_square(bb)->0;
        let c = spec_owner(board, sq);
        let f = if white_view { spec_feature(c, p, sq as int) } else { spec_feature(c.spec_flip(), p, (sq ^ 56u8) as int) };
        seq![(true, f as usize)] + spec_piece_features(board, p, pop_lowest(bb), white_view)
    }
}

/// All features of a board, piece kind by piece kind.
pub open spec fn spec_board_features(board: cozy_chess::Board, white_view: bool) -> Seq<(bool, usize)> {
    spec_piece_features(board, PieceKind::Pawn, spec_board_pieces(board, PieceKind::Pawn), white_view)
        + spec_piece_features(board, PieceKind::Knight, spec_board_pieces(board, PieceKind::Knight), white_view)
        + spec_piece_features(board, PieceKind::Bishop, spec_board_pieces(board, PieceKind::Bishop), white_view)
        + spec_piece_features(board, PieceKind::Rook, spec_board_pieces(board, PieceKind::Rook), white_view)
        + spec_piece_features(board, PieceKind::Queen, spec_board_pieces(board, PieceKind::Queen), white_view)
        + spec_piece_features(board, PieceKind::King, spec_board_pieces(board, PieceKind::King), white_view)
}

/// The bucket an amount of material selects (`material * 16` wraps on overflow).
pub open spec fn spec_bucket(material: usize) -> int {
    let b = vstd::wrapping::usize_specs::wrapping_mul(material, 16) as int / 76;
    if b < 15 { b } else { 15 }
}

/// Activations of both perspectives, side to move first.
pub open spec fn spec_activations(first: Seq<i16>, second: Seq<i16>) -> Seq<int> {
    first.map_values(|v: i16| spec_activate(v)) + second.map_values(|v: i16| spec_activate(v))
}

/// The output sum with every step wrapping to `i32`.
pub open spec fn spec_wrapped_dot(start: i32, acts: Seq<int>, w: Seq<i8>, k: int) -> i32
    decreases k,
{
    if k <= 0 {
        start
    } else {
        vstd::wrapping::i32_specs::wrapping_add(spec_wrapped_dot(start, acts, w, k - 1), (acts[k - 1] * w[k - 1]) as i32)
    }
}

/// The evaluation of an accumulator with perspectives `white` and `black` and material
/// `material` (`NnueAccumulator::spec_eval`).
pub open spec fn spec_eval_of(white: Seq<i16>, black: Seq<i16>, material: usize, net: &Nnue, stm: Side) -> int {
    let b = spec_bucket(material);
    let (first, second) = match stm {
        Side::White => (white, black),
        Side::Black => (black, white),
    };
    let output = spec_wrapped_dot(
        vstd::wrapping::i32_specs::wrapping_mul(net.hidden_layer_bias[b], 127),
        spec_activations(first, second),
        net.hidden_layer[b]@,
        1536,
    );
    crate::arith::clamp(
        (trunc_div(trunc_div(output as int, 127), 8) as i16) as int,
        -MAX_INCONCLUSIVE as int,
        MAX_INCONCLUSIVE as int,
    )
}

impl NnueAccumulator {
    /// An equal accumulator.
    pub fn copy(&self) -> (r: Self)
        ensures
            r.white@ == self.white@,
            r.black@ == self.black@,
            r.material == self.material,
    {
        let white = self.white.clone();
        let black = self.black.clone();
        proof {
            assert(white@ =~= self.white@);
            assert(black@ =~= self.black@);
        }
        NnueAccumulator { white, black, material: self.material }
    }

    pub open spec fn perspectives(&self, stm: Side) -> (Seq<i16>, Seq<i16>) {
        match stm {
            Side::White => (self.white@, self.black@),
            Side::Black => (self.black@, self.white@),
        }
    }

    /// The evaluation before scaling: bucket bias times 127 plus the weighted
    /// activations, in wrapping `i32` arithmetic.
    pub open spec fn spec_output(&self, net: &Nnue, stm: Side) -> i32 {
        let b = spec_bucket(self.material);
        let (first, second) = self.perspectives(stm);
        spec_wrapped_dot(
            vstd::wrapping::i32_specs::wrapping_mul(net.hidden_layer_bias[b], 127),
            spec_activations(first, second),
            net.hidden_layer[b]@,
            1536,
        )
    }

    /// The evaluation `calculate` gives: the output scaled down by 127 and 8 (truncating
    /// toward zero, then to `i16`) and clamped to an inconclusive score.
    pub open spec fn spec_eval(&self, net: &Nnue, stm: Side) -> int {
        spec_eval_of(self.white@, self.black@, self.material, net, stm)
    }

    /// Computes the accumulator of a board from scratch.
    pub fn new(net: &Nnue, board: &cozy_chess::Board) -> (r: Self)
        requires
            net.wf(),
        ensures
            r.white@ == spec_apply_updates(net.input_layer_bias@, net.rows(), spec_board_features(*board, true)),
            r.black@ == spec_apply_updates(net.input_layer_bias@, net.rows(), spec_board_features(*board, false)),
            r.material == spec_board_material(*board),
            r.white.len() == L1_SIZE,
            r.black.len() == L1_SIZE,
    {
        let white_ups = board_features(board, true);
        let black_ups = board_features(board, false);
        let mut white = net.input_layer_bias.clone();
        let mut black = net.input_layer_bias.clone();
        assert(white@ == net.input_layer_bias@);
        apply_updates(&mut white, net, &white_ups);
        apply_updates(&mut black, net, &black_ups);
        let pawns = popcnt(board_pieces(board, PieceKind::Pawn)) as usize;
        let bishops = popcnt(board_pieces(board, PieceKind::Bishop)) as usize;
        let knights = popcnt(board_pieces(board, PieceKind::Knight)) as usize;
        let rooks = popcnt(board_pieces(board, PieceKind::Rook)) as usize;
        let queens = popcnt(board_pieces(board, PieceKind::Queen)) as usize;
        NnueAccumulator { white, black, material: pawns + 3 * bishops + 3 * knights + 5 * rooks + 8 * queens }
    }

    /// The evaluation for the side to move: the material bucket's output layer over both
    /// perspectives, scaled down and clamped to an inconclusive score.
    pub fn calculate(&self, net: &Nnue, stm: Side) -> (r: Eval)
        requires
            net.wf(),
            self.white.len() == L1_SIZE,
            self.black.len() == L1_SIZE,
        ensures
            r.0 == self.spec_eval(net, stm),
    {
        let b0 = self.material.wrapping_mul(BUCKETS) / 76;
        let bucket = if b0 < BUCKETS - 1 { b0 } else { BUCKETS - 1 };
        let (first, second) = match stm {
            Side::White => (&self.white, &self.black),
            Side::Black => (&self.black, &self.white),
        };
        let ghost acts = spec_activations(first@, second@);
        let weights = &net.hidden_layer[bucket];
        let start: i32 = net.hidden_layer_bias[bucket].wrapping_mul(127);
        let mut output: i32 = start;
        let mut i: usize = 0;
        while i < 2 * L1_SIZE
            invariant
                net.wf(),
                bucket < BUCKETS,
                weights@ == net.hidden_layer[bucket as int]@,
                first.len() == L1_SIZE,
                second.len() == L1_SIZE,
                acts == spec_activations(first@, second@),
                acts.len() == 2 * L1_SIZE,
                i <= 2 * L1_SIZE,
                start == vstd::wrapping::i32_specs::wrapping_mul(net.hidden_layer_bias[bucket as int], 127),
                output == spec_wrapped_dot(start, acts, weights@, i as int),
            decreases 2 * L1_SIZE - i,
        {
            let a = if i < L1_SIZE { activate(first[i]) } else { activate(second[i - L1_SIZE]) };
            assert(a == acts[i as int]);
            assert(-16129 * 128 <= a * (weights[i as int] as int) <= 16129 * 128) by (nonlinear_arith)
                requires 0 <= a <= 16129, -128 <= weights[i as int] <= 127;
            output = output.wrapping_add(a * weights[i] as i32);
            i = i + 1;
        }
        Eval::new((output / 127 / 8) as i16)
    }

    /// The accumulator after `mv` is played on `board` (the position the accumulator
    /// was computed for).
    pub fn play_move(&self, net: &Nnue, board: &cozy_chess::Board, mv: ChessMove) -> (r: Self)
        requires
            net.wf(),
            mv.valid(),
            self.white.len() == L1_SIZE,
            self.black.len() == L1_SIZE,
            move_allowed(*board, mv),
        ensures
            r.white@ == spec_apply_updates(self.white@, net.rows(), spec_move_updates(*board, mv).map_values(|u: (bool, usize, usize)| (u.0, u.1))),
            r.black@ == spec_apply_updates(self.black@, net.rows(), spec_move_updates(*board, mv).map_values(|u: (bool, usize, usize)| (u.0, u.2))),
            r.material == spec_material_after(*board, mv, self.material),
            r.white.len() == L1_SIZE,
            r.black.len() == L1_SIZE,
    {
        let ups = move_updates(board, mv);
        let mut white_ups: Vec<(bool, usize)> = Vec::new();
        let mut black_ups: Vec<(bool, usize)> = Vec::new();
        let mut k: usize = 0;
        while k < ups.len()
            invariant
                k <= ups.len(),
                forall|j: int| 0 <= j < ups.len() ==> (#[trigger] ups[j]).1 < NUM_FEATURES && ups[j].2 < NUM_FEATURES,
                white_ups@ == ups@.take(k as int).map_values(|u: (bool, usize, usize)| (u.0, u.1)),
                black_ups@ == ups@.take(k as int).map_values(|u: (bool, usize, usize)| (u.0, u.2)),
            decreases ups.len() - k,
        {
            let u = ups[k];
            white_ups.push((u.0, u.1));
            black_ups.push((u.0, u.2));
            assert(ups@.take(k + 1) =~= ups@.take(k as int).push(u));
            k = k + 1;
        }
        assert(ups@.take(k as int) =~= ups@);
        let mut white = self.white.clone();
        let mut black = self.black.clone();
        assert(white@ == self.white@);
        assert(black@ == self.black@);
        apply_updates(&mut white, net, &white_ups);
        apply_updates(&mut black, net, &black_ups);
        NnueAccumulator { white, black, material: material_after(board, mv, self.material) }
    }
}

/// The features of one piece kind, lowest square first.
fn piece_features(board: &cozy_chess::Board, p: PieceKind, white_view: bool, out: &mut Vec<(bool, usize)>)
    ensures
        final(out)@ == old(out)@ + spec_piece_features(*board, p, spec_board_pieces(*board, p), white_view),
        forall|k: int| 0 <= k < final(out).len() ==> (#[trigger] final(out)[k]).1 < NUM_FEATURES || k < old(out).len(),
{
    let mut bb = board_pieces(board, p);
    let ghost start = old(out)@;
    let white = board_colors(board, Side::White);
    while bb != 0
        invariant
            white == spec_board_colors(*board, Side::White),
            start + spec_piece_features(*board, p, spec_board_pieces(*board, p), white_view)
                == out@ + spec_piece_features(*board, p, bb, white_view),
            out.len() >= start.len(),
            out@.subrange(0, start.len() as int) == start,
            forall|k: int| start.len() <= k < out.len() ==> (#[trigger] out[k]).1 < NUM_FEATURES,
        decreases bb,
    {
        let sq = match next_square(bb) {
            Some(s) => s,
            None => 0,
        };
        let c = if bb_has(white, sq) { Side::White } else { Side::Black };
        let f = if white_view { feature(c, p, sq) } else {
            assert((sq ^ 56u8) < 64) by (bit_vector) requires sq < 64;
            feature(c.flip(), p, sq ^ 56u8)
        };
        let ghost before = out@;
        out.push((true, f));
        proof {
            lemma_pop_lowest_decreases(bb);
        }
        let ghost old_bb = bb;
        bb = bb & (bb - 1);
        proof {
            assert(spec_piece_features(*board, p, old_bb, white_view) == seq![(true, f)] + spec_piece_features(*board, p, bb, white_view));
            assert(out@ == before.push((true, f)));
            assert(before + (seq![(true, f)] + spec_piece_features(*board, p, bb, white_view)) =~= out@ + spec_piece_features(*board, p, bb, white_view));
            assert(out@.subrange(0, start.len() as int) =~= before.subrange(0, start.len() as int));
        }
    }
    assert(spec_piece_features(*board, p, 0, white_view).len() == 0);
    assert(out@ + spec_piece_features(*board, p, 0, white_view) =~= out@);
}

fn board_features(board: &cozy_chess::Board, white_view: bool) -> (r: Vec<(bool, usize)>)
    ensures
        r@ == spec_board_features(*board, white_view),
        forall|k: int| 0 <= k < r.len() ==> (#[trigger] r[k]).1 < NUM_FEATURES,
{
    let mut out: Vec<(bool, usize)> = Vec::new();
    piece_features(board, PieceKind::Pawn, white_view, &mut out);
    piece_features(board, PieceKind::Knight, white_view, &mut out);
    piece_features(board, PieceKind::Bishop, white_view, &mut out);
    piece_features(board, PieceKind::Rook, white_view, &mut out);
    piece_features(board, PieceKind::Queen, white_view, &mut out);
    piece_features(board, PieceKind::King, white_view, &mut out);
    assert(out@ =~= spec_board_features(*board, white_view));
    out
}

/// Square of a file and rank.
pub open spec fn spec_square(file: int, rank: int) -> int {
    rank * 8 + file
}

/// A rank seen from `color`'s side (rank 0 is `color`'s back rank).
pub open spec fn spec_relative_rank(rank: int, color: Side) -> int {
    match color {
        Side::White => rank,
        Side::Black => 7 - rank,
    }
}

pub open spec fn flip(sq: u8) -> int {
    (sq ^ 56u8) as int
}

/// The move is an en passant capture: a pawn moving to the en passant square.
pub open spec fn spec_is_ep(board: cozy_chess::Board, mv: ChessMove) -> bool {
    let us = spec_board_side_to_move(board);
    match spec_board_en_passant(board) {
        Some(f) => spec_piece_on(board, mv.from) == Some(PieceKind::Pawn) && mv.to == spec_square(f as int, spec_relative_rank(5, us)),
        None => false,
    }
}

/// The feature changes of a move, as (add, white feature, black feature): the moved
/// piece leaves its square, whatever stood on the target leaves it, an en passant
/// victim leaves its square, and then either king and rook land on their castling
/// squares or the moved (or promoted) piece lands on the target.
pub open spec fn spec_lift_ups(board: cozy_chess::Board, mv: ChessMove) -> Seq<(bool, usize, usize)> {
    let us = spec_board_side_to_move(board);
    let moved = spec_piece_on(board, mv.from)->0;
    seq![(false, spec_feature(us, moved, mv.from as int) as usize, spec_feature(us.spec_flip(), moved, flip(mv.from)) as usize)]
}

pub open spec fn spec_victim_ups(board: cozy_chess::Board, mv: ChessMove) -> Seq<(bool, usize, usize)> {
    match (spec_color_on(board, mv.to), spec_piece_on(board, mv.to)) {
        (Some(c), Some(p)) => seq![(false, spec_feature(c, p, mv.to as int) as usize, spec_feature(c.spec_flip(), p, flip(mv.to)) as usize)],
        _ => Seq::empty(),
    }
}

pub open spec fn spec_ep_ups(board: cozy_chess::Board, mv: ChessMove) -> Seq<(bool, usize, usize)> {
    let us = spec_board_side_to_move(board);
    if spec_is_ep(board, mv) {
        let f = spec_board_en_passant(board)->0 as int;
        seq![(false, spec_feature(us.spec_flip(), PieceKind::Pawn, spec_square(f, spec_relative_rank(4, us))) as usize,
              spec_feature(us, PieceKind::Pawn, spec_square(f, spec_relative_rank(4, us.spec_flip()))) as usize)]
    } else {
        Seq::empty()
    }
}

pub open spec fn spec_drop_ups(board: cozy_chess::Board, mv: ChessMove) -> Seq<(bool, usize, usize)> {
    let us = spec_board_side_to_move(board);
    let them = us.spec_flip();
    let moved = spec_piece_on(board, mv.from)->0;
    if spec_color_on(board, mv.to) == Some(us) {
        let rank = spec_relative_rank(0, us);
        let kf = if mv.from % 8 > mv.to % 8 { 2int } else { 6int };
        let rf = if mv.from % 8 > mv.to % 8 { 3int } else { 5int };
        seq![
            (true, spec_feature(us, PieceKind::King, spec_square(kf, rank)) as usize, spec_feature(them, PieceKind::King, spec_square(kf, 7 - rank)) as usize),
            (true, spec_feature(us, PieceKind::Rook, spec_square(rf, rank)) as usize, spec_feature(them, PieceKind::Rook, spec_square(rf, 7 - rank)) as usize)
        ]
    } else {
        let added = match mv.promotion {
            Some(p) => p,
            None => moved,
        };
        seq![(true, spec_feature(us, added, mv.to as int) as usize, spec_feature(them, added, flip(mv.to)) as usize)]
    }
}

/// The feature changes of a move, as (add, white feature, black feature): the moved
/// piece leaves its square, whatever stood on the target leaves it, an en passant
/// victim leaves its square, and then either king and rook land on their castling
/// squares or the moved (or promoted) piece lands on the target.
pub open spec fn spec_move_updates(board: cozy_chess::Board, mv: ChessMove) -> Seq<(bool, usize, usize)> {
    spec_lift_ups(board, mv) + spec_victim_ups(board, mv) + spec_ep_ups(board, mv) + spec_drop_ups(board, mv)
}

/// Material after the move: a captured piece is removed, a promotion adds the
/// difference to a pawn, an en passant capture removes a pawn (all with wrapping
/// arithmetic).
pub open spec fn spec_material_after(board: cozy_chess::Board, mv: ChessMove, material: usize) -> usize {
    let us = spec_board_side_to_move(board);
    let m1 = if spec_has(spec_board_colors(board, us.spec_flip()), mv.to) {
        vstd::wrapping::usize_specs::wrapping_sub(material, spec_material_value(spec_piece_on(board, mv.to)->0) as usize)
    } else {
        material
    };
    let m2 = vstd::wrapping::usize_specs::wrapping_add(m1, match mv.promotion {
        Some(PieceKind::Bishop) => 2usize,
        Some(PieceKind::Knight) => 2usize,
        Some(PieceKind::Rook) => 4usize,
        Some(PieceKind::Queen) => 7usize,
        _ => 0usize,
    });
    if spec_is_ep(board, mv) { vstd::wrapping::usize_specs::wrapping_sub(m2, 1) } else { m2 }
}

/// What the accumulator update needs of a move: a piece to move, and a capturable (non-king)
/// victim on an enemy target.
pub open spec fn move_allowed(board: cozy_chess::Board, mv: ChessMove) -> bool {
    let us = spec_board_side_to_move(board);
    let captures = spec_has(spec_board_colors(board, us.spec_flip()), mv.to);
    &&& spec_piece_on(board, mv.from) is Some
    &&& captures ==> spec_piece_on(board, mv.to) is Some && spec_piece_on(board, mv.to) != Some(PieceKind::King)
}

/// Whether `move_allowed` holds: decided from the board's bitboards.
pub fn move_playable(board: &cozy_chess::Board, mv: ChessMove) -> (r: bool)
    requires
        mv.valid(),
    ensures
        r == move_allowed(*board, mv),
{
    let us = board_side_to_move(board);
    if board_piece_on(board, mv.from).is_none() {
        return false;
    }
    if bb_has(board_colors(board, us.flip()), mv.to) {
        match board_piece_on(board, mv.to) {
            Some(PieceKind::King) => false,
            Some(_) => true,
            None => false,
        }
    } else {
        true
    }
}

fn material_value(p: PieceKind) -> (r: usize)
    ensures
        r == spec_material_value(p),
{
    match p {
        PieceKind::Pawn => 1,
        PieceKind::Knight => 3,
        PieceKind::Bishop => 3,
        PieceKind::Rook => 5,
        PieceKind::Queen => 8,
        PieceKind::King => 0,
    }
}

fn is_ep(board: &cozy_chess::Board, mv: ChessMove, us: Side, moved: PieceKind) -> (r: bool)
    requires
        mv.valid(),
        us == spec_board_side_to_move(*board),
        spec_piece_on(*board, mv.from) == Some(moved),
    ensures
        r == spec_is_ep(*board, mv),
{
    match board_en_passant(board) {
        Some(f) => {
            let rank: u8 = match us {
                Side::White => 5,
                Side::Black => 2,
            };
            moved == PieceKind::Pawn && mv.to == rank * 8 + f
        },
        None => false,
    }
}

fn material_after(board: &cozy_chess::Board, mv: ChessMove, material: usize) -> (r: usize)
    requires
        mv.valid(),
        move_allowed(*board, mv),
    ensures
        r == spec_material_after(*board, mv, material),
{
    let us = board_side_to_move(board);
    let moved = match board_piece_on(board, mv.from) {
        Some(p) => p,
        None => PieceKind::Pawn,
    };
    let mut m = material;
    if bb_has(board_colors(board, us.flip()), mv.to) {
        let v = match board_piece_on(board, mv.to) {
            Some(p) => material_value(p),
            None => 0,
        };
        m = m.wrapping_sub(v);
    }
    m = m.wrapping_add(match mv.promotion {
        Some(PieceKind::Bishop) => 2,
        Some(PieceKind::Knight) => 2,
        Some(PieceKind::Rook) => 4,
        Some(PieceKind::Queen) => 7,
        _ => 0,
    });
    if is_ep(board, mv, us, moved) {
        m = m.wrapping_sub(1);
    }
    m
}

pub open spec fn ups_in_range(s: Seq<(bool, usize, usize)>) -> bool {
    forall|j: int| 0 <= j < s.len() ==> (#[trigger] s[j]).1 < NUM_FEATURES && s[j].2 < NUM_FEATURES
}

fn push_lift(board: &cozy_chess::Board, mv: ChessMove, ups: &mut Vec<(bool, usize, usize)>)
    requires
        mv.valid(),
        spec_piece_on(*board, mv.from) is Some,
        ups_in_range(old(ups)@),
    ensures
        final(ups)@ == old(ups)@ + spec_lift_ups(*board, mv),
        ups_in_range(final(ups)@),
{
    let us = board_side_to_move(board);
    let moved = match board_piece_on(board, mv.from) {
        Some(p) => p,
        None => PieceKind::Pawn,
    };
    let from = mv.from;
    assert((from ^ 56u8) < 64) by (bit_vector) requires from < 64;
    ups.push((false, feature(us, moved, from), feature(us.flip(), moved, from ^ 56u8)));
    assert(ups@ =~= old(ups)@ + spec_lift_ups(*board, mv));
}

fn push_victim(board: &cozy_chess::Board, mv: ChessMove, ups: &mut Vec<(bool, usize, usize)>)
    requires
        mv.valid(),
        ups_in_range(old(ups)@),
    ensures
        final(ups)@ == old(ups)@ + spec_victim_ups(*board, mv),
        ups_in_range(final(ups)@),
{
    let to = mv.to;
    assert((to ^ 56u8) < 64) by (bit_vector) requires to < 64;
    match (board_color_on(board, to), board_piece_on(board, to)) {
        (Some(c), Some(p)) => {
            ups.push((false, feature(c, p, to), feature(c.flip(), p, to ^ 56u8)));
        },
        _ => {},
    }
    assert(ups@ =~= old(ups)@ + spec_victim_ups(*board, mv));
}

fn push_ep(board: &cozy_chess::Board, mv: ChessMove, ups: &mut Vec<(bool, usize, usize)>)
    requires
        mv.valid(),
        spec_piece_on(*board, mv.from) is Some,
        ups_in_range(old(ups)@),
    ensures
        final(ups)@ == old(ups)@ + spec_ep_ups(*board, mv),
        ups_in_range(final(ups)@),
{
    let us = board_side_to_move(board);
    let moved = match board_piece_on(board, mv.from) {
        Some(p) => p,
        None => PieceKind::Pawn,
    };
    if is_ep(board, mv, us, moved) {
        let f = match board_en_passant(board) {
            Some(f) => f,
            None => 0,
        };
        let (r_us, r_them): (u8, u8) = match us {
            Side::White => (4, 3),
            Side::Black => (3, 4),
        };
        ups.push((false, feature(us.flip(), PieceKind::Pawn, r_us * 8 + f), feature(us, PieceKind::Pawn, r_them * 8 + f)));
    }
    assert(ups@ =~= old(ups)@ + spec_ep_ups(*board, mv));
}

fn push_drop(board: &cozy_chess::Board, mv: ChessMove, ups: &mut Vec<(bool, usize, usize)>)
    requires
        mv.valid(),
        spec_piece_on(*board, mv.from) is Some,
        ups_in_range(old(ups)@),
    ensures
        final(ups)@ == old(ups)@ + spec_drop_ups(*board, mv),
        ups_in_range(final(ups)@),
{
    let us = board_side_to_move(board);
    let them = us.flip();
    let moved = match board_piece_on(board, mv.from) {
        Some(p) => p,
        None => PieceKind::Pawn,
    };
    let castles = match board_color_on(board, mv.to) {
        Some(c) => c == us,
        None => false,
    };
    if castles {
        let rank: u8 = match us {
            Side::White => 0,
            Side::Black => 7,
        };
        let queen_side = mv.from % 8 > mv.to % 8;
        let kf: u8 = if queen_side { 2 } else { 6 };
        let rf: u8 = if queen_side { 3 } else { 5 };
        ups.push((true, feature(us, PieceKind::King, rank * 8 + kf), feature(them, PieceKind::King, (7 - rank) * 8 + kf)));
        ups.push((true, feature(us, PieceKind::Rook, rank * 8 + rf), feature(them, PieceKind::Rook, (7 - rank) * 8 + rf)));
    } else {
        let added = match mv.promotion {
            Some(p) => p,
            None => moved,
        };
        let to = mv.to;
        assert((to ^ 56u8) < 64) by (bit_vector) requires to < 64;
        ups.push((true, feature(us, added, to), feature(them, added, to ^ 56u8)));
    }
    assert(ups@ =~= old(ups)@ + spec_drop_ups(*board, mv));
}

/// Computes the feature changes of a move (see `spec_move_updates`).
fn move_updates(board: &cozy_chess::Board, mv: ChessMove) -> (r: Vec<(bool, usize, usize)>)
    requires
        mv.valid(),
        spec_piece_on(*board, mv.from) is Some,
    ensures
        r@ == spec_move_updates(*board, mv),
        forall|j: int| 0 <= j < r.len() ==> (#[trigger] r[j]).1 < NUM_FEATURES && r[j].2 < NUM_FEATURES,
{
    let mut ups: Vec<(bool, usize, usize)> = Vec::new();
    push_lift(board, mv, &mut ups);
    push_victim(board, mv, &mut ups);
    push_ep(board, mv, &mut ups);
    push_drop(board, mv, &mut ups);
    assert(ups@ =~= spec_move_updates(*board, mv));
    ups
}

/// Feature indices are unique: distinct (color, piece, square) triples never share an
/// input, so each piece on the board moves exactly its own weights.
pub proof fn lemma_feature_injective(c1: Side, p1: PieceKind, s1: int, c2: Side, p2: PieceKind, s2: int)
    requires
        0 <= s1 < 64,
        0 <= s2 < 64,
        spec_feature(c1, p1, s1) == spec_feature(c2, p2, s2),
    ensures
        c1 == c2 && p1 == p2 && s1 == s2,
{
}

/// The activation never decreases as its input grows, and stays in `[0, 127²]`.
pub proof fn lemma_activate_monotone(a: i16, b: i16)
    requires
        a <= b,
    ensures
        0 <= spec_activate(a) <= spec_activate(b) <= 16129,
{
    let ca = if a < 0 { 0 } else if a > 127 { 127 } else { a as int };
    let cb = if b < 0 { 0 } else if b > 127 { 127 } else { b as int };
    assert(0 <= ca * ca <= cb * cb <= 127 * 127) by (nonlinear_arith) requires 0 <= ca <= cb <= 127;
}


/// The output sum over the first `k` inputs reads only those inputs.
proof fn lemma_wrapped_dot_prefix(start: i32, a1: Seq<int>, a2: Seq<int>, w: Seq<i8>, k: int)
    requires
        forall|j: int| 0 <= j < k ==> a1[j] == a2[j],
    ensures
        spec_wrapped_dot(start, a1, w, k) == spec_wrapped_dot(start, a2, w, k),
    decreases k,
{
    if k > 0 {
        lemma_wrapped_dot_prefix(start, a1, a2, w, k - 1);
    }
}

/// Inputs whose weights are zero add nothing to the output sum.
proof fn lemma_wrapped_dot_zero_tail(start: i32, a: Seq<int>, w: Seq<i8>, n: int, k: int)
    requires
        0 <= n <= k,
        forall|j: int| n <= j < k ==> w[j] == 0,
    ensures
        spec_wrapped_dot(start, a, w, k) == spec_wrapped_dot(start, a, w, n),
    decreases k,
{
    if k > n {
        lemma_wrapped_dot_zero_tail(start, a, w, n, k - 1);
        let x = a[k - 1];
        let y = w[k - 1];
        assert(x * y == 0) by (nonlinear_arith)
            requires y == 0;
    }
}

/// The side to move's perspective feeds the first half of the output layer, the
/// opponent's the second: with a network whose output weights on the second half are
/// all zero, the evaluation for White reads the white perspective alone, and the
/// evaluation for Black the black perspective alone.
pub proof fn law_side_to_move_perspective_comes_first(
    own: Seq<i16>,
    other1: Seq<i16>,
    other2: Seq<i16>,
    material: usize,
    net: &Nnue,
)
    requires
        net.wf(),
        own.len() == L1_SIZE,
        other1.len() == L1_SIZE,
        other2.len() == L1_SIZE,
        forall|b: int, j: int| 0 <= b < BUCKETS && L1_SIZE <= j < 2 * L1_SIZE ==> #[trigger] net.hidden_layer[b]@[j] == 0,
    ensures
        spec_eval_of(own, other1, material, net, Side::White) == spec_eval_of(own, other2, material, net, Side::White),
        spec_eval_of(other1, own, material, net, Side::Black) == spec_eval_of(other2, own, material, net, Side::Black),
{
    let b = spec_bucket(material);
    let w = net.hidden_layer[b]@;
    let start = vstd::wrapping::i32_specs::wrapping_mul(net.hidden_layer_bias[b], 127);
    let a1 = spec_activations(own, other1);
    let a2 = spec_activations(own, other2);
    assert forall|j: int| L1_SIZE <= j < 2 * L1_SIZE implies w[j] == 0 by {
        assert(net.hidden_layer[b]@[j] == 0);
    }
    lemma_wrapped_dot_zero_tail(start, a1, w, L1_SIZE as int, 2 * L1_SIZE as int);
    lemma_wrapped_dot_zero_tail(start, a2, w, L1_SIZE as int, 2 * L1_SIZE as int);
    assert forall|j: int| 0 <= j < L1_SIZE implies a1[j] == a2[j] by {
        assert(a1[j] == spec_activate(own[j]));
        assert(a2[j] == spec_activate(own[j]));
    }
    lemma_wrapped_dot_prefix(start, a1, a2, w, L1_SIZE as int);
}

} // verus!
