//! The NNUE engine's transposition table: one slot per hash index, each holding the
//! position hash xor-ed with a packed data word, so a torn or foreign slot never
//! validates.
use vstd::prelude::*;
use crate::chess::{ChessMove, PieceKind, board_hash, board_is_legal, spec_board_hash, spec_board_is_legal,
    spec_board_legal_moves};
use crate::eval::{Eval, MATE, spec_add_time, spec_sub_time, sub_time_allowed};

verus! {

/// Slots per megabyte of hash: a slot is two `u64`s.
pub const ENTRIES_PER_MB: usize = 65536;

/// The bound a stored score represents.
#[derive(Clone, Copy, Debug, PartialEq, Eq, Structural)]
pub enum NodeKind {
    Exact,
    LowerBound,
    UpperBound,
}

/// What a lookup finds.
#[derive(Clone, Copy, Debug, PartialEq, Eq, Structural)]
pub struct TableEntry {
    pub mv: ChessMove,
    pub eval: Eval,
    pub depth: i16,
    pub kind: NodeKind,
}

/// A slot: `hash` holds the position hash xor the data word.
#[derive(Clone, Copy, Debug, PartialEq, Eq, Structural)]
pub struct TtEntry {
    pub hash: u64,
    pub data: u64,
}

/// The fields of a data word. The word is the little-endian image of these fields in
/// this order: `mv` in bits 0..16, `eval` in 16..32, `depth` in 32..48, `kind` in
/// 48..56 and `age` in 56..64.
#[derive(Clone, Copy, Debug, PartialEq, Eq, Structural)]
pub struct TtData {
    pub mv: u16,
    pub eval: i16,
    pub depth: i16,
    pub kind: u8,
    pub age: u8,
}

pub open spec fn spec_pack(d: TtData) -> u64 {
    (d.mv as u64) | ((d.eval as u16) as u64) << 16u64 | ((d.depth as u16) as u64) << 32u64 | (
    d.kind as u64) << 48u64 | (d.age as u64) << 56u64
}

pub open spec fn spec_unpack(w: u64) -> TtData {
    TtData {
        mv: (w & 0xFFFF) as u16,
        eval: ((w >> 16u64) & 0xFFFF) as u16 as i16,
        depth: ((w >> 32u64) & 0xFFFF) as u16 as i16,
        kind: ((w >> 48u64) & 0xFF) as u8,
        age: (w >> 56u64) as u8,
    }
}

pub fn pack(d: TtData) -> (r: u64)
    ensures
        r == spec_pack(d),
{
    (d.mv as u64) | ((d.eval as u16) as u64) << 16u64 | ((d.depth as u16) as u64) << 32u64 | (
    d.kind as u64) << 48u64 | (d.age as u64) << 56u64
}

pub fn unpack(w: u64) -> (r: TtData)
    ensures
        r == spec_unpack(w),
{
    TtData {
        mv: (w & 0xFFFF) as u16,
        eval: ((w >> 16u64) & 0xFFFF) as u16 as i16,
        depth: ((w >> 32u64) & 0xFFFF) as u16 as i16,
        kind: ((w >> 48u64) & 0xFF) as u8,
        age: (w >> 56u64) as u8,
    }
}

/// Unpacking a packed word gives back its fields.
pub proof fn lemma_unpack_pack(d: TtData)
    ensures
        spec_unpack(spec_pack(d)) == d,
{
    let mv = d.mv;
    let e = d.eval;
    let dp = d.depth;
    let k = d.kind;
    let a = d.age;
    let w = spec_pack(d);
    assert((w & 0xFFFF) as u16 == mv) by (bit_vector)
        requires w == (mv as u64) | ((e as u16) as u64) << 16u64 | ((dp as u16) as u64) << 32u64 | (
        k as u64) << 48u64 | (a as u64) << 56u64;
    assert(((w >> 16u64) & 0xFFFF) as u16 as i16 == e) by (bit_vector)
        requires w == (mv as u64) | ((e as u16) as u64) << 16u64 | ((dp as u16) as u64) << 32u64 | (
        k as u64) << 48u64 | (a as u64) << 56u64;
    assert(((w >> 32u64) & 0xFFFF) as u16 as i16 == dp) by (bit_vector)
        requires w == (mv as u64) | ((e as u16) as u64) << 16u64 | ((dp as u16) as u64) << 32u64 | (
        k as u64) << 48u64 | (a as u64) << 56u64;
    assert(((w >> 48u64) & 0xFF) as u8 == k) by (bit_vector)
        requires w == (mv as u64) | ((e as u16) as u64) << 16u64 | ((dp as u16) as u64) << 32u64 | (
        k as u64) << 48u64 | (a as u64) << 56u64;
    assert((w >> 56u64) as u8 == a) by (bit_vector)
        requires w == (mv as u64) | ((e as u16) as u64) << 16u64 | ((dp as u16) as u64) << 32u64 | (
        k as u64) << 48u64 | (a as u64) << 56u64;
}

} // verus!

verus! {

/// Promotion code of a data word's move: 0 for none, 1 to 4 for knight to queen.
pub open spec fn spec_promo_code(p: Option<PieceKind>) -> u16 {
    match p {
        None => 0,
        Some(PieceKind::Knight) => 1,
        Some(PieceKind::Bishop) => 2,
        Some(PieceKind::Rook) => 3,
        Some(PieceKind::Queen) => 4,
        _ => 0,
    }
}

/// The promotions a move can carry (a pawn or king promotion is no move).
pub open spec fn promotion_storable(p: Option<PieceKind>) -> bool {
    !(p == Some(PieceKind::Pawn) || p == Some(PieceKind::King))
}

/// The 16-bit encoding of a move: `from` in bits 0..6, `to` in 6..12, promotion above.
pub open spec fn spec_encode_move(m: ChessMove) -> u16 {
    (m.from as u16) | (m.to as u16) << 6u16 | spec_promo_code(m.promotion) << 12u16
}

/// Decodes the 16-bit move encoding; codes above 4 are invalid.
pub open spec fn spec_decode_move(mv: u16) -> Option<ChessMove> {
    let code = mv >> 12u16;
    let promotion = if code == 1 {
        Some(Some(PieceKind::Knight))
    } else if code == 2 {
        Some(Some(PieceKind::Bishop))
    } else if code == 3 {
        Some(Some(PieceKind::Rook))
    } else if code == 4 {
        Some(Some(PieceKind::Queen))
    } else if code == 0 {
        Some(None)
    } else {
        None
    };
    match promotion {
        Some(p) => Some(ChessMove { from: (mv & 0x3F) as u8, to: ((mv >> 6u16) & 0x3F) as u8, promotion: p }),
        None => None,
    }
}

pub open spec fn spec_kind_code(k: NodeKind) -> u8 {
    match k {
        NodeKind::Exact => 0,
        NodeKind::LowerBound => 1,
        NodeKind::UpperBound => 2,
    }
}

pub open spec fn spec_decode_kind(k: u8) -> Option<NodeKind> {
    if k == 0 {
        Some(NodeKind::Exact)
    } else if k == 1 {
        Some(NodeKind::LowerBound)
    } else if k == 2 {
        Some(NodeKind::UpperBound)
    } else {
        None
    }
}

/// The slot a hash selects.
pub open spec fn spec_slot(hash: u64, len: nat) -> int {
    ((hash as usize) as nat % len) as int
}

/// The move stored in a slot, if its word decodes to a legal move of `board`
/// (`get_move`).
pub open spec fn spec_get_move(entries: Seq<TtEntry>, board: cozy_chess::Board) -> Option<
    ChessMove,
> {
    let h = spec_board_hash(board);
    let e = entries[spec_slot(h, entries.len())];
    if e.hash ^ e.data != h {
        None
    } else {
        match spec_decode_move(spec_unpack(e.data).mv) {
            Some(mv) => if spec_board_is_legal(board, mv) {
                Some(mv)
            } else {
                None
            },
            None => None,
        }
    }
}

/// What a lookup of `board` at distance `ply` from the root finds (`get`).
pub open spec fn spec_get(entries: Seq<TtEntry>, board: cozy_chess::Board, ply: u16) -> Option<
    TableEntry,
> {
    let h = spec_board_hash(board);
    let e = entries[spec_slot(h, entries.len())];
    let d = spec_unpack(e.data);
    if e.hash ^ e.data != h {
        None
    } else {
        match (spec_decode_kind(d.kind), spec_get_move(entries, board)) {
            (Some(kind), Some(mv)) => Some(
                TableEntry {
                    mv,
                    kind,
                    eval: Eval(spec_add_time(d.eval, ply) as i16),
                    depth: d.depth,
                },
            ),
            _ => None,
        }
    }
}

/// Whether a store replaces what its slot holds: the same position with an exact
/// score, data at least as deep (exact scores count two plies deeper), or stale data.
pub open spec fn spec_replaces(old: TtEntry, hash: u64, data: TableEntry, age: u8) -> bool {
    let od = spec_unpack(old.data);
    ||| (old.hash ^ old.data == hash && data.kind == NodeKind::Exact)
    ||| data.depth + (if data.kind == NodeKind::Exact { 2int } else { 0int }) >= od.depth
    ||| crate::abdada::wrapping_sub_u8(age, od.age) >= 2
}

/// The word a store writes.
pub open spec fn spec_store_word(data: TableEntry, ply: u16, age: u8) -> u64 {
    spec_pack(
        TtData {
            mv: spec_encode_move(data.mv),
            eval: spec_sub_time(data.eval.0, ply) as i16,
            depth: data.depth,
            kind: spec_kind_code(data.kind),
            age,
        },
    )
}

/// The table after storing `data` for a position with hash `h` (`store`).
pub open spec fn spec_store(entries: Seq<TtEntry>, h: u64, ply: u16, data: TableEntry, age: u8) -> Seq<
    TtEntry,
> {
    let i = spec_slot(h, entries.len());
    if spec_replaces(entries[i], h, data, age) {
        let w = spec_store_word(data, ply, age);
        entries.update(i, TtEntry { hash: h ^ w, data: w })
    } else {
        entries
    }
}

/// What a store needs: a storable move, a depth whose exact bonus does not overflow,
/// and a score that `sub_time` can move without leaving the mate range.
pub open spec fn store_allowed(data: TableEntry, ply: u16) -> bool {
    &&& data.mv.valid()
    &&& promotion_storable(data.mv.promotion)
    &&& data.depth + 2 <= i16::MAX
    &&& sub_time_allowed(data.eval.0, ply)
    &&& -MATE < spec_sub_time(data.eval.0, ply) < MATE
}

/// Every stored score lies strictly inside the mate range.
pub open spec fn entries_wf(entries: Seq<TtEntry>) -> bool {
    forall|i: int| 0 <= i < entries.len() ==> -MATE < #[trigger] spec_unpack(entries[i].data).eval < MATE
}

pub struct TranspositionTable {
    entries: Vec<TtEntry>,
    search_number: u8,
}

impl TranspositionTable {
    pub closed spec fn view(&self) -> Seq<TtEntry> {
        self.entries@
    }

    /// The age stamp of the current search.
    pub closed spec fn age(&self) -> u8 {
        self.search_number
    }

    pub open spec fn wf(&self) -> bool {
        entries_wf(self.view())
    }

    /// A table of `hash_mb` megabytes, all slots empty.
    pub fn new(hash_mb: usize) -> (r: Self)
        requires
            hash_mb * ENTRIES_PER_MB <= usize::MAX,
        ensures
            r.wf(),
            r.view() == Seq::new((hash_mb * ENTRIES_PER_MB) as nat, |_i: int| TtEntry { hash: 0, data: 0 }),
            r.age() == 0,
    {
        let n = hash_mb * ENTRIES_PER_MB;
        let mut entries: Vec<TtEntry> = Vec::new();
        while entries.len() < n
            invariant
                entries.len() <= n,
                forall|i: int| 0 <= i < entries.len() ==> entries[i] == (TtEntry { hash: 0, data: 0 }),
            decreases n - entries.len(),
        {
            entries.push(TtEntry { hash: 0, data: 0 });
        }
        let r = TranspositionTable { entries, search_number: 0 };
        assert(r.view() =~= Seq::new(n as nat, |_i: int| TtEntry { hash: 0, data: 0 }));
        assert forall|i: int| 0 <= i < r.view().len() implies -MATE < #[trigger] spec_unpack(r.view()[i].data).eval < MATE by {
            assert(((0u64 >> 16u64) & 0xFFFF) as u16 as i16 == 0) by (bit_vector);
        }
        r
    }

    fn slot(&self, hash: u64) -> (r: usize)
        requires
            self.view().len() > 0,
        ensures
            r == spec_slot(hash, self.view().len()),
            r < self.view().len(),
    {
        hash as usize % self.entries.len()
    }

    /// The stored move for `board`, if the slot holds this position and a legal move.
    pub fn get_move(&self, board: &cozy_chess::Board) -> (r: Option<ChessMove>)
        requires
            self.view().len() > 0,
        ensures
            r == spec_get_move(self.view(), *board),
            self.view()[spec_slot(spec_board_hash(*board), self.view().len())] == (TtEntry { hash: 0, data: 0 })
                ==> r is None,
            r matches Some(m) ==> exists|j: int|
                0 <= j < spec_board_legal_moves(*board).len() && (#[trigger] spec_board_legal_moves(*board)[j]).1 == m,
    {
        let h = board_hash(board);
        let e = self.entries[self.slot(h)];
        proof {
            lemma_zero_word();
        }
        if e.hash ^ e.data != h {
            return None;
        }
        let d = unpack(e.data);
        unmarshall_move(d.mv, board)
    }

    /// The stored bound for `board`; mate scores are read back relative to `ply`. An
    /// empty (all-zero) slot holds nothing, so a new table finds nothing.
    pub fn get(&self, board: &cozy_chess::Board, ply: u16) -> (r: Option<TableEntry>)
        requires
            self.view().len() > 0,
            self.wf(),
            ply <= i16::MAX,
        ensures
            r == spec_get(self.view(), *board, ply),
            self.view()[spec_slot(spec_board_hash(*board), self.view().len())] == (TtEntry { hash: 0, data: 0 })
                ==> r is None,
            r matches Some(e) ==> exists|j: int|
            0 <= j < spec_board_legal_moves(*board).len() && (#[trigger] spec_board_legal_moves(*board)[j]).1 == e.mv,
    {
        let h = board_hash(board);
        let i = self.slot(h);
        let e = self.entries[i];
        proof {
            lemma_zero_word();
        }
        if e.hash ^ e.data != h {
            return None;
        }
        let d = unpack(e.data);
        let kind = if d.kind == 0 {
            NodeKind::Exact
        } else if d.kind == 1 {
            NodeKind::LowerBound
        } else if d.kind == 2 {
            NodeKind::UpperBound
        } else {
            return None;
        };
        let mv = match unmarshall_move(d.mv, board) {
            Some(mv) => mv,
            None => return None,
        };
        assert(-MATE < d.eval < MATE);
        Some(TableEntry { mv, kind, eval: Eval(d.eval).add_time(ply), depth: d.depth })
    }

    /// Stores `data` for `board`, unless the slot holds data worth keeping.
    pub fn store(&mut self, board: &cozy_chess::Board, ply: u16, data: TableEntry)
        requires
            old(self).view().len() > 0,
            old(self).wf(),
            store_allowed(data, ply),
        ensures
            final(self).wf(),
            final(self).age() == old(self).age(),
            final(self).view() == spec_store(old(self).view(), spec_board_hash(*board), ply, data, old(self).age()),
    {
        let h = board_hash(board);
        let i = self.slot(h);
        let entry = self.entries[i];
        let age = self.search_number;
        let old_data = unpack(entry.data);
        let old_hash = entry.hash ^ entry.data;
        let exact = match data.kind {
            NodeKind::Exact => true,
            _ => false,
        };
        let bonus: i16 = if exact { 2 } else { 0 };
        let replace = (old_hash == h && exact) || data.depth + bonus >= old_data.depth
            || wrapping_sub_u8(age, old_data.age) >= 2;
        if !replace {
            return;
        }
        let kind: u8 = match data.kind {
            NodeKind::Exact => 0,
            NodeKind::LowerBound => 1,
            NodeKind::UpperBound => 2,
        };
        let packed = TtData {
            mv: encode_move(data.mv),
            eval: data.eval.sub_time(ply).0,
            depth: data.depth,
            kind,
            age,
        };
        let w = pack(packed);
        self.entries.set(i, TtEntry { hash: h ^ w, data: w });
        proof {
            lemma_unpack_pack(packed);
            assert forall|j: int| 0 <= j < self.view().len() implies -MATE < #[trigger] spec_unpack(self.view()[j].data).eval < MATE by {
                if j != i {
                    assert(self.view()[j] == old(self).view()[j]);
                }
            }
        }
    }

    /// Advances the age stamp, wrapping at 256.
    pub fn increment_age(&mut self, by: u8)
        ensures
            final(self).view() == old(self).view(),
            final(self).age() == wrapping_add_u8(old(self).age(), by),
    {
        self.search_number = if self.search_number as u16 + by as u16 > 255 {
            (self.search_number as u16 + by as u16 - 256) as u8
        } else {
            self.search_number + by
        };
    }
}

/// `a + b` wrapping at 256.
pub open spec fn wrapping_add_u8(a: u8, b: u8) -> u8 {
    if a + b > 255 { (a + b - 256) as u8 } else { (a + b) as u8 }
}

/// `a - b` wrapping at 0.
fn wrapping_sub_u8(a: u8, b: u8) -> (r: u8)
    ensures
        r == crate::abdada::wrapping_sub_u8(a, b),
{
    if a >= b { a - b } else { (a as u16 + 256 - b as u16) as u8 }
}

fn encode_move(m: ChessMove) -> (r: u16)
    requires
        m.valid(),
    ensures
        r == spec_encode_move(m),
{
    let code: u16 = match m.promotion {
        None => 0,
        Some(PieceKind::Knight) => 1,
        Some(PieceKind::Bishop) => 2,
        Some(PieceKind::Rook) => 3,
        Some(PieceKind::Queen) => 4,
        _ => 0,
    };
    (m.from as u16) | (m.to as u16) << 6u16 | code << 12u16
}

fn decode_move(mv: u16) -> (r: Option<ChessMove>)
    ensures
        r == spec_decode_move(mv),
        r matches Some(m) ==> m.valid(),
{
    let code = mv >> 12u16;
    let promotion = if code == 1 {
        Some(PieceKind::Knight)
    } else if code == 2 {
        Some(PieceKind::Bishop)
    } else if code == 3 {
        Some(PieceKind::Rook)
    } else if code == 4 {
        Some(PieceKind::Queen)
    } else if code == 0 {
        None
    } else {
        return None;
    };
    assert((mv & 0x3F) < 64 && ((mv >> 6u16) & 0x3F) < 64) by (bit_vector);
    Some(ChessMove { from: (mv & 0x3F) as u8, to: ((mv >> 6u16) & 0x3F) as u8, promotion })
}

/// Decodes a stored move and keeps it only if it is legal on `board`.
fn unmarshall_move(mv: u16, board: &cozy_chess::Board) -> (r: Option<ChessMove>)
    ensures
        r == (match spec_decode_move(mv) {
            Some(m) => if spec_board_is_legal(*board, m) {
                Some(m)
            } else {
                None
            },
            None => None,
        }),
        r matches Some(m) ==> m.from != m.to,
        r matches Some(m) ==> exists|j: int|
            0 <= j < spec_board_legal_moves(*board).len() && (#[trigger] spec_board_legal_moves(*board)[j]).1 == m,
{
    match decode_move(mv) {
        Some(m) => if board_is_legal(board, m) {
            Some(m)
        } else {
            None
        },
        None => None,
    }
}

/// An all-zero word reads as no key, and its move as A1 to A1.
proof fn lemma_zero_word()
    ensures
        0u64 ^ 0u64 == 0u64,
        spec_unpack(0).mv == 0,
        spec_decode_move(0) == Some(ChessMove { from: 0, to: 0, promotion: None }),
{
    assert(0u64 ^ 0u64 == 0u64) by (bit_vector);
    assert(0u64 & 0xFFFF == 0u64) by (bit_vector);
    assert(0u16 >> 12u16 == 0u16) by (bit_vector);
    assert(0u16 & 0x3F == 0u16) by (bit_vector);
    assert((0u16 >> 6u16) & 0x3F == 0u16) by (bit_vector);
}

/// A new table holds no entry: the slot any board selects in it is empty, which `get`
/// and `get_move` read as nothing.
pub proof fn lemma_new_table_empty(n: nat, board: cozy_chess::Board)
    requires
        n > 0,
    ensures
        Seq::new(n, |_i: int| TtEntry { hash: 0, data: 0 })[spec_slot(spec_board_hash(board), n)] == (TtEntry {
            hash: 0,
            data: 0,
        }),
{
}

/// A decoded move names squares of the board and a storable promotion.
pub proof fn lemma_decode_valid(mv: u16)
    ensures
        spec_decode_move(mv) matches Some(m) ==> m.valid() && promotion_storable(m.promotion),
{
    assert((mv & 0x3F) < 64 && ((mv >> 6u16) & 0x3F) < 64) by (bit_vector);
}

/// What a lookup finds is usable by the search: a legal, storable move of the board,
/// and a score strictly inside the mate range narrowed by the distance from the root.
pub proof fn lemma_get_sound(entries: Seq<TtEntry>, board: cozy_chess::Board, ply: u16)
    requires
        entries.len() > 0,
        entries_wf(entries),
        ply < 10000,
    ensures
        spec_get(entries, board, ply) matches Some(e) ==> {
            &&& e.mv.valid()
            &&& spec_board_is_legal(board, e.mv)
            &&& promotion_storable(e.mv.promotion)
            &&& -MATE + ply < e.eval.0 < MATE - ply
        },
{
    let h = spec_board_hash(board);
    let i = spec_slot(h, entries.len());
    assert(0 <= i < entries.len()) by {
        assert((h as usize) as nat % entries.len() < entries.len());
    }
    lemma_decode_valid(spec_unpack(entries[i].data).mv);
}

/// The stored move of a position, if any, is a legal, storable move of it.
pub proof fn lemma_get_move_sound(entries: Seq<TtEntry>, board: cozy_chess::Board)
    requires
        entries.len() > 0,
    ensures
        spec_get_move(entries, board) matches Some(m) ==> m.valid() && spec_board_is_legal(board, m)
            && promotion_storable(m.promotion),
{
    let h = spec_board_hash(board);
    let i = spec_slot(h, entries.len());
    lemma_decode_valid(spec_unpack(entries[i].data).mv);
}

/// A storable move decodes back to itself.
pub proof fn lemma_decode_encode(m: ChessMove)
    requires
        m.valid(),
        promotion_storable(m.promotion),
    ensures
        spec_decode_move(spec_encode_move(m)) == Some(m),
{
    let f = m.from;
    let t = m.to;
    let c = spec_promo_code(m.promotion);
    let w = spec_encode_move(m);
    assert(c <= 4);
    assert((w >> 12u16) == c && (w & 0x3F) as u8 == f && ((w >> 6u16) & 0x3F) as u8 == t) by (bit_vector)
        requires
            f < 64,
            t < 64,
            c <= 4,
            w == (f as u16) | (t as u16) << 6u16 | c << 12u16;
}

/// A read gives back the write: after a store that replaces the slot, looking up the
/// same position at the same ply finds exactly the stored entry, provided its move is
/// legal there.
pub proof fn lemma_store_then_get(
    entries: Seq<TtEntry>,
    board: cozy_chess::Board,
    ply: u16,
    data: TableEntry,
    age: u8,
)
    requires
        entries.len() > 0,
        store_allowed(data, ply),
        ply <= i16::MAX,
        spec_replaces(entries[spec_slot(spec_board_hash(board), entries.len())], spec_board_hash(board), data, age),
        spec_board_is_legal(board, data.mv),
    ensures
        spec_get(spec_store(entries, spec_board_hash(board), ply, data, age), board, ply) == Some(data),
{
    let h = spec_board_hash(board);
    let packed = TtData {
        mv: spec_encode_move(data.mv),
        eval: spec_sub_time(data.eval.0, ply) as i16,
        depth: data.depth,
        kind: spec_kind_code(data.kind),
        age,
    };
    let w = spec_pack(packed);
    lemma_unpack_pack(packed);
    lemma_decode_encode(data.mv);
    crate::eval::lemma_sub_then_add_time(data.eval.0, ply);
    assert((h ^ w) ^ w == h) by (bit_vector);
    let after = spec_store(entries, h, ply, data, age);
    assert(after[spec_slot(h, after.len())] == TtEntry { hash: h ^ w, data: w });
}

} // verus!
