//! The square of chunks round a player, and what has to be sent when it moves.

use vstd::arithmetic::div_mod::{lemma_fundamental_div_mod, lemma_fundamental_div_mod_converse};
use vstd::prelude::*;

verus! {

/// A set of chunk positions.
#[derive(Clone, Debug)]
pub struct ChunkSet {
    chunks: Vec<(i32, i32)>,
}

impl View for ChunkSet {
    type V = Set<(i32, i32)>;

    closed spec fn view(&self) -> Set<(i32, i32)> {
        self.chunks@.to_set()
    }
}

impl ChunkSet {
    /// No position is held twice.
    pub closed spec fn wf(&self) -> bool {
        self.chunks@.no_duplicates()
    }

    /// The positions in the order in which they are handed out.
    pub closed spec fn order(&self) -> Seq<(i32, i32)> {
        self.chunks@
    }

    pub fn new() -> (s: Self)
        ensures
            s.wf(),
            s@ == Set::<(i32, i32)>::empty(),
    {
        let s = ChunkSet { chunks: Vec::new() };
        assert(s@ =~= Set::<(i32, i32)>::empty());
        s
    }

    pub fn len(&self) -> (n: usize)
        requires
            self.wf(),
        ensures
            n == self@.len(),
            self@.finite(),
    {
        proof {
            self.chunks@.unique_seq_to_set();
        }
        self.chunks.len()
    }

    pub fn contains(&self, position: (i32, i32)) -> (r: bool)
        ensures
            r == self@.contains(position),
    {
        let mut i: usize = 0;
        while i < self.chunks.len()
            invariant
                i <= self.chunks.len(),
                forall|j: int| 0 <= j < i ==> self.chunks@[j] != position,
            decreases self.chunks.len() - i,
        {
            let (x, z) = self.chunks[i];
            if x == position.0 && z == position.1 {
                assert(self.chunks@[i as int] == position);
                return true;
            }
            i += 1;
        }
        false
    }

    /// The positions of this set that the other one lacks.
    pub fn difference(&self, other: &ChunkSet) -> (r: ChunkSet)
        requires
            self.wf(),
        ensures
            r.wf(),
            r@ == self@.difference(other@),
    {
        let mut chunks: Vec<(i32, i32)> = Vec::new();
        let mut i: usize = 0;
        while i < self.chunks.len()
            invariant
                i <= self.chunks.len(),
                self.wf(),
                chunks@.no_duplicates(),
                forall|p: (i32, i32)|
                    chunks@.contains(p) <==> self.chunks@.take(i as int).contains(p)
                        && !other@.contains(p),
            decreases self.chunks.len() - i,
        {
            let p = self.chunks[i];
            let ghost seen = self.chunks@.take(i as int);
            let ghost before = chunks@;
            proof {
                assert(!seen.contains(p)) by {
                    if seen.contains(p) {
                        let k = choose|k: int| 0 <= k < seen.len() && seen[k] == p;
                        assert(self.chunks@[k] == self.chunks@[i as int]);
                    }
                }
                assert(self.chunks@.take(i + 1) =~= seen.push(p));
                lemma_push_contains(seen, p);
                lemma_push_contains(before, p);
            }
            if !other.contains(p) {
                chunks.push(p);
                assert(chunks@ == before.push(p));
            }
            assert forall|q: (i32, i32)|
                chunks@.contains(q) <==> self.chunks@.take(i + 1).contains(q) && !other@.contains(
                    q,
                ) by {
                assert(seen.push(p).contains(q) <==> seen.contains(q) || q == p);
                assert(before.push(p).contains(q) <==> before.contains(q) || q == p);
            }
            i += 1;
        }
        assert(self.chunks@.take(i as int) =~= self.chunks@);
        let r = ChunkSet { chunks };
        assert(r@ =~= self@.difference(other@));
        r
    }

    /// The positions as a list.
    pub fn positions(&self) -> (v: Vec<(i32, i32)>)
        ensures
            v@ == self.order(),
            self.wf() ==> v@.no_duplicates(),
            v@.to_set() == self@,
    {
        let mut v: Vec<(i32, i32)> = Vec::new();
        let mut i: usize = 0;
        while i < self.chunks.len()
            invariant
                i <= self.chunks.len(),
                v@ == self.chunks@.take(i as int),
            decreases self.chunks.len() - i,
        {
            v.push(self.chunks[i]);
            i += 1;
            assert(v@ =~= self.chunks@.take(i as int));
        }
        assert(v@ =~= self.chunks@);
        v
    }
}

proof fn lemma_push_contains(s: Seq<(i32, i32)>, p: (i32, i32))
    ensures
        forall|q: (i32, i32)| s.push(p).contains(q) <==> s.contains(q) || q == p,
{
    assert forall|q: (i32, i32)| s.push(p).contains(q) <==> s.contains(q) || q == p by {
        if s.contains(q) {
            let k = choose|k: int| 0 <= k < s.len() && s[k] == q;
            assert(s.push(p)[k] == q);
        }
        if q == p {
            assert(s.push(p)[s.len() as int] == q);
        }
    }
}

/// Whether a chunk lies in the square of the given radius.
pub open spec fn in_view(center_x: int, center_z: int, radius: int, p: (i32, i32)) -> bool {
    center_x - radius <= p.0 <= center_x + radius && center_z - radius <= p.1 <= center_z + radius
}

pub open spec fn view_set(center_x: int, center_z: int, radius: int) -> Set<(i32, i32)> {
    Set::new(|p: (i32, i32)| in_view(center_x, center_z, radius, p))
}

pub open spec fn view_in_range(center: int, radius: int) -> bool {
    i32::MIN <= center - radius && center + radius <= i32::MAX
}

/// The cell of the square with the given number, row by row.
spec fn view_cell(center_x: int, center_z: int, radius: int, i: int) -> (i32, i32) {
    (
        (center_x - radius + i % (2 * radius + 1)) as i32,
        (center_z - radius + i / (2 * radius + 1)) as i32,
    )
}

proof fn lemma_cell(radius: int, row: int, col: int)
    requires
        0 <= radius,
        0 <= row,
        0 <= col < 2 * radius + 1,
    ensures
        (row * (2 * radius + 1) + col) % (2 * radius + 1) == col,
        (row * (2 * radius + 1) + col) / (2 * radius + 1) == row,
{
    let d = 2 * radius + 1;
    lemma_fundamental_div_mod_converse(row * d + col, d, row, col);
}

pub fn chunks_in_view(center_x: i32, center_z: i32, view_distance: i32) -> (r: ChunkSet)
    requires
        0 <= view_distance <= 0x3fff_ffff,
        view_in_range(center_x as int, view_distance as int),
        view_in_range(center_z as int, view_distance as int),
    ensures
        r.wf(),
        r@ == view_set(center_x as int, center_z as int, view_distance as int),
        r@.len() == (2 * view_distance + 1) * (2 * view_distance + 1),
{
    let ghost cx = center_x as int;
    let ghost cz = center_z as int;
    let ghost rad = view_distance as int;
    let ghost d = 2 * rad + 1;
    let mut chunks: Vec<(i32, i32)> = Vec::new();
    let diameter: i32 = view_distance * 2 + 1;
    let mut row: i32 = 0;
    while row < diameter
        invariant
            0 <= row <= diameter,
            diameter == d,
            d == 2 * rad + 1,
            rad == view_distance,
            cx == center_x,
            cz == center_z,
            0 <= view_distance <= 0x3fff_ffff,
            view_in_range(cx, rad),
            view_in_range(cz, rad),
            chunks@.len() == row * d,
            forall|i: int| 0 <= i < chunks@.len() ==> chunks@[i] == view_cell(cx, cz, rad, i),
        decreases diameter - row,
    {
        let mut col: i32 = 0;
        while col < diameter
            invariant
                0 <= col <= diameter,
                0 <= row < diameter,
                diameter == d,
                d == 2 * rad + 1,
                rad == view_distance,
                cx == center_x,
                cz == center_z,
                0 <= view_distance <= 0x3fff_ffff,
                view_in_range(cx, rad),
                view_in_range(cz, rad),
                chunks@.len() == row * d + col,
                forall|i: int| 0 <= i < chunks@.len() ==> chunks@[i] == view_cell(cx, cz, rad, i),
            decreases diameter - col,
        {
            proof {
                lemma_cell(rad, row as int, col as int);
            }
            let x: i32 = (center_x - view_distance) + col;
            let z: i32 = (center_z - view_distance) + row;
            chunks.push((x, z));
            col += 1;
        }
        assert((row + 1) * d == row * d + d) by (nonlinear_arith);
        row += 1;
    }
    let r = ChunkSet { chunks };
    proof {
        let s = chunks@;
        assert forall|i: int, j: int| 0 <= i < s.len() && 0 <= j < s.len() && i != j implies s[i]
            != s[j] by {
            lemma_cell_bounds(rad, i);
            lemma_cell_bounds(rad, j);
            if s[i] == s[j] {
                assert(i % d == j % d && i / d == j / d);
            }
        }
        s.unique_seq_to_set();
        assert forall|p: (i32, i32)| s.contains(p) <==> in_view(cx, cz, rad, p) by {
            if s.contains(p) {
                let i = choose|i: int| 0 <= i < s.len() && s[i] == p;
                lemma_cell_bounds(rad, i);
            }
            if in_view(cx, cz, rad, p) {
                let col = p.0 - (cx - rad);
                let row = p.1 - (cz - rad);
                lemma_cell(rad, row, col);
                let i = row * d + col;
                assert(0 <= i < d * d) by (nonlinear_arith)
                    requires
                        i == row * d + col,
                        0 <= row <= d - 1,
                        0 <= col < d,
                ;
                assert(s[i] == p);
            }
        }
        assert(r@ =~= view_set(cx, cz, rad));
    }
    r
}

proof fn lemma_cell_bounds(radius: int, i: int)
    requires
        0 <= radius,
        0 <= i < (2 * radius + 1) * (2 * radius + 1),
    ensures
        0 <= i % (2 * radius + 1) < 2 * radius + 1,
        0 <= i / (2 * radius + 1) < 2 * radius + 1,
        i == (2 * radius + 1) * (i / (2 * radius + 1)) + i % (2 * radius + 1),
{
    let d = 2 * radius + 1;
    lemma_fundamental_div_mod(i, d);
    assert(i / d < d) by (nonlinear_arith)
        requires
            0 <= i < d * d,
            d > 0,
            i == d * (i / d) + i % d,
            0 <= i % d < d,
    ;
    assert(i / d >= 0) by (nonlinear_arith)
        requires
            0 <= i,
            d > 0,
    ;
}

/// The square of the distance between two chunks.
pub open spec fn chunk_distance(center_x: int, center_z: int, p: (i32, i32)) -> int {
    (p.0 - center_x) * (p.0 - center_x) + (p.1 - center_z) * (p.1 - center_z)
}

pub open spec fn nearest_first(center_x: int, center_z: int, s: Seq<(i32, i32)>) -> bool {
    forall|i: int, j: int|
        0 <= i <= j < s.len() ==> chunk_distance(center_x, center_z, s[i]) <= chunk_distance(
            center_x,
            center_z,
            s[j],
        )
}

fn distance_to(center_x: i32, center_z: i32, p: (i32, i32)) -> (d: i128)
    ensures
        d == chunk_distance(center_x as int, center_z as int, p),
{
    let dx: i128 = p.0 as i128 - center_x as i128;
    let dz: i128 = p.1 as i128 - center_z as i128;
    assert(-0x1_0000_0000 < dx < 0x1_0000_0000 && -0x1_0000_0000 < dz < 0x1_0000_0000);
    assert(0 <= dx * dx < 0x1_0000_0000_0000_0000) by (nonlinear_arith)
        requires
            -0x1_0000_0000 < dx < 0x1_0000_0000,
    ;
    assert(0 <= dz * dz < 0x1_0000_0000_0000_0000) by (nonlinear_arith)
        requires
            -0x1_0000_0000 < dz < 0x1_0000_0000,
    ;
    dx * dx + dz * dz
}

proof fn lemma_insert_contains(s: Seq<(i32, i32)>, at: int, p: (i32, i32))
    requires
        0 <= at <= s.len(),
        s.no_duplicates(),
        !s.contains(p),
    ensures
        s.insert(at, p).no_duplicates(),
        forall|q: (i32, i32)| s.insert(at, p).contains(q) <==> s.contains(q) || q == p,
{
    let t = s.insert(at, p);
    assert forall|i: int, j: int| 0 <= i < t.len() && 0 <= j < t.len() && i != j implies t[i]
        != t[j] by {
        let a = if i < at {
            i
        } else {
            i - 1
        };
        let b = if j < at {
            j
        } else {
            j - 1
        };
        if i != at && j != at {
            assert(t[i] == s[a] && t[j] == s[b]);
        } else if i == at {
            assert(t[j] == s[b]);
        } else {
            assert(t[i] == s[a]);
        }
    }
    assert forall|q: (i32, i32)| t.contains(q) <==> s.contains(q) || q == p by {
        if s.contains(q) {
            let k = choose|k: int| 0 <= k < s.len() && s[k] == q;
            if k < at {
                assert(t[k] == q);
            } else {
                assert(t[k + 1] == q);
            }
        }
        if q == p {
            assert(t[at] == q);
        }
        if t.contains(q) {
            let k = choose|k: int| 0 <= k < t.len() && t[k] == q;
            if k < at {
                assert(s[k] == q);
            } else if k > at {
                assert(s[k - 1] == q);
            }
        }
    }
}

/// The same positions, nearest to the center first.
fn sort_nearest_first(v: &Vec<(i32, i32)>, center_x: i32, center_z: i32) -> (r: Vec<(i32, i32)>)
    requires
        v@.no_duplicates(),
    ensures
        r@.no_duplicates(),
        r@.to_set() == v@.to_set(),
        nearest_first(center_x as int, center_z as int, r@),
{
    let mut r: Vec<(i32, i32)> = Vec::new();
    let mut i: usize = 0;
    while i < v.len()
        invariant
            i <= v.len(),
            v@.no_duplicates(),
            r@.no_duplicates(),
            nearest_first(center_x as int, center_z as int, r@),
            forall|q: (i32, i32)| r@.contains(q) <==> v@.take(i as int).contains(q),
        decreases v.len() - i,
    {
        let p = v[i];
        let ghost before = r@;
        let ghost seen = v@.take(i as int);
        let d: i128 = distance_to(center_x, center_z, p);
        let mut at: usize = r.len();
        while at > 0 && distance_to(center_x, center_z, r[at - 1]) > d
            invariant
                at <= r.len(),
                r@ == before,
                d == chunk_distance(center_x as int, center_z as int, p),
                forall|k: int|
                    at <= k < r@.len() ==> chunk_distance(
                        center_x as int,
                        center_z as int,
                        #[trigger] r@[k],
                    ) > d,
            decreases at,
        {
            at -= 1;
        }
        proof {
            assert(!seen.contains(p)) by {
                if seen.contains(p) {
                    let k = choose|k: int| 0 <= k < seen.len() && seen[k] == p;
                    assert(v@[k] == v@[i as int]);
                }
            }
            assert(!before.contains(p));
            lemma_insert_contains(before, at as int, p);
            assert(v@.take(i + 1) =~= seen.push(p));
            lemma_push_contains(seen, p);
        }
        r.insert(at, p);
        assert(r@ == before.insert(at as int, p));
        proof {
            let cx = center_x as int;
            let cz = center_z as int;
            assert forall|a: int, b: int| 0 <= a <= b < r@.len() implies chunk_distance(
                cx,
                cz,
                r@[a],
            ) <= chunk_distance(cx, cz, r@[b]) by {
                let a1 = if a < at {
                    a
                } else {
                    a - 1
                };
                let b1 = if b < at {
                    b
                } else {
                    b - 1
                };
                if a != at {
                    assert(r@[a] == before[a1]);
                }
                if b != at {
                    assert(r@[b] == before[b1]);
                }
                if b == at && a < at {
                    assert(before[a1] == before[a] && chunk_distance(cx, cz, before[a])
                        <= chunk_distance(cx, cz, before[at - 1]));
                }
            }
            assert forall|q: (i32, i32)| r@.contains(q) <==> v@.take(i + 1).contains(q) by {
                assert(seen.push(p).contains(q) <==> seen.contains(q) || q == p);
                assert(before.contains(q) <==> seen.contains(q));
            }
        }
        i += 1;
    }
    assert(v@.take(i as int) =~= v@);
    assert(r@.to_set() =~= v@.to_set());
    r
}

/// What a client has to be told when the center of its view moves.
#[derive(Debug)]
pub struct StreamPlan {
    /// Chunks to unload.
    pub unload: Vec<(i32, i32)>,
    /// Chunks to send, nearest first.
    pub load: Vec<(i32, i32)>,
    /// The number of chunks that the end of the batch announces.
    pub batch_size: u16,
    /// The chunks that the client then holds.
    pub sent: ChunkSet,
}

/// Plans the move to a new center: chunks out of view are unloaded, and those
/// that are missing are sent, the nearest first.
pub fn stream_chunks(
    center_x: i32,
    center_z: i32,
    sent_chunks: &ChunkSet,
    view_distance: i32,
) -> (plan: StreamPlan)
    requires
        sent_chunks.wf(),
        0 <= view_distance <= 0x3fff_ffff,
        view_in_range(center_x as int, view_distance as int),
        view_in_range(center_z as int, view_distance as int),
    ensures
        plan.sent.wf(),
        plan.sent@ == view_set(center_x as int, center_z as int, view_distance as int),
        plan.unload@.no_duplicates(),
        plan.unload@.to_set() == sent_chunks@.difference(plan.sent@),
        plan.load@.no_duplicates(),
        plan.load@.to_set() == plan.sent@.difference(sent_chunks@),
        nearest_first(center_x as int, center_z as int, plan.load@),
        plan.batch_size == plan.load.len() as u16,
{
    let desired = chunks_in_view(center_x, center_z, view_distance);
    let unload = sent_chunks.difference(&desired).positions();
    let missing = desired.difference(sent_chunks).positions();
    let load = sort_nearest_first(&missing, center_x, center_z);
    let batch_size: u16 = load.len() as u16;
    StreamPlan { unload, load, batch_size, sent: desired }
}

/// The row or column that comes into view when the center moves by one chunk.
spec fn new_edge(cx: int, cz: int, radius: int, dx: int, dz: int) -> Seq<(i32, i32)> {
    Seq::new(
        (2 * radius + 1) as nat,
        |i: int|
            if dx != 0 {
                ((cx + dx + dx * radius) as i32, (cz - radius + i) as i32)
            } else {
                ((cx - radius + i) as i32, (cz + dz + dz * radius) as i32)
            },
    )
}

/// Moving the center by one chunk brings exactly one new edge of chunks into
/// view, and takes one edge out of it.
pub proof fn law_moving_one_chunk_requests_one_edge(
    cx: int,
    cz: int,
    radius: int,
    dx: int,
    dz: int,
)
    requires
        0 <= radius,
        (dx == 0 && (dz == 1 || dz == -1)) || (dz == 0 && (dx == 1 || dx == -1)),
        view_in_range(cx, radius),
        view_in_range(cz, radius),
        view_in_range(cx + dx, radius),
        view_in_range(cz + dz, radius),
    ensures
        view_set(cx + dx, cz + dz, radius).difference(view_set(cx, cz, radius)).len() == 2 * radius
            + 1,
        view_set(cx, cz, radius).difference(view_set(cx + dx, cz + dz, radius)).len() == 2 * radius
            + 1,
{
    lemma_new_edge(cx, cz, radius, dx, dz);
    lemma_new_edge(cx + dx, cz + dz, radius, -dx, -dz);
    assert(cx + dx + -dx == cx && cz + dz + -dz == cz);
}

proof fn lemma_new_edge(cx: int, cz: int, radius: int, dx: int, dz: int)
    requires
        0 <= radius,
        (dx == 0 && (dz == 1 || dz == -1)) || (dz == 0 && (dx == 1 || dx == -1)),
        view_in_range(cx, radius),
        view_in_range(cz, radius),
        view_in_range(cx + dx, radius),
        view_in_range(cz + dz, radius),
    ensures
        view_set(cx + dx, cz + dz, radius).difference(view_set(cx, cz, radius)).len() == 2 * radius
            + 1,
{
    let edge = new_edge(cx, cz, radius, dx, dz);
    let fresh = view_set(cx + dx, cz + dz, radius).difference(view_set(cx, cz, radius));
    assert(dx * radius == (if dx == 1 {
        radius
    } else if dx == -1 {
        -radius
    } else {
        0
    })) by (nonlinear_arith)
        requires
            dx == 1 || dx == -1 || dx == 0,
    ;
    assert(dz * radius == (if dz == 1 {
        radius
    } else if dz == -1 {
        -radius
    } else {
        0
    })) by (nonlinear_arith)
        requires
            dz == 1 || dz == -1 || dz == 0,
    ;
    assert forall|p: (i32, i32)| edge.contains(p) <==> fresh.contains(p) by {
        if fresh.contains(p) {
            let i = if dx != 0 {
                p.1 - (cz - radius)
            } else {
                p.0 - (cx - radius)
            };
            assert(edge[i] == p);
        }
        if edge.contains(p) {
            let i = choose|i: int| 0 <= i < edge.len() && edge[i] == p;
        }
    }
    assert(edge.to_set() =~= fresh);
    edge.unique_seq_to_set();
}

/// As far as the client prefers, up to the limit of the server.
pub open spec fn distance_granted(preferred: i32, limit: i32) -> i32 {
    if preferred < 0 {
        0
    } else if preferred > limit {
        limit
    } else {
        preferred
    }
}

/// How far a session sees.
pub fn session_view_distance(preferred: i32, limit: i32) -> (r: i32)
    requires
        0 <= limit,
    ensures
        r == distance_granted(preferred, limit),
        0 <= r <= limit,
{
    if preferred < 0 {
        0
    } else if preferred > limit {
        limit
    } else {
        preferred
    }
}

} // verus!
