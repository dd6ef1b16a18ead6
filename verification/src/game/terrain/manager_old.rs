//! A rule for loading and unloading chunks around the player. It walks,
//! position by position, the box of chunk positions from `view_distance`
//! below the player's chunk (included) to `view_distance` above it
//! (excluded) on each axis: a loaded chunk there that is not strictly inside
//! the view is unloaded, and a missing chunk strictly inside it is generated.
//! A final pass over the loaded chunks unloads every one outside the box.
//! Unloading and generating are left to the caller, which gets the changes
//! in that order.
use vstd::prelude::*;
use vstd::arithmetic::div_mod::lemma_fundamental_div_mod_converse;
use crate::game::terrain::chunk::ChunkPosition;
use crate::game::terrain::chunk_updater::{bounds_fit, is_near, near};
use crate::game::terrain::manager::key_of;
use crate::utils::shared_map::{ChunkKey, ChunkTable, chunk_entries, chunk_keys, has_chunk_entry};

verus! {

/// What the terrain manager does at one chunk position.
#[derive(Debug, Clone, Copy, PartialEq, Eq, Structural)]
pub enum ChunkChange {
    /// Unload the chunk here, which lies outside the view.
    Remove(ChunkPosition),
    /// Generate a chunk here, inside the view and not loaded.
    Create(ChunkPosition),
}

/// Number of chunk positions along each side of the walked box.
pub open spec fn box_side(view_distance: int) -> int {
    if view_distance > 0 {
        2 * view_distance
    } else {
        0
    }
}

/// The `i`-th position of the walked box around `center`: `x` slowest, then
/// `y`, then `z`.
pub open spec fn box_member(center: ChunkPosition, view_distance: int, i: int) -> ChunkPosition {
    let n = box_side(view_distance);
    ChunkPosition {
        x: (center.x - view_distance + i / (n * n)) as isize,
        y: (center.y - view_distance + (i / n) % n) as isize,
        z: (center.z - view_distance + i % n) as isize,
    }
}

/// The walked box around `center`, in walking order.
pub open spec fn view_box(center: ChunkPosition, view_distance: int) -> Seq<ChunkPosition> {
    let n = box_side(view_distance);
    Seq::new((n * n * n) as nat, |i: int| box_member(center, view_distance, i))
}

/// What happens at `p`, given the loaded chunks.
pub open spec fn change_at(
    loaded: Map<ChunkKey, Seq<usize>>,
    center: ChunkPosition,
    view_distance: isize,
    p: ChunkPosition,
) -> Option<ChunkChange> {
    let here = loaded.contains_key(key_of(p));
    let inside = near(center, view_distance, p);
    if here && !inside {
        Some(ChunkChange::Remove(p))
    } else if !here && inside {
        Some(ChunkChange::Create(p))
    } else {
        None
    }
}

/// The changes made while walking the positions `walk`, in order.
pub open spec fn changes(
    loaded: Map<ChunkKey, Seq<usize>>,
    center: ChunkPosition,
    view_distance: isize,
    walk: Seq<ChunkPosition>,
) -> Seq<ChunkChange>
    decreases walk.len(),
{
    if walk.len() == 0 {
        Seq::empty()
    } else {
        let rest = changes(loaded, center, view_distance, walk.drop_last());
        match change_at(loaded, center, view_distance, walk.last()) {
            Some(c) => rest.push(c),
            None => rest,
        }
    }
}

/// Position `(a * n + b) * n + c` of the box is the one `a`, `b` and `c`
/// steps from its low corner.
proof fn lemma_box_index(center: ChunkPosition, view_distance: int, a: int, b: int, c: int)
    requires
        view_distance > 0,
        0 <= a < box_side(view_distance),
        0 <= b < box_side(view_distance),
        0 <= c < box_side(view_distance),
    ensures
        0 <= (a * box_side(view_distance) + b) * box_side(view_distance) + c < view_box(center, view_distance).len(),
        box_member(center, view_distance, (a * box_side(view_distance) + b) * box_side(view_distance) + c)
            == (ChunkPosition {
            x: (center.x - view_distance + a) as isize,
            y: (center.y - view_distance + b) as isize,
            z: (center.z - view_distance + c) as isize,
        }),
{
    let n = box_side(view_distance);
    let i = (a * n + b) * n + c;
    assert(0 <= b * n + c < n * n && i == a * (n * n) + (b * n + c) && i < n * n * n && 0 <= a * n + b) by (nonlinear_arith)
        requires
            0 <= a < n,
            0 <= b < n,
            0 <= c < n,
            i == (a * n + b) * n + c,
    ;
    lemma_fundamental_div_mod_converse(i, n * n, a, b * n + c);
    lemma_fundamental_div_mod_converse(i, n, a * n + b, c);
    lemma_fundamental_div_mod_converse(a * n + b, n, a, b);
}

proof fn lemma_changes_step(
    loaded: Map<ChunkKey, Seq<usize>>,
    center: ChunkPosition,
    view_distance: isize,
    walk: Seq<ChunkPosition>,
    k: int,
)
    requires
        0 <= k < walk.len(),
    ensures
        changes(loaded, center, view_distance, walk.take(k + 1)) == match change_at(
            loaded,
            center,
            view_distance,
            walk[k],
        ) {
            Some(c) => changes(loaded, center, view_distance, walk.take(k)).push(c),
            None => changes(loaded, center, view_distance, walk.take(k)),
        },
{
    assert(walk.take(k + 1).drop_last() =~= walk.take(k));
    assert(walk.take(k + 1).last() == walk[k]);
}

/// `p` lies in the walked box around `center`.
pub open spec fn in_box(center: ChunkPosition, view_distance: int, p: ChunkPosition) -> bool {
    &&& center.x - view_distance <= p.x < center.x + view_distance
    &&& center.y - view_distance <= p.y < center.y + view_distance
    &&& center.z - view_distance <= p.z < center.z + view_distance
}

proof fn lemma_changes_contain(
    loaded: Map<ChunkKey, Seq<usize>>,
    center: ChunkPosition,
    view_distance: isize,
    walk: Seq<ChunkPosition>,
    p: ChunkPosition,
)
    ensures
        changes(loaded, center, view_distance, walk).contains(ChunkChange::Remove(p)) <==> walk.contains(p)
            && change_at(loaded, center, view_distance, p) == Some(ChunkChange::Remove(p)),
        changes(loaded, center, view_distance, walk).contains(ChunkChange::Create(p)) <==> walk.contains(p)
            && change_at(loaded, center, view_distance, p) == Some(ChunkChange::Create(p)),
    decreases walk.len(),
{
    if walk.len() > 0 {
        let rest = walk.drop_last();
        let q = walk.last();
        lemma_changes_contain(loaded, center, view_distance, rest, p);
        let before = changes(loaded, center, view_distance, rest);
        assert(walk.contains(p) <==> rest.contains(p) || q == p) by {
            if walk.contains(p) {
                let j = choose|j: int| 0 <= j < walk.len() && walk[j] == p;
                if j < rest.len() {
                    assert(rest[j] == p);
                }
            }
            if rest.contains(p) {
                let j = choose|j: int| 0 <= j < rest.len() && rest[j] == p;
                assert(walk[j] == p);
            }
            if q == p {
                assert(walk[walk.len() - 1] == p);
            }
        }
        match change_at(loaded, center, view_distance, q) {
            Some(c) => {
                let after = before.push(c);
                assert forall|ch: ChunkChange| #[trigger] after.contains(ch) <==> before.contains(ch) || ch == c by {
                    if after.contains(ch) {
                        let j = choose|j: int| 0 <= j < after.len() && after[j] == ch;
                        if j < before.len() {
                            assert(before[j] == ch);
                        }
                    }
                    if before.contains(ch) {
                        let j = choose|j: int| 0 <= j < before.len() && before[j] == ch;
                        assert(after[j] == ch);
                    }
                    if ch == c {
                        assert(after[before.len() as int] == ch);
                    }
                }
            },
            None => {},
        }
    }
}

/// The walked box holds exactly the positions `in_box` describes.
proof fn lemma_view_box_members(center: ChunkPosition, view_distance: isize, p: ChunkPosition)
    requires
        bounds_fit(center, view_distance),
    ensures
        view_box(center, view_distance as int).contains(p) <==> in_box(center, view_distance as int, p),
{
    let d = view_distance as int;
    let n = box_side(d);
    let walk = view_box(center, d);
    if in_box(center, d, p) {
        let a = p.x - (center.x - d);
        let b = p.y - (center.y - d);
        let c = p.z - (center.z - d);
        lemma_box_index(center, d, a, b, c);
        assert(walk[(a * n + b) * n + c] == p);
    }
    if walk.contains(p) {
        let i = choose|i: int| 0 <= i < walk.len() && walk[i] == p;
        assert(d > 0) by {
            if d <= 0 {
                assert(walk.len() == 0);
            }
        }
        assert(0 <= i / (n * n) < n && 0 <= (i / n) % n < n && 0 <= i % n < n) by (nonlinear_arith)
            requires
                n > 0,
                0 <= i < n * n * n,
        ;
    }
}

/// The changes made while walking the box around `center`, in walking order.
pub open spec fn walked_changes(
    loaded: Map<ChunkKey, Seq<usize>>,
    center: ChunkPosition,
    view_distance: isize,
) -> Seq<ChunkChange> {
    changes(loaded, center, view_distance, view_box(center, view_distance as int))
}

/// `plan` is what `update_chunks` makes of the loaded chunks: first the
/// changes of the walk over the box, in walking order; then the removal of
/// every loaded chunk outside the box, each once, in no fixed order.
pub open spec fn is_update_plan(
    loaded: Map<ChunkKey, Seq<usize>>,
    center: ChunkPosition,
    view_distance: isize,
    plan: Seq<ChunkChange>,
) -> bool {
    let walked = walked_changes(loaded, center, view_distance);
    let rest = plan.skip(walked.len() as int);
    &&& walked.len() <= plan.len()
    &&& plan.take(walked.len() as int) == walked
    &&& rest.no_duplicates()
    &&& forall|i: int| 0 <= i < rest.len() ==> (#[trigger] rest[i]) is Remove
    &&& forall|p: ChunkPosition|
        rest.contains(ChunkChange::Remove(p)) <==> loaded.contains_key(key_of(p)) && !in_box(
            center,
            view_distance as int,
            p,
        )
}

proof fn lemma_concat_contains<A>(a: Seq<A>, b: Seq<A>, x: A)
    ensures
        (a + b).contains(x) <==> a.contains(x) || b.contains(x),
{
    if (a + b).contains(x) {
        let j = choose|j: int| 0 <= j < (a + b).len() && (a + b)[j] == x;
        if j < a.len() {
            assert(a[j] == x);
        } else {
            assert(b[j - a.len()] == x);
        }
    }
    if a.contains(x) {
        let j = choose|j: int| 0 <= j < a.len() && a[j] == x;
        assert((a + b)[j] == x);
    }
    if b.contains(x) {
        let j = choose|j: int| 0 <= j < b.len() && b[j] == x;
        assert((a + b)[a.len() + j] == x);
    }
}

proof fn lemma_push_contains<A>(s: Seq<A>, x: A, a: A)
    ensures
        s.push(x).contains(a) <==> s.contains(a) || a == x,
{
    assert(s.push(x) =~= s + seq![x]);
    lemma_concat_contains(s, seq![x], a);
    if seq![x].contains(a) {
        let j = choose|j: int| 0 <= j < 1 && seq![x][j] == a;
        assert(j == 0);
    }
    if a == x {
        assert(seq![x][0] == a);
    }
}

/// What `update_chunks` does: every loaded chunk that is not strictly inside
/// the view is removed, every missing chunk strictly inside it is created,
/// and nothing else. So afterwards a chunk is loaded exactly where the view
/// is.
pub proof fn law_update_chunks_settles_the_view(
    loaded: Map<ChunkKey, Seq<usize>>,
    center: ChunkPosition,
    view_distance: isize,
    plan: Seq<ChunkChange>,
    p: ChunkPosition,
)
    requires
        bounds_fit(center, view_distance),
        is_update_plan(loaded, center, view_distance, plan),
    ensures
        plan.contains(ChunkChange::Remove(p)) <==> loaded.contains_key(key_of(p)) && !near(center, view_distance, p),
        plan.contains(ChunkChange::Create(p)) <==> !loaded.contains_key(key_of(p)) && near(center, view_distance, p),
{
    let walked = walked_changes(loaded, center, view_distance);
    let rest = plan.skip(walked.len() as int);
    assert(plan =~= walked + rest);
    lemma_changes_contain(loaded, center, view_distance, view_box(center, view_distance as int), p);
    lemma_view_box_members(center, view_distance, p);
    lemma_concat_contains(walked, rest, ChunkChange::Remove(p));
    lemma_concat_contains(walked, rest, ChunkChange::Create(p));
    if rest.contains(ChunkChange::Create(p)) {
        let j = choose|j: int| 0 <= j < rest.len() && rest[j] == ChunkChange::Create(p);
        assert(rest[j] is Remove);
    }
}

/// Whether `p` lies in the walked box around `center`.
fn is_in_box(center: ChunkPosition, view_distance: isize, p: ChunkPosition) -> (b: bool)
    requires
        bounds_fit(center, view_distance),
    ensures
        b == in_box(center, view_distance as int, p),
{
    center.x - view_distance <= p.x && p.x < center.x + view_distance && center.y - view_distance <= p.y
        && p.y < center.y + view_distance && center.z - view_distance <= p.z && p.z < center.z
        + view_distance
}

/// The chunks to unload and to generate when the player is in chunk
/// `position`. First the box from `view_distance` below to `view_distance`
/// above (excluded) is walked position by position, `x` slowest and `z`
/// fastest: a loaded chunk there that is not strictly inside the view is
/// removed and a missing chunk strictly inside it is created. Then a final
/// pass over the loaded chunks removes every one outside the box.
pub fn update_chunks(chunks: &ChunkTable, position: ChunkPosition, view_distance: isize) -> (plan: Vec<ChunkChange>)
    requires
        bounds_fit(position, view_distance),
    ensures
        is_update_plan(chunk_entries(*chunks), position, view_distance, plan@),
{
    broadcast use vstd::seq_lib::group_seq_properties;

    let ghost loaded = chunk_entries(*chunks);
    let mut plan = walk_box(chunks, position, view_distance);
    let ghost walked = plan@;
    let keys = chunk_keys(chunks);
    let mut extra: Vec<ChunkChange> = Vec::new();
    let mut j: usize = 0;
    while j < keys.len()
        invariant
            bounds_fit(position, view_distance),
            loaded == chunk_entries(*chunks),
            j <= keys@.len(),
            keys@.to_set() == loaded.dom(),
            keys@.no_duplicates(),
            extra@.no_duplicates(),
            forall|i: int| 0 <= i < extra@.len() ==> (#[trigger] extra@[i]) is Remove,
            forall|p: ChunkPosition|
                #![trigger key_of(p)]
                extra@.contains(ChunkChange::Remove(p)) <==> keys@.take(j as int).contains(key_of(p))
                    && !in_box(position, view_distance as int, p),
        decreases keys@.len() - j,
    {
        let k = keys[j];
        let p = ChunkPosition::new(k.0, k.1, k.2);
        proof {
            assert(key_of(p) == k);
            assert(keys@.take(j + 1) =~= keys@.take(j as int).push(k));
            assert(!keys@.take(j as int).contains(k)) by {
                if keys@.take(j as int).contains(k) {
                    let i = choose|i: int| 0 <= i < j && keys@.take(j as int)[i] == k;
                    assert(keys@[i] == keys@[j as int]);
                }
            }
        }
        let ghost before = extra@;
        if !is_in_box(position, view_distance, p) {
            extra.push(ChunkChange::Remove(p));
            proof {
                assert(!before.contains(ChunkChange::Remove(p)));
            }
        }
        proof {
            assert forall|q: ChunkPosition|
                #![trigger key_of(q)]
                extra@.contains(ChunkChange::Remove(q)) <==> keys@.take(j + 1).contains(key_of(q))
                    && !in_box(position, view_distance as int, q) by {
                if key_of(q) == k {
                    assert(q.x == p.x && q.y == p.y && q.z == p.z);
                    assert(q == p);
                }
                lemma_push_contains(keys@.take(j as int), k, key_of(q));
                lemma_push_contains(before, ChunkChange::Remove(p), ChunkChange::Remove(q));
                assert(before.contains(ChunkChange::Remove(q)) <==> keys@.take(j as int).contains(key_of(q))
                    && !in_box(position, view_distance as int, q));
                if in_box(position, view_distance as int, p) {
                    assert(extra@ == before);
                } else {
                    assert(extra@ == before.push(ChunkChange::Remove(p)));
                }
            }
        }
        j = j + 1;
    }
    proof {
        assert(keys@.take(keys@.len() as int) =~= keys@);
        assert forall|p: ChunkPosition| keys@.contains(key_of(p)) <==> loaded.contains_key(key_of(p)) by {
            assert(keys@.to_set().contains(key_of(p)) <==> keys@.contains(key_of(p)));
        }
    }
    let ghost rest = extra@;
    plan.append(&mut extra);
    proof {
        assert(plan@ =~= walked + rest);
        assert(plan@.take(walked.len() as int) =~= walked);
        assert(plan@.skip(walked.len() as int) =~= rest);
    }
    plan
}

/// The changes of the walk over the box around `position`, in walking
/// order.
fn walk_box(chunks: &ChunkTable, position: ChunkPosition, view_distance: isize) -> (plan: Vec<ChunkChange>)
    requires
        bounds_fit(position, view_distance),
    ensures
        plan@ == walked_changes(chunk_entries(*chunks), position, view_distance),
{
    let ghost loaded = chunk_entries(*chunks);
    let ghost d = view_distance as int;
    let ghost n = box_side(d);
    let ghost walk = view_box(position, d);
    let lo_x = position.x - view_distance;
    let hi_x = position.x + view_distance;
    let lo_y = position.y - view_distance;
    let hi_y = position.y + view_distance;
    let lo_z = position.z - view_distance;
    let hi_z = position.z + view_distance;
    let mut plan: Vec<ChunkChange> = Vec::new();
    let mut x = lo_x;
    proof {
        assert(walk.take(0) =~= Seq::<ChunkPosition>::empty());
        assert(changes(loaded, position, view_distance, walk.take(0)) =~= Seq::<ChunkChange>::empty());
        assert((x - lo_x) * n * n == 0) by (nonlinear_arith)
            requires
                x == lo_x,
        ;
    }
    while x < hi_x
        invariant
            bounds_fit(position, view_distance),
            loaded == chunk_entries(*chunks),
            d == view_distance,
            n == box_side(d),
            walk == view_box(position, d),
            lo_x == position.x - view_distance,
            hi_x == position.x + view_distance,
            lo_y == position.y - view_distance,
            hi_y == position.y + view_distance,
            lo_z == position.z - view_distance,
            hi_z == position.z + view_distance,
            0 <= x - lo_x <= n,
            n == hi_x - lo_x || (n == 0 && hi_x <= lo_x),
            plan@ == changes(loaded, position, view_distance, walk.take((x - lo_x) * n * n)),
        decreases hi_x - x,
    {
        let ghost a = x - lo_x;
        let mut y = lo_y;
        while y < hi_y
            invariant
                bounds_fit(position, view_distance),
                loaded == chunk_entries(*chunks),
                d == view_distance,
                d > 0,
                n == box_side(d),
                n == 2 * d,
                walk == view_box(position, d),
                lo_x == position.x - view_distance,
                lo_y == position.y - view_distance,
                hi_y == position.y + view_distance,
                lo_z == position.z - view_distance,
                hi_z == position.z + view_distance,
                a == x - lo_x,
                0 <= a < n,
                x < hi_x,
                0 <= y - lo_y <= n,
                plan@ == changes(loaded, position, view_distance, walk.take((a * n + (y - lo_y)) * n)),
            decreases hi_y - y,
        {
            let ghost b = y - lo_y;
            let mut z = lo_z;
            while z < hi_z
                invariant
                    bounds_fit(position, view_distance),
                    loaded == chunk_entries(*chunks),
                    d == view_distance,
                    d > 0,
                    n == box_side(d),
                    n == 2 * d,
                    walk == view_box(position, d),
                    lo_x == position.x - view_distance,
                    lo_y == position.y - view_distance,
                    lo_z == position.z - view_distance,
                    hi_z == position.z + view_distance,
                    a == x - lo_x,
                    b == y - lo_y,
                    0 <= a < n,
                    0 <= b < n,
                    y < hi_y,
                    0 <= z - lo_z <= n,
                    plan@ == changes(loaded, position, view_distance, walk.take((a * n + b) * n + (z - lo_z))),
                decreases hi_z - z,
            {
                let p = ChunkPosition::new(x, y, z);
                proof {
                    let c = z - lo_z;
                    lemma_box_index(position, d, a, b, c);
                    assert(walk[(a * n + b) * n + c] == p);
                    lemma_changes_step(loaded, position, view_distance, walk, (a * n + b) * n + c);
                }
                let here = has_chunk_entry(chunks, (x, y, z));
                let inside = is_near(position, view_distance, p);
                if here && !inside {
                    plan.push(ChunkChange::Remove(p));
                } else if !here && inside {
                    plan.push(ChunkChange::Create(p));
                }
                z = z + 1;
            }
            proof {
                assert((a * n + b) * n + n == (a * n + (b + 1)) * n) by (nonlinear_arith);
            }
            y = y + 1;
        }
        proof {
            assert((a * n + n) * n == (a + 1) * n * n) by (nonlinear_arith);
        }
        x = x + 1;
    }
    proof {
        assert(walk.len() == n * n * n);
        assert((x - lo_x) * n * n == n * n * n);
        assert(walk.take(n * n * n) =~= walk);
    }
    plan
}

} // verus!
