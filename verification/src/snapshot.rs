use vstd::prelude::*;
use vstd::string::*;

use crate::tile::{in_world, kind_name, tile_is_in_world, TileCoord, TileKind};
use crate::timeline::{json_int, json_state, json_string, push_json_int, push_json_string, GameState};
use crate::world::{distinct_coords, HexEntity, Occupant, TileWorld};

verus! {

broadcast use vstd::seq_lib::group_seq_properties;

/// A placed tile as the probe records it.
#[derive(Debug, Clone, Copy, PartialEq, Eq, Structural)]
pub struct TileSnapshot {
    pub coord: TileCoord,
    pub kind: TileKind,
}

/// The game state that the probe records: progression and the sorted tiles and ghosts.
pub struct GameSnapshot {
    pub xp: u32,
    pub xp_max: u32,
    pub skill_points: u32,
    pub tiles: Vec<TileSnapshot>,
    pub ghosts: Vec<TileCoord>,
}

/// Something that stands at a coordinate.
pub trait Located: Copy {
    spec fn location(self) -> TileCoord;

    fn coord(&self) -> (c: TileCoord)
        ensures
            c == self.location(),
    ;
}

impl Located for TileSnapshot {
    open spec fn location(self) -> TileCoord {
        self.coord
    }

    fn coord(&self) -> (c: TileCoord) {
        self.coord
    }
}

impl Located for TileCoord {
    open spec fn location(self) -> TileCoord {
        self
    }

    fn coord(&self) -> (c: TileCoord) {
        *self
    }
}

/// The order of the snapshot: by `q`, then by `r`.
pub open spec fn coord_le(a: TileCoord, b: TileCoord) -> bool {
    a.q < b.q || (a.q == b.q && a.r <= b.r)
}

/// Compares two coordinates in snapshot order.
pub fn coord_leq(a: TileCoord, b: TileCoord) -> (le: bool)
    ensures
        le == coord_le(a, b),
{
    a.q < b.q || (a.q == b.q && a.r <= b.r)
}

pub open spec fn locations<T: Located>(s: Seq<T>) -> Seq<TileCoord> {
    s.map_values(|x: T| x.location())
}

pub open spec fn sorted_by_coord<T: Located>(s: Seq<T>) -> bool {
    forall|i: int, j: int| 0 <= i < j < s.len() ==> coord_le(s[i].location(), s[j].location())
}

/// The items at coordinate `k`, in their order.
pub open spec fn with_key<T: Located>(s: Seq<T>, k: TileCoord) -> Seq<T>
    decreases s.len(),
{
    if s.len() == 0 {
        Seq::empty()
    } else if s.last().location() == k {
        with_key(s.drop_last(), k).push(s.last())
    } else {
        with_key(s.drop_last(), k)
    }
}

proof fn lemma_with_key_concat<T: Located>(a: Seq<T>, b: Seq<T>, k: TileCoord)
    ensures
        with_key(a + b, k) == with_key(a, k) + with_key(b, k),
    decreases b.len(),
{
    if b.len() == 0 {
        assert(a + b =~= a);
        assert(with_key(a, k) + with_key(b, k) =~= with_key(a, k));
    } else {
        lemma_with_key_concat(a, b.drop_last(), k);
        assert((a + b).drop_last() =~= a + b.drop_last());
        assert((a + b).last() == b.last());
        if b.last().location() == k {
            assert(with_key(a, k) + with_key(b, k) =~= (with_key(a, k) + with_key(b.drop_last(), k)).push(b.last()));
        }
    }
}

proof fn lemma_with_key_none<T: Located>(s: Seq<T>, k: TileCoord)
    requires
        forall|j: int| 0 <= j < s.len() ==> #[trigger] s[j].location() != k,
    ensures
        with_key(s, k) == Seq::<T>::empty(),
    decreases s.len(),
{
    if s.len() > 0 {
        assert(s.last().location() != k);
        lemma_with_key_none(s.drop_last(), k);
    }
}

proof fn lemma_with_key_member<T: Located>(s: Seq<T>, j: int)
    requires
        0 <= j < s.len(),
    ensures
        with_key(s, s[j].location()).len() > 0,
    decreases s.len(),
{
    if j < s.len() - 1 {
        lemma_with_key_member(s.drop_last(), j);
    }
}

proof fn lemma_with_key_only<T: Located>(s: Seq<T>, k: TileCoord)
    requires
        with_key(s, k).len() > 0,
    ensures
        exists|j: int| 0 <= j < s.len() && #[trigger] s[j].location() == k,
    decreases s.len(),
{
    if s.last().location() != k {
        lemma_with_key_only(s.drop_last(), k);
        let j = choose|j: int| 0 <= j < s.drop_last().len() && #[trigger] s.drop_last()[j].location() == k;
        assert(s[j] == s.drop_last()[j]);
    } else {
        assert(s[s.len() - 1].location() == k);
    }
}

/// Sorting by coordinate with hexagons at one coordinate in their given order leaves no
/// choice: two sequences sorted that way with the same items at every coordinate are equal.
pub proof fn lemma_sorted_by_key_unique<T: Located>(a: Seq<T>, b: Seq<T>)
    requires
        sorted_by_coord(a),
        sorted_by_coord(b),
        forall|k: TileCoord| #[trigger] with_key(a, k) == with_key(b, k),
    ensures
        a == b,
    decreases a.len() + b.len(),
{
    if a.len() == 0 && b.len() == 0 {
        assert(a =~= b);
    } else if a.len() == 0 {
        lemma_with_key_member(b, b.len() - 1);
        assert(with_key(a, b.last().location()) == with_key(b, b.last().location()));
    } else if b.len() == 0 {
        lemma_with_key_member(a, a.len() - 1);
        assert(with_key(a, a.last().location()) == with_key(b, a.last().location()));
    } else {
        let ka = a.last().location();
        let kb = b.last().location();
        lemma_with_key_member(a, a.len() - 1);
        lemma_with_key_member(b, b.len() - 1);
        assert(with_key(a, ka) == with_key(b, ka));
        assert(with_key(a, kb) == with_key(b, kb));
        lemma_with_key_only(b, ka);
        lemma_with_key_only(a, kb);
        let jb = choose|j: int| 0 <= j < b.len() && #[trigger] b[j].location() == ka;
        let ja = choose|j: int| 0 <= j < a.len() && #[trigger] a[j].location() == kb;
        if jb < b.len() - 1 {
            assert(coord_le(b[jb].location(), b[b.len() - 1].location()));
        }
        if ja < a.len() - 1 {
            assert(coord_le(a[ja].location(), a[a.len() - 1].location()));
        }
        assert(ka == kb);
        assert(with_key(a, ka).last() == a.last());
        assert(with_key(b, ka).last() == b.last());
        let a2 = a.drop_last();
        let b2 = b.drop_last();
        assert forall|k: TileCoord| #[trigger] with_key(a2, k) == with_key(b2, k) by {
            assert(with_key(a, k) == with_key(b, k));
            if k == ka {
                assert(with_key(a2, k) =~= with_key(a, k).drop_last());
                assert(with_key(b2, k) =~= with_key(b, k).drop_last());
            }
        }
        lemma_sorted_by_key_unique(a2, b2);
        assert(a =~= a2.push(a.last()));
        assert(b =~= b2.push(b.last()));
    }
}

/// A snapshot is determined by the world: any two snapshots of the same hexagons are equal.
pub proof fn lemma_snapshot_unique(
    s: Seq<HexEntity>,
    tiles: Seq<TileSnapshot>,
    ghosts: Seq<TileCoord>,
    other_tiles: Seq<TileSnapshot>,
    other_ghosts: Seq<TileCoord>,
)
    requires
        is_snapshot_of(tiles, ghosts, s),
        is_snapshot_of(other_tiles, other_ghosts, s),
    ensures
        tiles == other_tiles,
        ghosts == other_ghosts,
{
    assert forall|k: TileCoord| #[trigger] with_key(tiles, k) == with_key(other_tiles, k) by {
        assert(with_key(tiles, k) == with_key(tile_part(s), k));
        assert(with_key(other_tiles, k) == with_key(tile_part(s), k));
    }
    assert forall|k: TileCoord| #[trigger] with_key(ghosts, k) == with_key(other_ghosts, k) by {
        assert(with_key(ghosts, k) == with_key(ghost_part(s), k));
        assert(with_key(other_ghosts, k) == with_key(ghost_part(s), k));
    }
    lemma_sorted_by_key_unique(tiles, other_tiles);
    lemma_sorted_by_key_unique(ghosts, other_ghosts);
}

/// Sorts by coordinate (`q`, then `r`), keeping the same items; items at the same coordinate
/// keep their order.
pub fn sort_by_coord<T: Located>(items: &Vec<T>) -> (sorted: Vec<T>)
    ensures
        sorted_by_coord(sorted@),
        sorted@.to_multiset() == items@.to_multiset(),
        locations(sorted@).to_multiset() == locations(items@).to_multiset(),
        forall|k: TileCoord| #[trigger] with_key(sorted@, k) == with_key(items@, k),
{
    let mut out: Vec<T> = Vec::new();
    let mut i: usize = 0;
    while i < items.len()
        invariant
            i <= items@.len(),
            sorted_by_coord(out@),
            out@.to_multiset() == items@.take(i as int).to_multiset(),
            locations(out@).to_multiset() == locations(items@.take(i as int)).to_multiset(),
            forall|k: TileCoord| #[trigger] with_key(out@, k) == with_key(items@.take(i as int), k),
        decreases items@.len() - i,
    {
        let x = items[i];
        let kx = x.coord();
        let mut p: usize = 0;
        while p < out.len() && coord_leq(out[p].coord(), kx)
            invariant
                p <= out@.len(),
                forall|j: int| 0 <= j < p ==> coord_le(#[trigger] out@[j].location(), kx),
            decreases out@.len() - p,
        {
            p = p + 1;
        }
        let ghost before = out@;
        out.insert(p, x);
        proof {
            assert(items@.take(i + 1) =~= items@.take(i as int).push(x));
            assert(locations(items@.take(i + 1)) =~= locations(items@.take(i as int)).push(kx));
            assert(locations(out@) =~= locations(before).insert(p as int, kx));
            vstd::seq_lib::to_multiset_insert(before, p as int, x);
            vstd::seq_lib::to_multiset_insert(locations(before), p as int, kx);
            vstd::seq_lib::to_multiset_build(items@.take(i as int), x);
            vstd::seq_lib::to_multiset_build(locations(items@.take(i as int)), kx);
            assert(p < before.len() ==> !coord_le(before[p as int].location(), kx));
            let head = before.take(p as int);
            let tail = before.skip(p as int);
            assert(out@ =~= head + seq![x] + tail);
            assert(before =~= head + tail);
            assert forall|j: int| 0 <= j < tail.len() implies #[trigger] tail[j].location() != kx by {
                assert(tail[j] == before[p + j]);
                if j > 0 {
                    assert(coord_le(before[p as int].location(), before[p + j].location()));
                }
            }
            lemma_with_key_none(tail, kx);
            assert forall|k: TileCoord| #[trigger] with_key(out@, k) == with_key(items@.take(i + 1), k) by {
                lemma_with_key_concat(head + seq![x], tail, k);
                lemma_with_key_concat(head, seq![x], k);
                lemma_with_key_concat(head, tail, k);
                assert(seq![x].drop_last() =~= Seq::<T>::empty());
                assert(items@.take(i + 1).drop_last() =~= items@.take(i as int));
                if k == kx {
                    assert(with_key(seq![x], k) =~= seq![x]);
                    assert(with_key(out@, k) =~= with_key(head, k).push(x));
                    assert(with_key(before, k) =~= with_key(head, k));
                } else {
                    assert(with_key(seq![x], k) =~= Seq::<T>::empty());
                    assert(with_key(out@, k) =~= with_key(head, k) + with_key(tail, k));
                }
            }
            assert forall|a: int, b: int| 0 <= a < b < out@.len() implies coord_le(
                out@[a].location(),
                out@[b].location(),
            ) by {
                if b < p {
                    assert(out@[a] == before[a]);
                    assert(out@[b] == before[b]);
                } else if b == p {
                    assert(out@[a] == before[a]);
                    assert(out@[b] == x);
                } else if a < p {
                    assert(out@[a] == before[a]);
                    assert(out@[b] == before[b - 1]);
                    assert(coord_le(before[p as int].location(), before[b - 1].location()) || p
                        == b - 1);
                } else if a == p {
                    assert(out@[a] == x);
                    assert(out@[b] == before[b - 1]);
                    assert(coord_le(before[p as int].location(), before[b - 1].location()) || p
                        == b - 1);
                } else {
                    assert(out@[a] == before[a - 1]);
                    assert(out@[b] == before[b - 1]);
                }
            }
        }
        i = i + 1;
    }
    assert(items@.take(i as int) =~= items@);
    out
}


/// The placed tiles of the world, in world order.
pub open spec fn tile_part(s: Seq<HexEntity>) -> Seq<TileSnapshot>
    decreases s.len(),
{
    if s.len() == 0 {
        Seq::empty()
    } else {
        match s.last().occupant {
            Occupant::HexTile(kind) => tile_part(s.drop_last()).push(
                TileSnapshot { coord: s.last().coord, kind },
            ),
            Occupant::HexGhost => tile_part(s.drop_last()),
        }
    }
}

/// The ghost coordinates of the world, in world order.
pub open spec fn ghost_part(s: Seq<HexEntity>) -> Seq<TileCoord>
    decreases s.len(),
{
    if s.len() == 0 {
        Seq::empty()
    } else {
        match s.last().occupant {
            Occupant::HexTile(_) => ghost_part(s.drop_last()),
            Occupant::HexGhost => ghost_part(s.drop_last()).push(s.last().coord),
        }
    }
}

/// `tiles` and `ghosts` are the world's tiles and ghosts, each sorted by coordinate, with
/// hexagons at the same coordinate in world order.
pub open spec fn is_snapshot_of(tiles: Seq<TileSnapshot>, ghosts: Seq<TileCoord>, s: Seq<HexEntity>) -> bool {
    &&& sorted_by_coord(tiles)
    &&& sorted_by_coord(ghosts)
    &&& tiles.to_multiset() == tile_part(s).to_multiset()
    &&& locations(tiles).to_multiset() == locations(tile_part(s)).to_multiset()
    &&& ghosts.to_multiset() == ghost_part(s).to_multiset()
    &&& forall|k: TileCoord| #[trigger] with_key(tiles, k) == with_key(tile_part(s), k)
    &&& forall|k: TileCoord| #[trigger] with_key(ghosts, k) == with_key(ghost_part(s), k)
}

/// Records the world and the progression, with tiles and ghosts sorted by `q`, then `r`.
pub fn game_snapshot(world: &TileWorld, xp: u32, xp_max: u32, skill_points: u32) -> (snapshot: GameSnapshot)
    ensures
        snapshot.xp == xp,
        snapshot.xp_max == xp_max,
        snapshot.skill_points == skill_points,
        is_snapshot_of(snapshot.tiles@, snapshot.ghosts@, world@.0),
{
    let hexes = world.hexes();
    let mut tiles: Vec<TileSnapshot> = Vec::new();
    let mut ghosts: Vec<TileCoord> = Vec::new();
    let mut k: usize = 0;
    while k < hexes.len()
        invariant
            k <= hexes@.len(),
            tiles@ == tile_part(hexes@.take(k as int)),
            ghosts@ == ghost_part(hexes@.take(k as int)),
        decreases hexes@.len() - k,
    {
        let h = hexes[k];
        assert(hexes@.take(k + 1).drop_last() =~= hexes@.take(k as int));
        match h.occupant {
            Occupant::HexTile(kind) => tiles.push(TileSnapshot { coord: h.coord, kind }),
            Occupant::HexGhost => ghosts.push(h.coord),
        }
        k = k + 1;
    }
    assert(hexes@.take(k as int) =~= hexes@);
    let tiles = sort_by_coord(&tiles);
    let ghosts = sort_by_coord(&ghosts);
    assert(locations(ghosts@) =~= ghosts@);
    GameSnapshot { xp, xp_max, skill_points, tiles, ghosts }
}

/// All coordinates that a snapshot records: the tiles', then the ghosts'.
pub open spec fn snapshot_coords(tiles: Seq<TileSnapshot>, ghosts: Seq<TileCoord>) -> Seq<TileCoord> {
    locations(tiles) + ghosts
}

/// The probe's invariant on a snapshot: experience below its maximum, and every recorded
/// coordinate in the world and recorded once.
pub open spec fn invariants_hold(xp: u32, xp_max: u32, tiles: Seq<TileSnapshot>, ghosts: Seq<TileCoord>) -> bool {
    &&& xp < xp_max
    &&& forall|i: int|
        0 <= i < snapshot_coords(tiles, ghosts).len() ==> in_world(
            #[trigger] snapshot_coords(tiles, ghosts)[i],
        )
    &&& snapshot_coords(tiles, ghosts).no_duplicates()
}

/// Whether a snapshot satisfies the probe's invariant.
pub fn snapshot_passes_invariants(snapshot: &GameSnapshot) -> (holds: bool)
    ensures
        holds == invariants_hold(
            snapshot.xp,
            snapshot.xp_max,
            snapshot.tiles@,
            snapshot.ghosts@,
        ),
{
    let ghost all = snapshot_coords(snapshot.tiles@, snapshot.ghosts@);
    let mut coords: Vec<TileCoord> = Vec::new();
    let mut k: usize = 0;
    while k < snapshot.tiles.len()
        invariant
            k <= snapshot.tiles@.len(),
            coords@ == locations(snapshot.tiles@.take(k as int)),
        decreases snapshot.tiles@.len() - k,
    {
        coords.push(snapshot.tiles[k].coord);
        k = k + 1;
        assert(coords@ =~= locations(snapshot.tiles@.take(k as int)));
    }
    assert(snapshot.tiles@.take(k as int) =~= snapshot.tiles@);
    let mut k: usize = 0;
    while k < snapshot.ghosts.len()
        invariant
            k <= snapshot.ghosts@.len(),
            coords@ == locations(snapshot.tiles@) + snapshot.ghosts@.take(k as int),
        decreases snapshot.ghosts@.len() - k,
    {
        coords.push(snapshot.ghosts[k]);
        k = k + 1;
        assert(coords@ =~= locations(snapshot.tiles@) + snapshot.ghosts@.take(k as int));
    }
    assert(snapshot.ghosts@.take(k as int) =~= snapshot.ghosts@);
    assert(coords@ == all);
    if !(snapshot.xp < snapshot.xp_max) {
        return false;
    }
    let mut i: usize = 0;
    while i < coords.len()
        invariant
            coords@ == all,
            all == snapshot_coords(snapshot.tiles@, snapshot.ghosts@),
            snapshot.xp < snapshot.xp_max,
            i <= all.len(),
            forall|a: int| 0 <= a < i ==> in_world(#[trigger] all[a]),
            forall|a: int, b: int| 0 <= a < i && 0 <= b < all.len() && a != b ==> all[a] != all[b],
        decreases all.len() - i,
    {
        if !tile_is_in_world(coords[i]) {
            assert(!in_world(all[i as int]));
            return false;
        }
        let mut j: usize = 0;
        while j < coords.len()
            invariant
                coords@ == all,
                all == snapshot_coords(snapshot.tiles@, snapshot.ghosts@),
                snapshot.xp < snapshot.xp_max,
                i < all.len(),
                j <= all.len(),
                forall|b: int| 0 <= b < j && b != i ==> all[i as int] != all[b],
            decreases all.len() - j,
        {
            if j != i && coords[j] == coords[i] {
                assert(all[j as int] == all[i as int]);
                assert(!all.no_duplicates());
                return false;
            }
            j = j + 1;
        }
        i = i + 1;
    }
    true
}

proof fn lemma_parts_cover(s: Seq<HexEntity>)
    ensures
        (locations(tile_part(s)) + ghost_part(s)).to_multiset() == s.map_values(
            |h: HexEntity| h.coord,
        ).to_multiset(),
    decreases s.len(),
{
    broadcast use vstd::seq_lib::lemma_multiset_commutative;
    broadcast use vstd::multiset::group_multiset_axioms;

    if s.len() > 0 {
        let t = s.drop_last();
        lemma_parts_cover(t);
        let h = s.last();
        assert(s.map_values(|h: HexEntity| h.coord) =~= t.map_values(|h: HexEntity| h.coord).push(
            h.coord,
        ));
        vstd::seq_lib::to_multiset_build(t.map_values(|h: HexEntity| h.coord), h.coord);
        match h.occupant {
            Occupant::HexTile(kind) => {
                let x = TileSnapshot { coord: h.coord, kind };
                assert(locations(tile_part(s)) =~= locations(tile_part(t)).push(h.coord));
                vstd::seq_lib::to_multiset_build(locations(tile_part(t)), h.coord);
                assert(locations(tile_part(s)).to_multiset() =~= locations(tile_part(t)).to_multiset().insert(h.coord));
            },
            Occupant::HexGhost => {
                vstd::seq_lib::to_multiset_build(ghost_part(t), h.coord);
            },
        }
    }
}

/// A world whose hexagons have distinct coordinates (as every sound world has) records a
/// snapshot that passes the probe's invariant check whenever the experience is below its
/// maximum.
pub proof fn lemma_sound_world_passes_invariants(
    s: Seq<HexEntity>,
    next: u64,
    xp: u32,
    xp_max: u32,
    tiles: Seq<TileSnapshot>,
    ghosts: Seq<TileCoord>,
)
    requires
        crate::world::model_wf(s, next),
        distinct_coords(s),
        xp < xp_max,
        is_snapshot_of(tiles, ghosts, s),
    ensures
        invariants_hold(xp, xp_max, tiles, ghosts),
{
    broadcast use vstd::seq_lib::lemma_multiset_commutative;
    broadcast use vstd::seq_lib::group_to_multiset_ensures;

    let all = snapshot_coords(tiles, ghosts);
    let world = s.map_values(|h: HexEntity| h.coord);
    lemma_parts_cover(s);
    assert(all.to_multiset() == world.to_multiset());
    assert(world.no_duplicates()) by {
        assert forall|i: int, j: int| 0 <= i < world.len() && 0 <= j < world.len() && i != j implies world[i] != world[j] by {
            if i < j {
            } else {
            }
        }
    }
    world.lemma_multiset_has_no_duplicates();
    all.lemma_multiset_has_no_duplicates_conv();
    assert forall|i: int| 0 <= i < all.len() implies in_world(#[trigger] all[i]) by {
        assert(all.contains(all[i]));
        assert(all.to_multiset().count(all[i]) > 0);
        assert(world.to_multiset().count(all[i]) > 0);
        assert(world.contains(all[i]));
        let j = choose|j: int| 0 <= j < world.len() && world[j] == all[i];
        assert(in_world(s[j].coord));
    }
}

/// The version of the snapshot record's layout.
pub const SNAPSHOT_SCHEMA: u32 = 1;

/// A hexagon as a JSON object.
pub open spec fn coord_json(c: TileCoord) -> Seq<char> {
    "{\"q\":"@ + json_int(c.q as int) + ",\"r\":"@ + json_int(c.r as int) + "}"@
}

/// A tile as a JSON object: its kind's name and its hexagon.
pub open spec fn tile_json(t: TileSnapshot) -> Seq<char> {
    "{\"kind\":"@ + json_string(kind_name(t.kind)) + ",\"q\":"@ + json_int(t.coord.q as int)
        + ",\"r\":"@ + json_int(t.coord.r as int) + "}"@
}

/// The elements of a JSON array of hexagons, separated by commas.
pub open spec fn coords_json(g: Seq<TileCoord>) -> Seq<char>
    decreases g.len(),
{
    if g.len() == 0 {
        Seq::empty()
    } else if g.len() == 1 {
        coord_json(g[0])
    } else {
        coords_json(g.drop_last()) + ","@ + coord_json(g.last())
    }
}

/// The elements of a JSON array of tiles, separated by commas.
pub open spec fn tiles_json(t: Seq<TileSnapshot>) -> Seq<char>
    decreases t.len(),
{
    if t.len() == 0 {
        Seq::empty()
    } else if t.len() == 1 {
        tile_json(t[0])
    } else {
        tiles_json(t.drop_last()) + ","@ + tile_json(t.last())
    }
}

/// An optional text as a JSON value: the string, or `null`.
pub open spec fn json_opt_string(s: Option<String>) -> Seq<char> {
    match s {
        Some(s) => json_string(s@),
        None => "null"@,
    }
}

/// The snapshot record: one JSON object, keys in sorted order.
pub open spec fn snapshot_json_spec(
    frame: u64,
    state: Option<GameState>,
    reason: Seq<char>,
    seed: Option<String>,
    xp: u32,
    xp_max: u32,
    skill_points: u32,
    tiles: Seq<TileSnapshot>,
    ghosts: Seq<TileCoord>,
) -> Seq<char> {
    "{\"frame\":"@ + json_int(frame as int) + ",\"game_state\":"@ + json_state(state)
        + ",\"ghosts\":["@ + coords_json(ghosts) + "],\"reason\":"@ + json_string(reason)
        + ",\"schema\":"@ + json_int(SNAPSHOT_SCHEMA as int) + ",\"seed\":"@ + json_opt_string(seed)
        + ",\"skill_points\":"@ + json_int(skill_points as int) + ",\"tiles\":["@ + tiles_json(tiles)
        + "],\"xp\":"@ + json_int(xp as int) + ",\"xp_max\":"@ + json_int(xp_max as int) + "}"@
}

fn push_coord(out: &mut String, c: TileCoord)
    ensures
        final(out)@ == old(out)@ + coord_json(c),
{
    out.append("{\"q\":");
    push_json_int(out, c.q as i128);
    out.append(",\"r\":");
    push_json_int(out, c.r as i128);
    out.append("}");
}

fn push_tile(out: &mut String, t: TileSnapshot)
    ensures
        final(out)@ == old(out)@ + tile_json(t),
{
    out.append("{\"kind\":");
    push_json_string(out, t.kind.name());
    out.append(",\"q\":");
    push_json_int(out, t.coord.q as i128);
    out.append(",\"r\":");
    push_json_int(out, t.coord.r as i128);
    out.append("}");
}

fn push_coords(out: &mut String, g: &Vec<TileCoord>)
    ensures
        final(out)@ == old(out)@ + coords_json(g@),
{
    let ghost start = out@;
    let mut k: usize = 0;
    while k < g.len()
        invariant
            k <= g@.len(),
            out@ == start + coords_json(g@.take(k as int)),
        decreases g@.len() - k,
    {
        assert(g@.take(k + 1).drop_last() =~= g@.take(k as int));
        if k > 0 {
            out.append(",");
        }
        push_coord(out, g[k]);
        k = k + 1;
        assert(out@ =~= start + coords_json(g@.take(k as int)));
    }
    assert(g@.take(g@.len() as int) =~= g@);
}

fn push_tiles(out: &mut String, t: &Vec<TileSnapshot>)
    ensures
        final(out)@ == old(out)@ + tiles_json(t@),
{
    let ghost start = out@;
    let mut k: usize = 0;
    while k < t.len()
        invariant
            k <= t@.len(),
            out@ == start + tiles_json(t@.take(k as int)),
        decreases t@.len() - k,
    {
        assert(t@.take(k + 1).drop_last() =~= t@.take(k as int));
        if k > 0 {
            out.append(",");
        }
        push_tile(out, t[k]);
        k = k + 1;
        assert(out@ =~= start + tiles_json(t@.take(k as int)));
    }
    assert(t@.take(t@.len() as int) =~= t@);
}

/// The record of a snapshot: the frame, the game's state, the world's ghosts and tiles, why it
/// was taken, the layout version, the run's seed, and the progression.
pub fn snapshot_json(
    snapshot: &GameSnapshot,
    frame: u64,
    state: Option<GameState>,
    reason: &str,
    seed: &Option<String>,
) -> (line: String)
    ensures
        line@ == snapshot_json_spec(
            frame,
            state,
            reason@,
            *seed,
            snapshot.xp,
            snapshot.xp_max,
            snapshot.skill_points,
            snapshot.tiles@,
            snapshot.ghosts@,
        ),
{
    let mut line = String::from_str("{\"frame\":");
    push_json_int(&mut line, frame as i128);
    line.append(",\"game_state\":");
    match state {
        Some(GameState::AssetLoading) => push_json_string(&mut line, "AssetLoading"),
        Some(GameState::Playing) => push_json_string(&mut line, "Playing"),
        None => line.append("null"),
    }
    line.append(",\"ghosts\":[");
    push_coords(&mut line, &snapshot.ghosts);
    line.append("],\"reason\":");
    push_json_string(&mut line, reason);
    line.append(",\"schema\":");
    push_json_int(&mut line, SNAPSHOT_SCHEMA as i128);
    line.append(",\"seed\":");
    match seed {
        Some(s) => push_json_string(&mut line, s.as_str()),
        None => line.append("null"),
    }
    line.append(",\"skill_points\":");
    push_json_int(&mut line, snapshot.skill_points as i128);
    line.append(",\"tiles\":[");
    push_tiles(&mut line, &snapshot.tiles);
    line.append("],\"xp\":");
    push_json_int(&mut line, snapshot.xp as i128);
    line.append(",\"xp_max\":");
    push_json_int(&mut line, snapshot.xp_max as i128);
    line.append("}");
    line
}

/// Whether `line` is the record of some snapshot of the world with this progression.
pub open spec fn records_world(
    line: Seq<char>,
    s: Seq<HexEntity>,
    frame: u64,
    state: Option<GameState>,
    reason: Seq<char>,
    seed: Option<String>,
    xp: u32,
    xp_max: u32,
    skill_points: u32,
) -> bool {
    exists|tiles: Seq<TileSnapshot>, ghosts: Seq<TileCoord>|
        #![trigger snapshot_json_spec(frame, state, reason, seed, xp, xp_max, skill_points, tiles, ghosts)]
        is_snapshot_of(tiles, ghosts, s) && line == snapshot_json_spec(
            frame,
            state,
            reason,
            seed,
            xp,
            xp_max,
            skill_points,
            tiles,
            ghosts,
        )
}

/// Takes a snapshot of the world and the progression and returns its record.
pub fn capture_snapshot(
    world: &TileWorld,
    xp: u32,
    xp_max: u32,
    skill_points: u32,
    frame: u64,
    state: Option<GameState>,
    reason: &str,
    seed: &Option<String>,
) -> (line: String)
    ensures
        records_world(line@, world@.0, frame, state, reason@, *seed, xp, xp_max, skill_points),
{
    let snapshot = game_snapshot(world, xp, xp_max, skill_points);
    let line = snapshot_json(&snapshot, frame, state, reason, seed);
    proof {
        let tiles = snapshot.tiles@;
        let ghosts = snapshot.ghosts@;
        assert(line@ == snapshot_json_spec(frame, state, reason@, *seed, xp, xp_max, skill_points, tiles, ghosts));
    }
    line
}

/// The probe's invariant check: takes a snapshot of the world and the progression and returns
/// it, the snapshot passing the check. The check fails (the probe stops the run) when the
/// experience has reached its maximum or two hexagons share a coordinate; those inputs are left
/// out here, and `snapshot_passes_invariants` tells them apart.
pub fn check_invariants(world: &TileWorld, xp: u32, xp_max: u32, skill_points: u32) -> (snapshot: GameSnapshot)
    requires
        world.wf(),
        distinct_coords(world@.0),
        xp < xp_max,
    ensures
        snapshot.xp == xp,
        snapshot.xp_max == xp_max,
        snapshot.skill_points == skill_points,
        is_snapshot_of(snapshot.tiles@, snapshot.ghosts@, world@.0),
        invariants_hold(xp, xp_max, snapshot.tiles@, snapshot.ghosts@),
{
    let snapshot = game_snapshot(world, xp, xp_max, skill_points);
    proof {
        lemma_sound_world_passes_invariants(world@.0, world@.1, xp, xp_max, snapshot.tiles@, snapshot.ghosts@);
    }
    snapshot
}

} // verus!
