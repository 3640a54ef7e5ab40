use vstd::prelude::*;

use crate::tile::{next_roll, hex_ring_one, in_world, kind_of_roll, neighbors_spec, origin, tile_is_in_world, TileCoord, TileKind};

verus! {

broadcast use vstd::seq_lib::group_seq_properties;

/// What stands on a hexagon of the world.
#[derive(Debug, Clone, Copy, PartialEq, Eq, Structural)]
pub enum Occupant {
    /// An open hexagon where a tile can be placed.
    HexGhost,
    /// A placed tile of the given kind.
    HexTile(TileKind),
}

/// One hexagon of the world: an entity id, its coordinate, what stands on it, and whether the
/// pointer currently selects it.
#[derive(Debug, Clone, Copy, PartialEq, Eq, Structural)]
pub struct HexEntity {
    pub entity: u64,
    pub coord: TileCoord,
    pub occupant: Occupant,
    pub selected: bool,
}

/// A ghost was turned into a tile of the given kind.
#[derive(Debug, Clone, Copy, PartialEq, Eq, Structural)]
pub struct TilePlaced {
    pub coord: TileCoord,
    pub kind: TileKind,
}

/// The hexagons of the world, with the id that the next spawned hexagon receives.
pub struct TileWorld {
    hexes: Vec<HexEntity>,
    next_entity: u64,
}

/// Entity ids are pairwise distinct.
pub open spec fn unique_entities(s: Seq<HexEntity>) -> bool {
    forall|i: int, j: int| 0 <= i < j < s.len() ==> s[i].entity != s[j].entity
}

/// What every world keeps: ids below the next id and distinct, and every hexagon in the world.
pub open spec fn model_wf(s: Seq<HexEntity>, next: u64) -> bool {
    &&& forall|i: int| 0 <= i < s.len() ==> s[i].entity < next
    &&& unique_entities(s)
    &&& forall|i: int| 0 <= i < s.len() ==> in_world(#[trigger] s[i].coord)
}

/// No two hexagons share a coordinate.
pub open spec fn distinct_coords(s: Seq<HexEntity>) -> bool {
    forall|i: int, j: int| 0 <= i < j < s.len() ==> s[i].coord != s[j].coord
}

/// At most one hexagon is selected.
pub open spec fn single_selection(s: Seq<HexEntity>) -> bool {
    forall|i: int, j: int| 0 <= i < j < s.len() ==> !(s[i].selected && s[j].selected)
}

/// The game's invariant on the hexagons: distinct coordinates and at most one selection.
pub open spec fn sound(s: Seq<HexEntity>) -> bool {
    distinct_coords(s) && single_selection(s)
}

/// A fresh, unselected hexagon.
pub open spec fn fresh(entity: int, coord: TileCoord, occupant: Occupant) -> HexEntity {
    HexEntity { entity: entity as u64, coord, occupant, selected: false }
}


/// The coordinate of the ghost with this entity id, if there is one.
pub open spec fn ghost_with(s: Seq<HexEntity>, e: u64) -> Option<TileCoord>
    decreases s.len(),
{
    if s.len() == 0 {
        None
    } else {
        let prev = ghost_with(s.drop_last(), e);
        if prev is Some {
            prev
        } else if s.last().entity == e && s.last().occupant == Occupant::HexGhost {
            Some(s.last().coord)
        } else {
            None
        }
    }
}

/// Some hexagon (ghost or tile) stands at `c`.
pub open spec fn occupied(s: Seq<HexEntity>, c: TileCoord) -> bool {
    exists|i: int| 0 <= i < s.len() && s[i].coord == c
}

/// The candidates, in order, that are free in `s` and lie in the world.
pub open spec fn keep_open(s: Seq<HexEntity>, cands: Seq<TileCoord>) -> Seq<TileCoord>
    decreases cands.len(),
{
    if cands.len() == 0 {
        Seq::empty()
    } else {
        let prev = keep_open(s, cands.drop_last());
        let c = cands.last();
        if !occupied(s, c) && in_world(c) {
            prev.push(c)
        } else {
            prev
        }
    }
}

/// The neighbours of `c` where a placement opens new ghosts.
pub open spec fn open_neighbors(s: Seq<HexEntity>, c: TileCoord) -> Seq<TileCoord> {
    keep_open(s, neighbors_spec(c))
}

/// What placing a tile of `kind` at `c` spawns: the tile, then a ghost on each open neighbour.
pub open spec fn request_spawns(s: Seq<HexEntity>, c: TileCoord, kind: TileKind) -> Seq<(TileCoord, Occupant)> {
    seq![(c, Occupant::HexTile(kind))] + open_neighbors(s, c).map_values(|n: TileCoord| (n, Occupant::HexGhost))
}

/// How many of the requests name a ghost of `s`; each of them draws one random number.
pub open spec fn hits(s: Seq<HexEntity>, reqs: Seq<u64>) -> nat
    decreases reqs.len(),
{
    if reqs.len() == 0 {
        0
    } else {
        hits(s, reqs.drop_last()) + if ghost_with(s, reqs.last()) is Some { 1nat } else { 0nat }
    }
}

/// Everything that a batch of placement requests spawns, in order. Each request is judged
/// against the world as it was before the batch; the `k`-th request that names a ghost uses the
/// `k`-th draw.
pub open spec fn batch_spawns(s: Seq<HexEntity>, reqs: Seq<u64>, rolls: Seq<u32>) -> Seq<(TileCoord, Occupant)>
    decreases reqs.len(),
{
    if reqs.len() == 0 {
        Seq::empty()
    } else {
        let prev = batch_spawns(s, reqs.drop_last(), rolls);
        match ghost_with(s, reqs.last()) {
            Some(c) => prev + request_spawns(s, c, kind_of_roll(rolls[hits(s, reqs.drop_last()) as int])),
            None => prev,
        }
    }
}

/// The placements that a batch of requests reports, in order.
pub open spec fn batch_placed(s: Seq<HexEntity>, reqs: Seq<u64>, rolls: Seq<u32>) -> Seq<TilePlaced>
    decreases reqs.len(),
{
    if reqs.len() == 0 {
        Seq::empty()
    } else {
        let prev = batch_placed(s, reqs.drop_last(), rolls);
        match ghost_with(s, reqs.last()) {
            Some(c) => prev.push(
                TilePlaced { coord: c, kind: kind_of_roll(rolls[hits(s, reqs.drop_last()) as int]) },
            ),
            None => prev,
        }
    }
}

/// A hexagon that a batch of requests leaves in place: all but the requested ghosts.
pub open spec fn survives(reqs: Seq<u64>, h: HexEntity) -> bool {
    !(h.occupant == Occupant::HexGhost && reqs.contains(h.entity))
}

/// The hexagons of `s`, in order, that survive the requests.
pub open spec fn survivors(s: Seq<HexEntity>, reqs: Seq<u64>) -> Seq<HexEntity>
    decreases s.len(),
{
    if s.len() == 0 {
        Seq::empty()
    } else {
        let prev = survivors(s.drop_last(), reqs);
        if survives(reqs, s.last()) {
            prev.push(s.last())
        } else {
            prev
        }
    }
}

/// Spawned hexagons with consecutive fresh ids starting at `next`.
pub open spec fn spawned(spawns: Seq<(TileCoord, Occupant)>, next: int) -> Seq<HexEntity> {
    Seq::new(spawns.len(), |i: int| fresh(next + i, spawns[i].0, spawns[i].1))
}

/// The hexagons after a batch of placement requests.
pub open spec fn after_placements(s: Seq<HexEntity>, next: u64, reqs: Seq<u64>, rolls: Seq<u32>) -> Seq<HexEntity> {
    survivors(s, reqs) + spawned(batch_spawns(s, reqs, rolls), next as int)
}

proof fn lemma_ghost_with_found(s: Seq<HexEntity>, e: u64)
    ensures
        ghost_with(s, e) matches Some(c) ==> exists|i: int|
            0 <= i < s.len() && s[i].coord == c && s[i].entity == e && s[i].occupant
                == Occupant::HexGhost,
        ghost_with(s, e) is None ==> forall|i: int|
            0 <= i < s.len() && s[i].entity == e ==> s[i].occupant != Occupant::HexGhost,
    decreases s.len(),
{
    if s.len() > 0 {
        lemma_ghost_with_found(s.drop_last(), e);
        if let Some(c) = ghost_with(s.drop_last(), e) {
            let i = choose|i: int|
                0 <= i < s.drop_last().len() && s.drop_last()[i].coord == c
                    && s.drop_last()[i].entity == e && s.drop_last()[i].occupant
                    == Occupant::HexGhost;
            assert(s[i] == s.drop_last()[i]);
        } else {
            assert forall|i: int| 0 <= i < s.len() - 1 implies s[i] == s.drop_last()[i] by {}
        }
    }
}

proof fn lemma_keep_open(s: Seq<HexEntity>, cands: Seq<TileCoord>)
    ensures
        keep_open(s, cands).len() <= cands.len(),
        forall|k: int|
            0 <= k < keep_open(s, cands).len() ==> {
                let n = #[trigger] keep_open(s, cands)[k];
                &&& !occupied(s, n)
                &&& in_world(n)
                &&& cands.contains(n)
            },
    decreases cands.len(),
{
    if cands.len() > 0 {
        lemma_keep_open(s, cands.drop_last());
        let prev = keep_open(s, cands.drop_last());
        assert forall|k: int| 0 <= k < keep_open(s, cands).len() implies {
            let n = #[trigger] keep_open(s, cands)[k];
            &&& !occupied(s, n)
            &&& in_world(n)
            &&& cands.contains(n)
        } by {
            if k < prev.len() {
                let n = prev[k];
                assert(cands.drop_last().contains(n));
                let j = choose|j: int| 0 <= j < cands.drop_last().len() && cands.drop_last()[j] == n;
                assert(cands[j] == n);
            } else {
                assert(cands[cands.len() - 1] == cands.last());
            }
        }
    }
}

impl View for TileWorld {
    type V = (Seq<HexEntity>, u64);

    closed spec fn view(&self) -> (Seq<HexEntity>, u64) {
        (self.hexes@, self.next_entity)
    }
}

impl TileWorld {
    pub open spec fn wf(&self) -> bool {
        model_wf(self@.0, self@.1)
    }

    /// An empty world.
    pub fn new() -> (world: TileWorld)
        ensures
            world.wf(),
            world@.0 == Seq::<HexEntity>::empty(),
            world@.1 == 0,
    {
        TileWorld { hexes: Vec::new(), next_entity: 0 }
    }

    /// The hexagons of the world, in the order in which they were spawned.
    pub fn hexes(&self) -> (hexes: &Vec<HexEntity>)
        ensures
            hexes@ == self@.0,
    {
        &self.hexes
    }

    /// Removes every hexagon (leaving the game state).
    pub fn clear(&mut self)
        requires
            old(self).wf(),
        ensures
            final(self).wf(),
            final(self)@.0 == Seq::<HexEntity>::empty(),
            final(self)@.1 == old(self)@.1,
    {
        self.hexes = Vec::new();
    }

    /// Handles `requests` world-initialisation requests of one update: when there is at least
    /// one, every existing hexagon is removed and each request spawns a ghost at the origin.
    pub fn initialize_world(&mut self, requests: usize)
        requires
            old(self).wf(),
            old(self)@.1 + requests <= u64::MAX,
        ensures
            final(self).wf(),
            requests == 0 ==> final(self)@ == old(self)@,
            requests > 0 ==> final(self)@.0 == Seq::new(
                requests as nat,
                |i: int| fresh(old(self)@.1 + i, origin(), Occupant::HexGhost),
            ),
            final(self)@.1 == old(self)@.1 + requests,
    {
        if requests == 0 {
            return ;
        }
        let mut hexes: Vec<HexEntity> = Vec::new();
        let start = self.next_entity;
        let mut k: usize = 0;
        while k < requests
            invariant
                k <= requests,
                start + requests <= u64::MAX,
                hexes@ == Seq::new(k as nat, |i: int| fresh(start + i, origin(), Occupant::HexGhost)),
            decreases requests - k,
        {
            hexes.push(
                HexEntity {
                    entity: start + k as u64,
                    coord: TileCoord::zero(),
                    occupant: Occupant::HexGhost,
                    selected: false,
                },
            );
            k = k + 1;
            assert(hexes@ =~= Seq::new(k as nat, |i: int| fresh(start + i, origin(), Occupant::HexGhost)));
        }
        self.hexes = hexes;
        self.next_entity = start + requests as u64;
        assert(in_world(origin()));
    }
}


impl TileWorld {
    /// The coordinate of the ghost with this entity id.
    fn find_ghost(&self, e: u64) -> (found: Option<TileCoord>)
        ensures
            found == ghost_with(self@.0, e),
    {
        let mut k: usize = 0;
        while k < self.hexes.len()
            invariant
                k <= self.hexes@.len(),
                ghost_with(self.hexes@.take(k as int), e) is None,
            decreases self.hexes@.len() - k,
        {
            let h = self.hexes[k];
            assert(self.hexes@.take(k + 1).drop_last() =~= self.hexes@.take(k as int));
            if h.entity == e && h.occupant == Occupant::HexGhost {
                proof {
                    lemma_ghost_with_prefix(self.hexes@, e, k + 1);
                }
                return Some(h.coord);
            }
            k = k + 1;
        }
        assert(self.hexes@.take(k as int) =~= self.hexes@);
        None
    }

    /// Whether some hexagon stands at `c`.
    fn is_occupied(&self, c: TileCoord) -> (taken: bool)
        ensures
            taken == occupied(self@.0, c),
    {
        let mut k: usize = 0;
        while k < self.hexes.len()
            invariant
                k <= self.hexes@.len(),
                forall|i: int| 0 <= i < k ==> self.hexes@[i].coord != c,
            decreases self.hexes@.len() - k,
        {
            if self.hexes[k].coord == c {
                return true;
            }
            k = k + 1;
        }
        false
    }

    /// The neighbours of `c`, in ring order, that are free and in the world.
    fn open_neighbors(&self, c: TileCoord) -> (open: Vec<TileCoord>)
        requires
            i32::MIN < c.q < i32::MAX,
            i32::MIN < c.r < i32::MAX,
        ensures
            open@ == open_neighbors(self@.0, c),
    {
        let ring = hex_ring_one(c);
        let mut open: Vec<TileCoord> = Vec::new();
        let mut k: usize = 0;
        while k < ring.len()
            invariant
                k <= ring@.len(),
                ring@ == neighbors_spec(c),
                open@ == keep_open(self@.0, ring@.take(k as int)),
            decreases ring@.len() - k,
        {
            let n = ring[k];
            assert(ring@.take(k + 1).drop_last() =~= ring@.take(k as int));
            if !self.is_occupied(n) && tile_is_in_world(n) {
                open.push(n);
            }
            k = k + 1;
        }
        assert(ring@.take(k as int) =~= ring@);
        open
    }
}


/// Whether `e` is among the requested entity ids.
fn requested(requests: &Vec<u64>, e: u64) -> (found: bool)
    ensures
        found == requests@.contains(e),
{
    let mut k: usize = 0;
    while k < requests.len()
        invariant
            k <= requests@.len(),
            forall|i: int| 0 <= i < k ==> requests@[i] != e,
        decreases requests@.len() - k,
    {
        if requests[k] == e {
            return true;
        }
        k = k + 1;
    }
    false
}

impl TileWorld {
    /// The hexagons that a batch of placement requests leaves in place.
    fn survivors(&self, requests: &Vec<u64>) -> (kept: Vec<HexEntity>)
        ensures
            kept@ == survivors(self@.0, requests@),
    {
        let mut kept: Vec<HexEntity> = Vec::new();
        let mut k: usize = 0;
        while k < self.hexes.len()
            invariant
                k <= self.hexes@.len(),
                kept@ == survivors(self.hexes@.take(k as int), requests@),
            decreases self.hexes@.len() - k,
        {
            let h = self.hexes[k];
            assert(self.hexes@.take(k + 1).drop_last() =~= self.hexes@.take(k as int));
            if !(h.occupant == Occupant::HexGhost && requested(requests, h.entity)) {
                kept.push(h);
            }
            k = k + 1;
        }
        assert(self.hexes@.take(k as int) =~= self.hexes@);
        kept
    }

    /// How many requests name a ghost.
    pub fn count_hits(&self, requests: &Vec<u64>) -> (n: usize)
        ensures
            n == hits(self@.0, requests@),
    {
        let mut n: usize = 0;
        let mut k: usize = 0;
        while k < requests.len()
            invariant
                k <= requests@.len(),
                n == hits(self@.0, requests@.take(k as int)),
                n <= k,
            decreases requests@.len() - k,
        {
            assert(requests@.take(k + 1).drop_last() =~= requests@.take(k as int));
            if self.find_ghost(requests[k]).is_some() {
                n = n + 1;
            }
            k = k + 1;
        }
        assert(requests@.take(k as int) =~= requests@);
        n
    }

    /// Handles the placement requests of one update, given the random draws: each request
    /// that names a ghost turns it into a tile of the drawn kind and opens ghosts on the free
    /// in-world neighbours. Every request is judged against the world as it stood before the
    /// batch, as the deferred commands of one update are.
    pub fn place_tiles_with_rolls(&mut self, requests: &Vec<u64>, rolls: &Vec<u32>) -> (placed: Vec<TilePlaced>)
        requires
            old(self).wf(),
            rolls@.len() >= hits(old(self)@.0, requests@),
            old(self)@.1 + 7 * requests@.len() <= u64::MAX,
        ensures
            final(self).wf(),
            final(self)@.0 == after_placements(old(self)@.0, old(self)@.1, requests@, rolls@),
            final(self)@.1 == old(self)@.1 + batch_spawns(old(self)@.0, requests@, rolls@).len(),
            placed@ == batch_placed(old(self)@.0, requests@, rolls@),
    {
        let ghost pre = self@.0;
        let mut spawns: Vec<(TileCoord, Occupant)> = Vec::new();
        let mut placed: Vec<TilePlaced> = Vec::new();
        let mut used: usize = 0;
        let mut k: usize = 0;
        while k < requests.len()
            invariant
                self@.0 == pre,
                self.wf(),
                k <= requests@.len(),
                rolls@.len() >= hits(pre, requests@),
                used == hits(pre, requests@.take(k as int)),
                used <= k,
                spawns@ == batch_spawns(pre, requests@.take(k as int), rolls@),
                placed@ == batch_placed(pre, requests@.take(k as int), rolls@),
                spawns@.len() <= 7 * k,
                forall|j: int| 0 <= j < spawns@.len() ==> in_world(#[trigger] spawns@[j].0),
            decreases requests@.len() - k,
        {
            let e = requests[k];
            let ghost taken = requests@.take(k as int);
            assert(requests@.take(k + 1).drop_last() =~= taken);
            assert(requests@.take(k + 1).last() == e);
            proof {
                lemma_hits_prefix(pre, requests@, k + 1);
            }
            match self.find_ghost(e) {
                Some(c) => {
                    proof {
                        lemma_ghost_with_found(pre, e);
                    }
                    let kind = TileKind::from_roll(rolls[used]);
                    used = used + 1;
                    let ghost before = spawns@;
                    spawns.push((c, Occupant::HexTile(kind)));
                    placed.push(TilePlaced { coord: c, kind });
                    let open = self.open_neighbors(c);
                    proof {
                        lemma_keep_open(pre, neighbors_spec(c));
                    }
                    let mut m: usize = 0;
                    while m < open.len()
                        invariant
                            m <= open@.len(),
                            open@ == open_neighbors(pre, c),
                            open@.len() <= 6,
                            forall|j: int| 0 <= j < open@.len() ==> in_world(#[trigger] open@[j]),
                            spawns@ == before + seq![(c, Occupant::HexTile(kind))] + open@.take(
                                m as int,
                            ).map_values(|n: TileCoord| (n, Occupant::HexGhost)),
                            forall|j: int| 0 <= j < spawns@.len() ==> in_world(#[trigger] spawns@[j].0),
                        decreases open@.len() - m,
                    {
                        spawns.push((open[m], Occupant::HexGhost));
                        m = m + 1;
                        assert(spawns@ =~= before + seq![(c, Occupant::HexTile(kind))] + open@.take(
                            m as int,
                        ).map_values(|n: TileCoord| (n, Occupant::HexGhost)));
                    }
                    assert(open@.take(m as int) =~= open@);
                    assert(spawns@ =~= before + request_spawns(pre, c, kind));
                },
                None => {},
            }
            k = k + 1;
        }
        assert(requests@.take(k as int) =~= requests@);
        let kept = self.survivors(requests);
        let start = self.next_entity;
        let mut hexes = kept;
        let mut m: usize = 0;
        while m < spawns.len()
            invariant
                m <= spawns@.len(),
                spawns@.len() <= 7 * requests@.len(),
                start + 7 * requests@.len() <= u64::MAX,
                hexes@ == survivors(pre, requests@) + spawned(spawns@.take(m as int), start as int),
            decreases spawns@.len() - m,
        {
            let (coord, occupant) = spawns[m];
            hexes.push(HexEntity { entity: start + m as u64, coord, occupant, selected: false });
            m = m + 1;
            assert(hexes@ =~= survivors(pre, requests@) + spawned(spawns@.take(m as int), start as int));
        }
        assert(spawns@.take(m as int) =~= spawns@);
        self.hexes = hexes;
        self.next_entity = start + spawns.len() as u64;
        proof {
            lemma_after_placements_wf(pre, start, requests@, rolls@);
        }
        placed
    }
}

proof fn lemma_hits_prefix(s: Seq<HexEntity>, reqs: Seq<u64>, k: int)
    requires
        0 <= k <= reqs.len(),
    ensures
        hits(s, reqs.take(k)) <= hits(s, reqs),
    decreases reqs.len(),
{
    if k < reqs.len() {
        assert(reqs.drop_last().take(k) =~= reqs.take(k));
        lemma_hits_prefix(s, reqs.drop_last(), k);
    } else {
        assert(reqs.take(k) =~= reqs);
    }
}

/// The survivors are a subsequence of `s`.
proof fn lemma_survivors_sub(s: Seq<HexEntity>, reqs: Seq<u64>)
    ensures
        survivors(s, reqs).len() <= s.len(),
        forall|k: int|
            0 <= k < survivors(s, reqs).len() ==> exists|i: int|
                0 <= i < s.len() && s[i] == #[trigger] survivors(s, reqs)[k],
        forall|k: int| 0 <= k < survivors(s, reqs).len() ==> survives(reqs, #[trigger] survivors(s, reqs)[k]),
    decreases s.len(),
{
    if s.len() > 0 {
        lemma_survivors_sub(s.drop_last(), reqs);
        let prev = survivors(s.drop_last(), reqs);
        assert forall|k: int| 0 <= k < survivors(s, reqs).len() implies exists|i: int|
            0 <= i < s.len() && s[i] == #[trigger] survivors(s, reqs)[k] by {
            if k < prev.len() {
                let i = choose|i: int| 0 <= i < s.drop_last().len() && s.drop_last()[i] == prev[k];
                assert(s[i] == prev[k]);
            } else {
                assert(s[s.len() - 1] == s.last());
            }
        }
    }
}

/// Whatever a batch spawns lies in the world.
proof fn lemma_batch_spawns_in_world(s: Seq<HexEntity>, next: u64, reqs: Seq<u64>, rolls: Seq<u32>)
    requires
        model_wf(s, next),
    ensures
        forall|j: int|
            0 <= j < batch_spawns(s, reqs, rolls).len() ==> in_world(
                #[trigger] batch_spawns(s, reqs, rolls)[j].0,
            ),
    decreases reqs.len(),
{
    if reqs.len() > 0 {
        lemma_batch_spawns_in_world(s, next, reqs.drop_last(), rolls);
        if let Some(c) = ghost_with(s, reqs.last()) {
            lemma_ghost_with_found(s, reqs.last());
            lemma_keep_open(s, neighbors_spec(c));
            let prev = batch_spawns(s, reqs.drop_last(), rolls);
            let kind = kind_of_roll(rolls[hits(s, reqs.drop_last()) as int]);
            let add = request_spawns(s, c, kind);
            assert forall|j: int| 0 <= j < add.len() implies in_world(#[trigger] add[j].0) by {
                if j > 0 {
                    assert(add[j].0 == open_neighbors(s, c)[j - 1]);
                }
            }
            assert(batch_spawns(s, reqs, rolls) == prev + add);
            assert forall|j: int| 0 <= j < batch_spawns(s, reqs, rolls).len() implies in_world(
                #[trigger] batch_spawns(s, reqs, rolls)[j].0,
            ) by {
                if j < prev.len() {
                    assert(batch_spawns(s, reqs, rolls)[j] == prev[j]);
                } else {
                    assert(batch_spawns(s, reqs, rolls)[j] == add[j - prev.len()]);
                }
            }
        } else {
            assert(batch_spawns(s, reqs, rolls) == batch_spawns(s, reqs.drop_last(), rolls));
        }
    }
}

proof fn lemma_after_placements_wf(s: Seq<HexEntity>, next: u64, reqs: Seq<u64>, rolls: Seq<u32>)
    requires
        model_wf(s, next),
        next + batch_spawns(s, reqs, rolls).len() <= u64::MAX,
    ensures
        model_wf(
            after_placements(s, next, reqs, rolls),
            (next + batch_spawns(s, reqs, rolls).len()) as u64,
        ),
{
    let kept = survivors(s, reqs);
    let sp = batch_spawns(s, reqs, rolls);
    let out = after_placements(s, next, reqs, rolls);
    lemma_survivors_sub(s, reqs);
    lemma_survivors_unique(s, reqs);
    lemma_batch_spawns_in_world(s, next, reqs, rolls);
    assert forall|i: int| 0 <= i < out.len() implies out[i].entity < next + sp.len() && in_world(
        #[trigger] out[i].coord,
    ) by {
        if i < kept.len() {
            let j = choose|j: int| 0 <= j < s.len() && s[j] == kept[i];
            assert(out[i] == s[j]);
        } else {
            assert(out[i].coord == sp[i - kept.len()].0);
        }
    }
    assert forall|i: int, j: int| 0 <= i < j < out.len() implies out[i].entity != out[j].entity by {
        if j < kept.len() {
        } else if i < kept.len() {
            let a = choose|a: int| 0 <= a < s.len() && s[a] == kept[i];
            assert(out[i].entity < next);
        } else {
        }
    }
}

/// The survivors keep their ids distinct.
proof fn lemma_survivors_unique(s: Seq<HexEntity>, reqs: Seq<u64>)
    requires
        unique_entities(s),
    ensures
        unique_entities(survivors(s, reqs)),
    decreases s.len(),
{
    if s.len() > 0 {
        assert(unique_entities(s.drop_last()));
        lemma_survivors_unique(s.drop_last(), reqs);
        lemma_survivors_sub(s.drop_last(), reqs);
        let prev = survivors(s.drop_last(), reqs);
        assert forall|k: int| 0 <= k < prev.len() implies prev[k].entity != s.last().entity by {
            let i = choose|i: int| 0 <= i < s.drop_last().len() && s.drop_last()[i] == prev[k];
            assert(s[i] == prev[k]);
        }
    }
}

proof fn lemma_ghost_with_prefix(s: Seq<HexEntity>, e: u64, k: int)
    requires
        0 < k <= s.len(),
        ghost_with(s.take(k - 1), e) is None,
        s[k - 1].entity == e,
        s[k - 1].occupant == Occupant::HexGhost,
    ensures
        ghost_with(s, e) == Some(s[k - 1].coord),
    decreases s.len(),
{
    if s.len() > k {
        assert(s.drop_last().take(k - 1) =~= s.take(k - 1));
        lemma_ghost_with_prefix(s.drop_last(), e, k);
    } else {
        assert(s.drop_last() =~= s.take(k - 1));
    }
}


impl TileWorld {
    /// Handles the placement requests of one update, drawing one kind from the random number
    /// generator for each request that names a ghost (see `place_tiles_with_rolls`).
    pub fn place_tiles(&mut self, requests: &Vec<u64>, rng: &mut bevy_rand::prelude::WyRand) -> (placed: Vec<TilePlaced>)
        requires
            old(self).wf(),
            old(self)@.1 + 7 * requests@.len() <= u64::MAX,
        ensures
            final(self).wf(),
            exists|rolls: Seq<u32>|
                {
                    &&& rolls.len() == hits(old(self)@.0, requests@)
                    &&& final(self)@.0 == after_placements(old(self)@.0, old(self)@.1, requests@, rolls)
                    &&& final(self)@.1 == old(self)@.1 + batch_spawns(old(self)@.0, requests@, rolls).len()
                    &&& placed@ == batch_placed(old(self)@.0, requests@, rolls)
                },
    {
        let n = self.count_hits(requests);
        let mut rolls: Vec<u32> = Vec::new();
        let mut k: usize = 0;
        while k < n
            invariant
                k <= n,
                rolls@.len() == k,
            decreases n - k,
        {
            rolls.push(next_roll(rng));
            k = k + 1;
        }
        self.place_tiles_with_rolls(requests, &rolls)
    }
}

/// A candidate list without repeats keeps no repeats after filtering.
proof fn lemma_keep_open_distinct(s: Seq<HexEntity>, cands: Seq<TileCoord>)
    requires
        cands.no_duplicates(),
    ensures
        keep_open(s, cands).no_duplicates(),
    decreases cands.len(),
{
    if cands.len() > 0 {
        let prev = keep_open(s, cands.drop_last());
        lemma_keep_open_distinct(s, cands.drop_last());
        lemma_keep_open(s, cands.drop_last());
        assert forall|k: int| 0 <= k < prev.len() implies prev[k] != cands.last() by {
            assert(cands.drop_last().contains(prev[k]));
            let j = choose|j: int| 0 <= j < cands.drop_last().len() && cands.drop_last()[j] == prev[k];
            assert(cands[j] == prev[k]);
        }
    }
}

proof fn lemma_neighbors_distinct(c: TileCoord)
    requires
        in_world(c),
    ensures
        neighbors_spec(c).no_duplicates(),
        !neighbors_spec(c).contains(c),
{
    let n = neighbors_spec(c);
    assert(-3 <= c.q <= 3 && -3 <= c.r <= 3);
    assert forall|i: int, j: int| 0 <= i < n.len() && 0 <= j < n.len() && i != j implies n[i] != n[j] by {}
    assert forall|i: int| 0 <= i < n.len() implies n[i] != c by {}
}

/// Dropping hexagons keeps coordinates distinct and at most one selection.
proof fn lemma_survivors_sound(s: Seq<HexEntity>, reqs: Seq<u64>)
    requires
        sound(s),
    ensures
        sound(survivors(s, reqs)),
    decreases s.len(),
{
    if s.len() > 0 {
        assert(sound(s.drop_last()));
        lemma_survivors_sound(s.drop_last(), reqs);
        lemma_survivors_sub(s.drop_last(), reqs);
        let prev = survivors(s.drop_last(), reqs);
        assert forall|k: int| 0 <= k < prev.len() implies prev[k].coord != s.last().coord && !(
        prev[k].selected && s.last().selected) by {
            let i = choose|i: int| 0 <= i < s.drop_last().len() && s.drop_last()[i] == prev[k];
            assert(s[i] == prev[k]);
        }
    }
}

/// Placing one tile keeps the world's invariant: no two hexagons share a coordinate and at
/// most one hexagon is selected.
pub proof fn lemma_single_placement_keeps_sound(s: Seq<HexEntity>, next: u64, e: u64, rolls: Seq<u32>)
    requires
        model_wf(s, next),
        sound(s),
        rolls.len() >= hits(s, seq![e]),
    ensures
        sound(after_placements(s, next, seq![e], rolls)),
{
    let reqs = seq![e];
    assert(reqs.drop_last() =~= Seq::<u64>::empty());
    assert(reqs.last() == e);
    assert(batch_spawns(s, reqs.drop_last(), rolls) =~= Seq::<(TileCoord, Occupant)>::empty());
    assert(hits(s, reqs.drop_last()) == 0);
    let kept = survivors(s, reqs);
    let sp = batch_spawns(s, reqs, rolls);
    let out = after_placements(s, next, reqs, rolls);
    lemma_survivors_sound(s, reqs);
    lemma_survivors_sub(s, reqs);
    match ghost_with(s, e) {
        None => {
            assert(sp =~= Seq::<(TileCoord, Occupant)>::empty());
            assert(out =~= kept);
        },
        Some(c) => {
            lemma_ghost_with_found(s, e);
            let g = choose|i: int|
                0 <= i < s.len() && s[i].coord == c && s[i].entity == e && s[i].occupant
                    == Occupant::HexGhost;
            let kind = kind_of_roll(rolls[0]);
            let open = open_neighbors(s, c);
            assert(in_world(c));
            lemma_neighbors_distinct(c);
            lemma_keep_open(s, neighbors_spec(c));
            lemma_keep_open_distinct(s, neighbors_spec(c));
            assert(sp =~= request_spawns(s, c, kind));
            assert forall|i: int, j: int| 0 <= i < j < out.len() implies out[i].coord
                != out[j].coord && !(out[i].selected && out[j].selected) by {
                if j < kept.len() {
                } else if i < kept.len() {
                    let a = choose|a: int| 0 <= a < s.len() && s[a] == kept[i];
                    assert(survives(reqs, s[a]));
                    let sj = j - kept.len();
                    if sj == 0 {
                        assert(out[j].coord == c);
                        if s[a].coord == c {
                            assert(a == g);
                            assert(reqs.contains(e)) by {
                                assert(reqs[0] == e);
                            }
                        }
                    } else {
                        assert(out[j].coord == open[sj - 1]);
                        assert(!occupied(s, open[sj - 1]));
                    }
                } else {
                    let si = i - kept.len();
                    let sj = j - kept.len();
                    if si == 0 {
                        assert(out[j].coord == open[sj - 1]);
                        assert(neighbors_spec(c).contains(open[sj - 1]));
                    } else {
                        assert(out[i].coord == open[si - 1]);
                        assert(out[j].coord == open[sj - 1]);
                    }
                }
            }
        },
    }
}

/// The pointer moved onto a hexagon.
#[derive(Debug, Clone, Copy, PartialEq, Eq, Structural)]
pub struct TileSelected {
    pub entity: u64,
    pub coord: TileCoord,
}

/// The pointer left a hexagon.
#[derive(Debug, Clone, Copy, PartialEq, Eq, Structural)]
pub struct TileDeselected {
    pub entity: u64,
    pub coord: TileCoord,
}

/// A placed tile was clicked.
#[derive(Debug, Clone, Copy, PartialEq, Eq, Structural)]
pub struct TileClicked {
    pub entity: u64,
    pub coord: TileCoord,
}

/// A ghost was clicked.
#[derive(Debug, Clone, Copy, PartialEq, Eq, Structural)]
pub struct GhostClicked {
    pub entity: u64,
    pub coord: TileCoord,
}

/// A click on the hexagon at a coordinate.
#[derive(Debug, Clone, Copy, PartialEq, Eq, Structural)]
pub struct ClickTile(pub TileCoord);

/// What one selection update reports.
#[derive(Debug, Clone, Copy, PartialEq, Eq, Structural)]
pub struct SelectionChange {
    pub deselected: Option<TileDeselected>,
    pub selected: Option<TileSelected>,
}

/// Which hexagons a selection query looks at.
#[derive(Debug, Clone, Copy, PartialEq, Eq, Structural)]
pub enum Role {
    Any,
    Ghosts,
    Tiles,
}

pub open spec fn has_role(h: HexEntity, role: Role) -> bool {
    match role {
        Role::Any => true,
        Role::Ghosts => h.occupant == Occupant::HexGhost,
        Role::Tiles => h.occupant != Occupant::HexGhost,
    }
}

/// How many selected hexagons of the role there are.
pub open spec fn selected_count(s: Seq<HexEntity>, role: Role) -> nat
    decreases s.len(),
{
    if s.len() == 0 {
        0
    } else {
        selected_count(s.drop_last(), role) + if s.last().selected && has_role(s.last(), role) {
            1nat
        } else {
            0nat
        }
    }
}

/// The index of the first selected hexagon of the role, or -1.
pub open spec fn first_selected(s: Seq<HexEntity>, role: Role) -> int
    decreases s.len(),
{
    if s.len() == 0 {
        -1
    } else if first_selected(s.drop_last(), role) >= 0 {
        first_selected(s.drop_last(), role)
    } else if s.last().selected && has_role(s.last(), role) {
        s.len() - 1
    } else {
        -1
    }
}

/// The selected hexagon of the role when exactly one is selected.
pub open spec fn the_selected(s: Seq<HexEntity>, role: Role) -> Option<int> {
    if selected_count(s, role) == 1 {
        Some(first_selected(s, role))
    } else {
        None
    }
}

/// The index of the first unselected hexagon at `p`, or -1.
pub open spec fn first_unselected_at(s: Seq<HexEntity>, p: TileCoord) -> int
    decreases s.len(),
{
    if s.len() == 0 {
        -1
    } else if first_unselected_at(s.drop_last(), p) >= 0 {
        first_unselected_at(s.drop_last(), p)
    } else if !s.last().selected && s.last().coord == p {
        s.len() - 1
    } else {
        -1
    }
}

pub open spec fn with_selected(h: HexEntity, selected: bool) -> HexEntity {
    HexEntity { selected, ..h }
}

/// The hexagons after a selection update with the pointer over `pointer`.
pub open spec fn selection_after(s: Seq<HexEntity>, pointer: Option<TileCoord>) -> Seq<HexEntity> {
    let cur = the_selected(s, Role::Any);
    if cur matches Some(i) && pointer == Some(s[i].coord) {
        s
    } else {
        let s1 = match cur {
            Some(i) => s.update(i, with_selected(s[i], false)),
            None => s,
        };
        match pointer {
            None => s1,
            Some(p) => {
                let j = first_unselected_at(s, p);
                if j >= 0 {
                    s1.update(j, with_selected(s1[j], true))
                } else {
                    s1
                }
            },
        }
    }
}

/// The events of a selection update with the pointer over `pointer`.
pub open spec fn selection_events(s: Seq<HexEntity>, pointer: Option<TileCoord>) -> SelectionChange {
    let cur = the_selected(s, Role::Any);
    if cur matches Some(i) && pointer == Some(s[i].coord) {
        SelectionChange { deselected: None, selected: None }
    } else {
        let deselected = match cur {
            Some(i) => Some(TileDeselected { entity: s[i].entity, coord: s[i].coord }),
            None => None,
        };
        let selected = match pointer {
            None => None,
            Some(p) => {
                let j = first_unselected_at(s, p);
                if j >= 0 {
                    Some(TileSelected { entity: s[j].entity, coord: s[j].coord })
                } else {
                    None
                }
            },
        };
        SelectionChange { deselected, selected }
    }
}

proof fn lemma_first_selected(s: Seq<HexEntity>, role: Role)
    ensures
        -1 <= first_selected(s, role) < s.len(),
        first_selected(s, role) >= 0 ==> s[first_selected(s, role)].selected && has_role(
            s[first_selected(s, role)],
            role,
        ),
        (first_selected(s, role) < 0) == (selected_count(s, role) == 0),
        selected_count(s, role) == 0 ==> forall|i: int|
            0 <= i < s.len() ==> !(s[i].selected && has_role(s[i], role)),
        selected_count(s, role) == 1 ==> forall|i: int|
            0 <= i < s.len() && i != first_selected(s, role) ==> !(s[i].selected && has_role(
                s[i],
                role,
            )),
        selected_count(s, role) <= s.len(),
    decreases s.len(),
{
    if s.len() > 0 {
        lemma_first_selected(s.drop_last(), role);
        assert forall|i: int| 0 <= i < s.len() - 1 implies s[i] == s.drop_last()[i] by {}
    }
}

proof fn lemma_single_selection_count(s: Seq<HexEntity>)
    requires
        single_selection(s),
    ensures
        selected_count(s, Role::Any) <= 1,
    decreases s.len(),
{
    if s.len() > 0 {
        assert(single_selection(s.drop_last()));
        lemma_single_selection_count(s.drop_last());
        lemma_first_selected(s.drop_last(), Role::Any);
        if s.last().selected && selected_count(s.drop_last(), Role::Any) == 1 {
            let i = first_selected(s.drop_last(), Role::Any);
            assert(s[i] == s.drop_last()[i]);
        }
    }
}

proof fn lemma_first_unselected_at(s: Seq<HexEntity>, p: TileCoord)
    ensures
        -1 <= first_unselected_at(s, p) < s.len(),
        first_unselected_at(s, p) >= 0 ==> !s[first_unselected_at(s, p)].selected
            && s[first_unselected_at(s, p)].coord == p,
    decreases s.len(),
{
    if s.len() > 0 {
        lemma_first_unselected_at(s.drop_last(), p);
    }
}

/// A selection update keeps coordinates and the rest of each hexagon, and leaves at most one
/// hexagon selected when at most one was.
pub proof fn lemma_selection_keeps_sound(s: Seq<HexEntity>, pointer: Option<TileCoord>)
    requires
        sound(s),
    ensures
        sound(selection_after(s, pointer)),
        selection_after(s, pointer).len() == s.len(),
        forall|i: int|
            0 <= i < s.len() ==> with_selected(#[trigger] selection_after(s, pointer)[i], false)
                == with_selected(s[i], false),
{
    lemma_single_selection_count(s);
    lemma_first_selected(s, Role::Any);
    let out = selection_after(s, pointer);
    let cur = the_selected(s, Role::Any);
    if let Some(p) = pointer {
        lemma_first_unselected_at(s, p);
    }
    assert forall|i: int, j: int| 0 <= i < j < out.len() implies !(out[i].selected
        && out[j].selected) by {
        if let Some(p) = pointer {
            let k = first_unselected_at(s, p);
            if cur is Some && pointer == Some(s[cur->0].coord) {
            } else if k >= 0 {
                if i != k && j != k {
                }
            }
        }
    }
}

impl TileWorld {
    /// The index of the selected hexagon of the role, when exactly one is selected.
    fn find_selected(&self, role: Role) -> (found: Option<usize>)
        ensures
            match found {
                Some(i) => the_selected(self@.0, role) == Some(i as int) && i < self@.0.len(),
                None => the_selected(self@.0, role) is None,
            },
    {
        let mut count: usize = 0;
        let mut first: usize = 0;
        let mut k: usize = 0;
        while k < self.hexes.len()
            invariant
                k <= self.hexes@.len(),
                count == selected_count(self.hexes@.take(k as int), role),
                count <= k,
                count > 0 ==> first as int == first_selected(self.hexes@.take(k as int), role),
                count == 0 ==> first_selected(self.hexes@.take(k as int), role) == -1,
            decreases self.hexes@.len() - k,
        {
            let h = self.hexes[k];
            assert(self.hexes@.take(k + 1).drop_last() =~= self.hexes@.take(k as int));
            proof {
                lemma_first_selected(self.hexes@.take(k as int), role);
            }
            let matches = match role {
                Role::Any => true,
                Role::Ghosts => h.occupant == Occupant::HexGhost,
                Role::Tiles => h.occupant != Occupant::HexGhost,
            };
            if h.selected && matches {
                if count == 0 {
                    first = k;
                }
                count = count + 1;
            }
            k = k + 1;
        }
        assert(self.hexes@.take(k as int) =~= self.hexes@);
        proof {
            lemma_first_selected(self.hexes@, role);
        }
        if count == 1 {
            Some(first)
        } else {
            None
        }
    }

    /// The index of the first unselected hexagon at `p`.
    fn find_unselected_at(&self, p: TileCoord) -> (found: Option<usize>)
        ensures
            match found {
                Some(j) => first_unselected_at(self@.0, p) == j as int && j < self@.0.len(),
                None => first_unselected_at(self@.0, p) == -1,
            },
    {
        let mut k: usize = 0;
        while k < self.hexes.len()
            invariant
                k <= self.hexes@.len(),
                first_unselected_at(self.hexes@.take(k as int), p) == -1,
            decreases self.hexes@.len() - k,
        {
            let h = self.hexes[k];
            assert(self.hexes@.take(k + 1).drop_last() =~= self.hexes@.take(k as int));
            if !h.selected && h.coord == p {
                proof {
                    lemma_first_unselected_prefix(self.hexes@, p, k + 1);
                }
                return Some(k);
            }
            k = k + 1;
        }
        assert(self.hexes@.take(k as int) =~= self.hexes@);
        None
    }

    /// Moves the selection to the hexagon under the pointer: the selected hexagon (when
    /// exactly one is selected) loses its selection unless the pointer is still over it, and the
    /// first unselected hexagon under the pointer gains it.
    pub fn update_selected(&mut self, pointer: Option<TileCoord>) -> (change: SelectionChange)
        requires
            old(self).wf(),
        ensures
            final(self).wf(),
            final(self)@.0 == selection_after(old(self)@.0, pointer),
            final(self)@.1 == old(self)@.1,
            change == selection_events(old(self)@.0, pointer),
    {
        let ghost pre = self@.0;
        let cur = self.find_selected(Role::Any);
        if let Some(i) = cur {
            if pointer == Some(self.hexes[i].coord) {
                return SelectionChange { deselected: None, selected: None };
            }
        }
        let target = match pointer {
            Some(p) => self.find_unselected_at(p),
            None => None,
        };
        let mut deselected = None;
        if let Some(i) = cur {
            let h = self.hexes[i];
            self.hexes.set(i, HexEntity { selected: false, ..h });
            deselected = Some(TileDeselected { entity: h.entity, coord: h.coord });
        }
        let mut selected = None;
        if let Some(j) = target {
            let h = self.hexes[j];
            self.hexes.set(j, HexEntity { selected: true, ..h });
            selected = Some(TileSelected { entity: h.entity, coord: h.coord });
        }
        proof {
            lemma_first_selected(pre, Role::Any);
            if let Some(p) = pointer {
                lemma_first_unselected_at(pre, p);
            }
            assert(self.hexes@ =~= selection_after(pre, pointer));
        }
        SelectionChange { deselected, selected }
    }

    /// The click that an activation of the pointer produces: one on the selected hexagon when
    /// exactly one is selected.
    pub fn click_selected(&self, activate: bool) -> (click: Option<ClickTile>)
        ensures
            click == (if activate && the_selected(self@.0, Role::Any) is Some {
                Some(ClickTile(self@.0[the_selected(self@.0, Role::Any)->0].coord))
            } else {
                None
            }),
    {
        if activate {
            if let Some(i) = self.find_selected(Role::Any) {
                proof {
                    lemma_first_selected(self@.0, Role::Any);
                }
                return Some(ClickTile(self.hexes[i].coord));
            }
        }
        None
    }

    /// The selected hexagon of the role that a press of the button clicks: its entity when
    /// exactly one hexagon of the role is selected.
    pub fn click_selected_of(&self, pressed: bool, role: Role) -> (clicked: Option<u64>)
        ensures
            clicked == (if pressed && the_selected(self@.0, role) is Some {
                Some(self@.0[the_selected(self@.0, role)->0].entity)
            } else {
                None
            }),
    {
        if pressed {
            if let Some(i) = self.find_selected(role) {
                proof {
                    lemma_first_selected(self@.0, role);
                }
                return Some(self.hexes[i].entity);
            }
        }
        None
    }
}

proof fn lemma_first_unselected_prefix(s: Seq<HexEntity>, p: TileCoord, k: int)
    requires
        0 < k <= s.len(),
        first_unselected_at(s.take(k - 1), p) == -1,
        !s[k - 1].selected,
        s[k - 1].coord == p,
    ensures
        first_unselected_at(s, p) == k - 1,
    decreases s.len(),
{
    if s.len() > k {
        assert(s.drop_last().take(k - 1) =~= s.take(k - 1));
        lemma_first_unselected_prefix(s.drop_last(), p, k);
    } else {
        assert(s.drop_last() =~= s.take(k - 1));
    }
}

/// The index of the first hexagon of the role at `c`, or -1.
pub open spec fn first_at(s: Seq<HexEntity>, c: TileCoord, role: Role) -> int
    decreases s.len(),
{
    if s.len() == 0 {
        -1
    } else if first_at(s.drop_last(), c, role) >= 0 {
        first_at(s.drop_last(), c, role)
    } else if s.last().coord == c && has_role(s.last(), role) {
        s.len() - 1
    } else {
        -1
    }
}

/// How a batch of clicks resolves: each click on a ghost reports that ghost, otherwise a click
/// on a tile reports that tile, otherwise nothing.
pub open spec fn resolve_clicks(s: Seq<HexEntity>, clicks: Seq<ClickTile>) -> (Seq<GhostClicked>, Seq<TileClicked>)
    decreases clicks.len(),
{
    if clicks.len() == 0 {
        (Seq::empty(), Seq::empty())
    } else {
        let (ghosts, tiles) = resolve_clicks(s, clicks.drop_last());
        let c = clicks.last().0;
        let g = first_at(s, c, Role::Ghosts);
        let t = first_at(s, c, Role::Tiles);
        if g >= 0 {
            (ghosts.push(GhostClicked { entity: s[g].entity, coord: c }), tiles)
        } else if t >= 0 {
            (ghosts, tiles.push(TileClicked { entity: s[t].entity, coord: c }))
        } else {
            (ghosts, tiles)
        }
    }
}

/// The index of the first hexagon with this entity id, or -1.
pub open spec fn first_entity(s: Seq<HexEntity>, e: u64) -> int
    decreases s.len(),
{
    if s.len() == 0 {
        -1
    } else if first_entity(s.drop_last(), e) >= 0 {
        first_entity(s.drop_last(), e)
    } else if s.last().entity == e {
        s.len() - 1
    } else {
        -1
    }
}

/// The kind of the tile with this entity id, if that entity is a tile.
pub open spec fn kind_with(s: Seq<HexEntity>, e: u64) -> Option<TileKind> {
    let i = first_entity(s, e);
    if i >= 0 {
        match s[i].occupant {
            Occupant::HexTile(kind) => Some(kind),
            Occupant::HexGhost => None,
        }
    } else {
        None
    }
}

proof fn lemma_first_at(s: Seq<HexEntity>, c: TileCoord, role: Role)
    ensures
        -1 <= first_at(s, c, role) < s.len(),
        first_at(s, c, role) >= 0 ==> s[first_at(s, c, role)].coord == c && has_role(
            s[first_at(s, c, role)],
            role,
        ),
        first_at(s, c, role) < 0 ==> forall|i: int|
            0 <= i < s.len() ==> !(s[i].coord == c && has_role(s[i], role)),
    decreases s.len(),
{
    if s.len() > 0 {
        lemma_first_at(s.drop_last(), c, role);
        assert forall|i: int| 0 <= i < s.len() - 1 implies s[i] == s.drop_last()[i] by {}
    }
}

impl TileWorld {
    /// The index of the first hexagon of the role at `c`.
    fn find_at(&self, c: TileCoord, role: Role) -> (found: Option<usize>)
        ensures
            match found {
                Some(j) => first_at(self@.0, c, role) == j as int && j < self@.0.len(),
                None => first_at(self@.0, c, role) == -1,
            },
    {
        let mut k: usize = 0;
        while k < self.hexes.len()
            invariant
                k <= self.hexes@.len(),
                first_at(self.hexes@.take(k as int), c, role) == -1,
            decreases self.hexes@.len() - k,
        {
            let h = self.hexes[k];
            assert(self.hexes@.take(k + 1).drop_last() =~= self.hexes@.take(k as int));
            let matches = match role {
                Role::Any => true,
                Role::Ghosts => h.occupant == Occupant::HexGhost,
                Role::Tiles => h.occupant != Occupant::HexGhost,
            };
            if h.coord == c && matches {
                proof {
                    lemma_first_at_prefix(self.hexes@, c, role, k + 1);
                }
                return Some(k);
            }
            k = k + 1;
        }
        assert(self.hexes@.take(k as int) =~= self.hexes@);
        None
    }

    /// Resolves a batch of clicks into ghost clicks and tile clicks, in click order.
    pub fn resolve_click(&self, clicks: &Vec<ClickTile>) -> (resolved: (Vec<GhostClicked>, Vec<TileClicked>))
        ensures
            (resolved.0@, resolved.1@) == resolve_clicks(self@.0, clicks@),
    {
        let mut ghosts: Vec<GhostClicked> = Vec::new();
        let mut tiles: Vec<TileClicked> = Vec::new();
        let mut k: usize = 0;
        while k < clicks.len()
            invariant
                k <= clicks@.len(),
                (ghosts@, tiles@) == resolve_clicks(self@.0, clicks@.take(k as int)),
            decreases clicks@.len() - k,
        {
            let c = clicks[k].0;
            assert(clicks@.take(k + 1).drop_last() =~= clicks@.take(k as int));
            if let Some(g) = self.find_at(c, Role::Ghosts) {
                ghosts.push(GhostClicked { entity: self.hexes[g].entity, coord: c });
            } else if let Some(t) = self.find_at(c, Role::Tiles) {
                tiles.push(TileClicked { entity: self.hexes[t].entity, coord: c });
            }
            k = k + 1;
        }
        assert(clicks@.take(k as int) =~= clicks@);
        (ghosts, tiles)
    }

    /// The kind of the tile with this entity id.
    pub fn kind_of(&self, entity: u64) -> (kind: Option<TileKind>)
        ensures
            kind == kind_with(self@.0, entity),
    {
        let mut k: usize = 0;
        while k < self.hexes.len()
            invariant
                k <= self.hexes@.len(),
                forall|i: int| 0 <= i < k ==> self.hexes@[i].entity != entity,
            decreases self.hexes@.len() - k,
        {
            let h = self.hexes[k];
            assert(self.hexes@.take(k + 1).drop_last() =~= self.hexes@.take(k as int));
            if h.entity == entity {
                proof {
                    lemma_kind_with_prefix(self.hexes@, entity, k + 1);
                }
                return match h.occupant {
                    Occupant::HexTile(kind) => Some(kind),
                    Occupant::HexGhost => None,
                };
            }
            k = k + 1;
        }
        proof {
            lemma_first_entity_none(self.hexes@, entity);
        }
        None
    }
}

proof fn lemma_first_at_prefix(s: Seq<HexEntity>, c: TileCoord, role: Role, k: int)
    requires
        0 < k <= s.len(),
        first_at(s.take(k - 1), c, role) == -1,
        s[k - 1].coord == c,
        has_role(s[k - 1], role),
    ensures
        first_at(s, c, role) == k - 1,
    decreases s.len(),
{
    if s.len() > k {
        assert(s.drop_last().take(k - 1) =~= s.take(k - 1));
        lemma_first_at_prefix(s.drop_last(), c, role, k);
    } else {
        assert(s.drop_last() =~= s.take(k - 1));
    }
}

proof fn lemma_kind_with_prefix(s: Seq<HexEntity>, e: u64, k: int)
    requires
        0 < k <= s.len(),
        forall|i: int| 0 <= i < k - 1 ==> s[i].entity != e,
        s[k - 1].entity == e,
    ensures
        first_entity(s, e) == k - 1,
    decreases s.len(),
{
    if s.len() > k {
        lemma_kind_with_prefix(s.drop_last(), e, k);
    } else {
        assert(s.drop_last() =~= s.take(k - 1));
        lemma_first_entity_none(s.drop_last(), e);
    }
}

proof fn lemma_first_entity_none(s: Seq<HexEntity>, e: u64)
    requires
        forall|i: int| 0 <= i < s.len() ==> s[i].entity != e,
    ensures
        first_entity(s, e) == -1,
    decreases s.len(),
{
    if s.len() > 0 {
        lemma_first_entity_none(s.drop_last(), e);
    }
}


/// The ghost clicks that a budget of skill points pays for: the first `budget` clicks that name
/// a ghost, in order.
pub open spec fn accepted_clicks(s: Seq<HexEntity>, clicks: Seq<u64>, budget: nat) -> Seq<u64>
    decreases clicks.len(),
{
    if clicks.len() == 0 {
        Seq::empty()
    } else {
        let prev = accepted_clicks(s, clicks.drop_last(), budget);
        if ghost_with(s, clicks.last()) is Some && prev.len() < budget {
            prev.push(clicks.last())
        } else {
            prev
        }
    }
}

proof fn lemma_accepted_len(s: Seq<HexEntity>, clicks: Seq<u64>, budget: nat)
    ensures
        accepted_clicks(s, clicks, budget).len() <= budget,
        accepted_clicks(s, clicks, budget).len() <= clicks.len(),
    decreases clicks.len(),
{
    if clicks.len() > 0 {
        lemma_accepted_len(s, clicks.drop_last(), budget);
    }
}

impl TileWorld {
    /// Spends skill points on clicked ghosts: each click on a ghost, while a point is left,
    /// costs one point and turns the ghost into a tile of a random kind with ghosts opened on
    /// its free in-world neighbours. Clicks that name no ghost cost nothing.
    pub fn clicked_ghost_spawn(
        &mut self,
        clicks: &Vec<u64>,
        skill_points: &mut u32,
        rng: &mut bevy_rand::prelude::WyRand,
    ) -> (placed: Vec<TilePlaced>)
        requires
            old(self).wf(),
            old(self)@.1 + 7 * clicks@.len() <= u64::MAX,
        ensures
            final(self).wf(),
            ({
                let accepted = accepted_clicks(old(self)@.0, clicks@, *old(skill_points) as nat);
                &&& *final(skill_points) == *old(skill_points) - accepted.len()
                &&& exists|rolls: Seq<u32>|
                    {
                        &&& rolls.len() == hits(old(self)@.0, accepted)
                        &&& final(self)@.0 == after_placements(old(self)@.0, old(self)@.1, accepted, rolls)
                        &&& final(self)@.1 == old(self)@.1 + batch_spawns(old(self)@.0, accepted, rolls).len()
                        &&& placed@ == batch_placed(old(self)@.0, accepted, rolls)
                    }
            }),
    {
        let ghost pre = self@.0;
        let budget = *skill_points;
        let mut accepted: Vec<u64> = Vec::new();
        let mut k: usize = 0;
        while k < clicks.len()
            invariant
                self@.0 == pre,
                k <= clicks@.len(),
                accepted@ == accepted_clicks(pre, clicks@.take(k as int), budget as nat),
            decreases clicks@.len() - k,
        {
            assert(clicks@.take(k + 1).drop_last() =~= clicks@.take(k as int));
            proof {
                lemma_accepted_len(pre, clicks@.take(k as int), budget as nat);
            }
            if self.find_ghost(clicks[k]).is_some() && (accepted.len() as u64) < budget as u64 {
                accepted.push(clicks[k]);
            }
            k = k + 1;
        }
        assert(clicks@.take(k as int) =~= clicks@);
        proof {
            lemma_accepted_len(pre, clicks@, budget as nat);
        }
        *skill_points = budget - accepted.len() as u32;
        self.place_tiles(&accepted, rng)
    }
}

/// Starting the world from one request leaves a sound world: a single unselected ghost at the
/// origin.
pub proof fn lemma_initialized_world_sound(next: u64)
    ensures
        sound(Seq::new(1nat, |i: int| fresh(next + i, origin(), Occupant::HexGhost))),
{
}

proof fn lemma_no_requests_keep_all(s: Seq<HexEntity>)
    ensures
        survivors(s, Seq::empty()) == s,
    decreases s.len(),
{
    if s.len() > 0 {
        lemma_no_requests_keep_all(s.drop_last());
        assert(survives(Seq::empty(), s.last()));
        assert(s.drop_last().push(s.last()) =~= s);
    }
}

/// One click on a hexagon keeps the world's invariant: whether the click buys a tile (a ghost
/// under it and a skill point left) or is ignored, no two hexagons share a coordinate and at
/// most one is selected afterwards.
pub proof fn lemma_ghost_click_keeps_sound(s: Seq<HexEntity>, next: u64, e: u64, budget: nat, rolls: Seq<u32>)
    requires
        model_wf(s, next),
        sound(s),
        rolls.len() >= hits(s, accepted_clicks(s, seq![e], budget)),
    ensures
        sound(after_placements(s, next, accepted_clicks(s, seq![e], budget), rolls)),
{
    let clicks = seq![e];
    let accepted = accepted_clicks(s, clicks, budget);
    assert(clicks.drop_last() =~= Seq::<u64>::empty());
    assert(accepted_clicks(s, clicks.drop_last(), budget) =~= Seq::<u64>::empty());
    if ghost_with(s, e) is Some && 0 < budget {
        assert(accepted =~= seq![e]);
        lemma_single_placement_keeps_sound(s, next, e, rolls);
    } else {
        assert(accepted =~= Seq::<u64>::empty());
        lemma_no_requests_keep_all(s);
        assert(batch_spawns(s, accepted, rolls) =~= Seq::<(TileCoord, Occupant)>::empty());
        assert(after_placements(s, next, accepted, rolls) =~= s);
    }
}


proof fn lemma_survivors_keep_tiles(s: Seq<HexEntity>, reqs: Seq<u64>)
    ensures
        forall|i: int|
            0 <= i < s.len() && #[trigger] s[i].occupant != Occupant::HexGhost ==> survivors(s, reqs).contains(s[i]),
    decreases s.len(),
{
    if s.len() > 0 {
        let prev = s.drop_last();
        lemma_survivors_keep_tiles(prev, reqs);
        assert forall|i: int| 0 <= i < s.len() && #[trigger] s[i].occupant != Occupant::HexGhost implies survivors(s, reqs).contains(s[i]) by {
            if i < s.len() - 1 {
                assert(prev[i] == s[i]);
                let k = choose|k: int| 0 <= k < survivors(prev, reqs).len() && survivors(prev, reqs)[k] == s[i];
                if survives(reqs, s.last()) {
                    assert(survivors(s, reqs)[k] == s[i]);
                } else {
                    assert(survivors(s, reqs) == survivors(prev, reqs));
                }
            } else {
                assert(survives(reqs, s.last()));
                assert(survivors(s, reqs)[survivors(s, reqs).len() - 1] == s[i]);
            }
        }
    }
}

/// Placements never remove a tile: every placed tile of the world is still there, unchanged,
/// after any batch of placement requests.
pub proof fn lemma_placements_keep_tiles(s: Seq<HexEntity>, next: u64, reqs: Seq<u64>, rolls: Seq<u32>)
    ensures
        forall|i: int|
            0 <= i < s.len() && #[trigger] s[i].occupant != Occupant::HexGhost ==> after_placements(s, next, reqs, rolls).contains(s[i]),
{
    lemma_survivors_keep_tiles(s, reqs);
    let kept = survivors(s, reqs);
    let out = after_placements(s, next, reqs, rolls);
    assert forall|i: int| 0 <= i < s.len() && #[trigger] s[i].occupant != Occupant::HexGhost implies out.contains(s[i]) by {
        let k = choose|k: int| 0 <= k < kept.len() && kept[k] == s[i];
        assert(out[k] == kept[k]);
    }
}


/// A click on a ghost, with a skill point left, is accepted (and so charged one point) and buys
/// exactly one tile, on the ghost's hexagon, of the kind that the draw selects; a click with no
/// ghost under it or no point left is not accepted.
pub proof fn lemma_ghost_click_buys_one_tile(s: Seq<HexEntity>, e: u64, budget: nat, rolls: Seq<u32>)
    requires
        rolls.len() >= 1,
    ensures
        ghost_with(s, e) is Some && budget > 0 ==> {
            &&& accepted_clicks(s, seq![e], budget) == seq![e]
            &&& batch_placed(s, seq![e], rolls) == seq![
                TilePlaced { coord: ghost_with(s, e)->0, kind: kind_of_roll(rolls[0]) },
            ]
        },
        !(ghost_with(s, e) is Some && budget > 0) ==> accepted_clicks(s, seq![e], budget) == Seq::<u64>::empty(),
{
    let clicks = seq![e];
    assert(clicks.drop_last() =~= Seq::<u64>::empty());
    assert(accepted_clicks(s, clicks.drop_last(), budget) =~= Seq::<u64>::empty());
    assert(batch_placed(s, clicks.drop_last(), rolls) =~= Seq::<TilePlaced>::empty());
    assert(hits(s, clicks.drop_last()) == 0);
    if ghost_with(s, e) is Some && budget > 0 {
        assert(accepted_clicks(s, clicks, budget) =~= seq![e]);
        assert(batch_placed(s, clicks, rolls) =~= seq![
            TilePlaced { coord: ghost_with(s, e)->0, kind: kind_of_roll(rolls[0]) },
        ]);
    } else {
        assert(accepted_clicks(s, clicks, budget) =~= Seq::<u64>::empty());
    }
}


proof fn lemma_keep_open_complete(s: Seq<HexEntity>, cands: Seq<TileCoord>)
    ensures
        forall|k: int|
            0 <= k < cands.len() && !occupied(s, #[trigger] cands[k]) && in_world(cands[k])
                ==> keep_open(s, cands).contains(cands[k]),
    decreases cands.len(),
{
    if cands.len() > 0 {
        let prev = cands.drop_last();
        lemma_keep_open_complete(s, prev);
        assert forall|k: int|
            0 <= k < cands.len() && !occupied(s, #[trigger] cands[k]) && in_world(cands[k])
                implies keep_open(s, cands).contains(cands[k]) by {
            if k < cands.len() - 1 {
                assert(prev[k] == cands[k]);
                let before = keep_open(s, prev);
                let j = choose|j: int| 0 <= j < before.len() && before[j] == cands[k];
                if !occupied(s, cands.last()) && in_world(cands.last()) {
                    assert(keep_open(s, cands)[j] == cands[k]);
                }
            } else {
                let out = keep_open(s, cands);
                assert(out[out.len() - 1] == cands[k]);
            }
        }
    }
}

/// The ghosts that a placement opens are exactly the free in-world neighbours of the placed
/// hexagon: every neighbour that no hexagon occupies and that lies in the world is opened, and
/// nothing else is.
pub proof fn lemma_open_neighbors_are_the_free_ones(s: Seq<HexEntity>, c: TileCoord, n: TileCoord)
    ensures
        open_neighbors(s, c).contains(n) <==> (neighbors_spec(c).contains(n) && !occupied(s, n)
            && in_world(n)),
{
    lemma_keep_open(s, neighbors_spec(c));
    lemma_keep_open_complete(s, neighbors_spec(c));
    let open = open_neighbors(s, c);
    if open.contains(n) {
        let k = choose|k: int| 0 <= k < open.len() && open[k] == n;
        assert(open[k] == n);
    }
    if neighbors_spec(c).contains(n) && !occupied(s, n) && in_world(n) {
        let k = choose|k: int| 0 <= k < neighbors_spec(c).len() && neighbors_spec(c)[k] == n;
        assert(neighbors_spec(c)[k] == n);
    }
}

/// Placing a tile on a ghost leaves a ghost on every neighbour of its hexagon that was free and
/// lies in the world.
pub proof fn lemma_placement_opens_free_neighbors(
    s: Seq<HexEntity>,
    next: u64,
    e: u64,
    rolls: Seq<u32>,
    n: TileCoord,
)
    requires
        ghost_with(s, e) is Some,
        rolls.len() >= 1,
        neighbors_spec(ghost_with(s, e)->0).contains(n),
        !occupied(s, n),
        in_world(n),
    ensures
        exists|i: int|
            0 <= i < after_placements(s, next, seq![e], rolls).len()
                && #[trigger] after_placements(s, next, seq![e], rolls)[i].coord == n
                && after_placements(s, next, seq![e], rolls)[i].occupant == Occupant::HexGhost,
{
    let c = ghost_with(s, e)->0;
    let reqs = seq![e];
    assert(reqs.drop_last() =~= Seq::<u64>::empty());
    assert(batch_spawns(s, reqs.drop_last(), rolls) =~= Seq::<(TileCoord, Occupant)>::empty());
    assert(hits(s, reqs.drop_last()) == 0);
    let kind = kind_of_roll(rolls[0]);
    let sp = batch_spawns(s, reqs, rolls);
    assert(sp =~= request_spawns(s, c, kind));
    lemma_open_neighbors_are_the_free_ones(s, c, n);
    let open = open_neighbors(s, c);
    let k = choose|k: int| 0 <= k < open.len() && open[k] == n;
    assert(sp[1 + k] == (n, Occupant::HexGhost));
    let kept = survivors(s, reqs);
    let out = after_placements(s, next, reqs, rolls);
    let i = kept.len() + 1 + k;
    assert(out[i] == spawned(sp, next as int)[1 + k]);
    assert(out[i].coord == n && out[i].occupant == Occupant::HexGhost);
}

/// After a selection update in a world with at most one selection, every selected hexagon lies
/// under the pointer (none is selected when there is no pointer), and the hexagon that was
/// selected is reported deselected whenever the pointer is no longer over it.
pub proof fn lemma_selection_follows_pointer(s: Seq<HexEntity>, pointer: Option<TileCoord>)
    requires
        single_selection(s),
    ensures
        forall|i: int|
            0 <= i < selection_after(s, pointer).len() && #[trigger] selection_after(s, pointer)[i].selected
                ==> pointer == Some(selection_after(s, pointer)[i].coord),
        forall|i: int|
            0 <= i < s.len() && s[i].selected && pointer != Some(s[i].coord) ==> {
                &&& selection_events(s, pointer).deselected == Some(
                    TileDeselected { entity: s[i].entity, coord: s[i].coord },
                )
                &&& !(#[trigger] selection_after(s, pointer)[i]).selected
            },
        forall|k: int|
            0 <= k < s.len() && pointer == Some(#[trigger] s[k].coord) ==> exists|i: int|
                0 <= i < selection_after(s, pointer).len() && (#[trigger] selection_after(
                    s,
                    pointer,
                )[i]).selected && selection_after(s, pointer)[i].coord == s[k].coord,
{
    lemma_single_selection_count(s);
    if let Some(p) = pointer {
        lemma_first_unselected_none(s, p);
    }
    lemma_first_selected(s, Role::Any);
    if let Some(p) = pointer {
        lemma_first_unselected_at(s, p);
    }
    let out = selection_after(s, pointer);
    let cur = the_selected(s, Role::Any);
    assert forall|i: int| 0 <= i < s.len() && s[i].selected implies cur == Some(i) by {
        assert(has_role(s[i], Role::Any));
        if selected_count(s, Role::Any) == 0 {
            assert(!(s[i].selected && has_role(s[i], Role::Any)));
        }
    }
    assert forall|k: int| 0 <= k < s.len() && pointer == Some(#[trigger] s[k].coord) implies exists|i: int|
        0 <= i < out.len() && (#[trigger] out[i]).selected && out[i].coord == s[k].coord by {
        if cur is Some && pointer == Some(s[cur->0].coord) {
            let c = cur->0;
            assert(out[c].selected && out[c].coord == s[k].coord);
        } else if s[k].selected {
            assert(cur == Some(k));
        } else {
            let j = first_unselected_at(s, s[k].coord);
            assert(j >= 0);
            assert(out[j].selected && out[j].coord == s[k].coord);
        }
    }
}

proof fn lemma_first_unselected_none(s: Seq<HexEntity>, p: TileCoord)
    ensures
        first_unselected_at(s, p) < 0 ==> forall|k: int| 0 <= k < s.len() ==> !(!s[k].selected && s[k].coord == p),
    decreases s.len(),
{
    if s.len() > 0 {
        lemma_first_unselected_none(s.drop_last(), p);
        if first_unselected_at(s, p) < 0 {
            assert forall|k: int| 0 <= k < s.len() implies !(!s[k].selected && s[k].coord == p) by {
                if k < s.len() - 1 {
                    assert(s.drop_last()[k] == s[k]);
                }
            }
        }
    }
}

} // verus!
