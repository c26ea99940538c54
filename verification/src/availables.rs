//! The legal moves of each player, each with the positions it captures.

use crate::player::Player;
use vstd::prelude::*;

verus! {

/// A position where a player may place a marker, with the positions that
/// the placement captures.
#[derive(Debug)]
pub struct Placement {
    /// Where the marker is placed.
    pub position: (usize, usize),
    /// The positions that change hands, each once.
    pub captured: Vec<(usize, usize)>,
}

/// Whether entry `i` of the list is for `position`.
pub open spec fn entry_for(list: Seq<Placement>, i: int, position: (usize, usize)) -> bool {
    0 <= i < list.len() && list[i].position == position
}

/// Whether entry `i` of the list is for `position` and captures `q`.
pub open spec fn entry_captures(
    list: Seq<Placement>,
    i: int,
    position: (usize, usize),
    q: (usize, usize),
) -> bool {
    entry_for(list, i, position) && list[i].captured@.contains(q)
}

/// The moves that a list of placements stands for: from each position
/// listed to what is captured from there.
pub open spec fn list_moves(list: Seq<Placement>) -> Map<(usize, usize), Set<(usize, usize)>> {
    Map::new(
        |c: (usize, usize)| exists|i: int| entry_for(list, i, c),
        |c: (usize, usize)|
            Set::new(|q: (usize, usize)| exists|i: int| entry_captures(list, i, c, q)),
    )
}

/// What holds of every list of placements: no position is listed twice,
/// every placement captures something, and nothing is captured twice by
/// one placement.
pub open spec fn list_wf(list: Seq<Placement>) -> bool {
    &&& forall|i: int, j: int|
        0 <= i < j < list.len() ==> (#[trigger] list[i]).position != (#[trigger] list[j]).position
    &&& forall|i: int|
        0 <= i < list.len() ==> (#[trigger] list[i]).captured@.len() > 0
            && list[i].captured@.no_duplicates()
}

/// What a list stands for once entry `e`, the entry for `position`, has
/// taken the positions `added`: the entry was either in the list before or
/// has been put behind it.
proof fn lemma_list_extended(
    before: Seq<Placement>,
    after: Seq<Placement>,
    e: int,
    position: (usize, usize),
    added: Set<(usize, usize)>,
)
    requires
        list_wf(before),
        0 <= e < after.len(),
        before.len() <= after.len(),
        after[e].position == position,
        after[e].captured@.len() > 0,
        after[e].captured@.no_duplicates(),
        forall|i: int| 0 <= i < before.len() && i != e ==> #[trigger] after[i] == before[i],
        e < before.len() ==> {
            &&& after.len() == before.len()
            &&& before[e].position == position
            &&& after[e].captured@.to_set() =~= before[e].captured@.to_set().union(added)
        },
        e >= before.len() ==> {
            &&& after.len() == before.len() + 1
            &&& forall|i: int| !entry_for(before, i, position)
            &&& after[e].captured@.to_set() =~= added
        },
    ensures
        list_wf(after),
        list_moves(after) == list_moves(before).insert(
            position,
            if list_moves(before).dom().contains(position) {
                list_moves(before)[position].union(added)
            } else {
                added
            },
        ),
{
    let old_moves = list_moves(before);
    let new_moves = list_moves(after);
    let value = if old_moves.dom().contains(position) {
        old_moves[position].union(added)
    } else {
        added
    };
    let expected = old_moves.insert(position, value);
    assert forall|i: int, j: int| 0 <= i < j < after.len() implies (#[trigger] after[i]).position
        != (#[trigger] after[j]).position by {
        if i != e && j != e {
            assert(after[i] == before[i] && after[j] == before[j]);
        } else if e < before.len() {
            assert(i == e ==> after[j] == before[j]);
            assert(j == e ==> after[i] == before[i]);
        } else {
            assert(after[i] == before[i]);
            assert(!entry_for(before, i, position));
        }
    }
    assert forall|i: int| 0 <= i < after.len() implies (#[trigger] after[i]).captured@.len() > 0
        && after[i].captured@.no_duplicates() by {
        if i != e {
            assert(after[i] == before[i]);
        }
    }
    assert forall|c: (usize, usize)| new_moves.dom().contains(c) == expected.dom().contains(c) by {
        if c == position {
            assert(entry_for(after, e, c));
        } else {
            if new_moves.dom().contains(c) {
                let i = choose|i: int| entry_for(after, i, c);
                assert(after[i] == before[i]);
                assert(entry_for(before, i, c));
            }
            if old_moves.dom().contains(c) {
                let i = choose|i: int| entry_for(before, i, c);
                assert(after[i] == before[i]);
                assert(entry_for(after, i, c));
            }
        }
    }
    assert(new_moves.dom() =~= expected.dom());
    assert forall|c: (usize, usize)| new_moves.dom().contains(c) implies #[trigger] new_moves[c]
        == expected[c] by {
        assert forall|q: (usize, usize)| new_moves[c].contains(q) == expected[c].contains(q) by {
            if c == position {
                if new_moves[c].contains(q) {
                    let i = choose|i: int| entry_captures(after, i, c, q);
                    assert(i == e);
                    if e < before.len() {
                        assert(after[e].captured@.to_set().contains(q));
                        if !added.contains(q) {
                            assert(before[e].captured@.to_set().contains(q));
                            assert(entry_captures(before, e, c, q));
                        }
                        assert(entry_for(before, e, c));
                    }
                }
                if expected[c].contains(q) {
                    if e < before.len() {
                        assert(entry_for(before, e, c));
                        if !added.contains(q) {
                            let i = choose|i: int| entry_captures(before, i, c, q);
                            assert(i == e);
                        }
                    } else {
                        assert(!old_moves.dom().contains(position));
                    }
                    assert(after[e].captured@.to_set().contains(q));
                    assert(entry_captures(after, e, c, q));
                }
            } else {
                if new_moves[c].contains(q) {
                    let i = choose|i: int| entry_captures(after, i, c, q);
                    assert(after[i] == before[i]);
                    assert(entry_captures(before, i, c, q));
                }
                if old_moves[c].contains(q) {
                    let i = choose|i: int| entry_captures(before, i, c, q);
                    assert(after[i] == before[i]);
                    assert(entry_captures(after, i, c, q));
                }
            }
        }
        assert(new_moves[c] =~= expected[c]);
    }
    assert(new_moves =~= expected);
}

/// The index of the entry for `position`, if the list has one.
fn position_index(list: &Vec<Placement>, position: (usize, usize)) -> (found: Option<usize>)
    ensures
        found matches Some(i) ==> entry_for(list@, i as int, position),
        found is None ==> forall|i: int| !entry_for(list@, i, position),
{
    let mut i: usize = 0;
    while i < list.len()
        invariant
            i <= list@.len(),
            forall|k: int| 0 <= k < i ==> !entry_for(list@, k, position),
        decreases list@.len() - i,
    {
        if list[i].position.0 == position.0 && list[i].position.1 == position.1 {
            return Some(i);
        }
        i = i + 1;
    }
    None
}

/// Whether `q` is among the positions.
fn holds_position(positions: &Vec<(usize, usize)>, q: (usize, usize)) -> (found: bool)
    ensures
        found == positions@.contains(q),
{
    let mut i: usize = 0;
    while i < positions.len()
        invariant
            i <= positions@.len(),
            forall|k: int| 0 <= k < i ==> positions@[k] != q,
        decreases positions@.len() - i,
    {
        if positions[i].0 == q.0 && positions[i].1 == q.1 {
            return true;
        }
        i = i + 1;
    }
    false
}

/// The legal moves of the three players. For each player it maps the
/// positions where the player may place a marker to the positions that the
/// placement captures; a position that it does not hold is no legal move.
#[derive(Debug)]
pub struct Availables {
    lists: Vec<Vec<Placement>>,
}

impl Availables {
    /// The placements listed for `player`.
    pub closed spec fn placements(&self, player: Player) -> Seq<Placement> {
        self.lists@[player.spec_index() as int]@
    }

    /// The legal moves of `player`: a map from each position where the
    /// player may place a marker to the set of positions captured from
    /// there.
    pub open spec fn moves(&self, player: Player) -> Map<(usize, usize), Set<(usize, usize)>> {
        list_moves(self.placements(player))
    }

    /// What holds of every index of legal moves.
    pub closed spec fn wf(&self) -> bool {
        &&& self.lists@.len() == 3
        &&& forall|p: Player| list_wf(#[trigger] self.placements(p))
    }

    /// Whether `player` has no legal move.
    pub open spec fn no_moves(&self, player: Player) -> bool {
        self.moves(player).dom() =~= Set::<(usize, usize)>::empty()
    }

    /// An index in which nobody has a legal move.
    pub fn new() -> (a: Availables)
        ensures
            a.wf(),
            forall|p: Player| #[trigger] a.placements(p) == Seq::<Placement>::empty(),
            forall|p: Player| a.no_moves(p),
    {
        let mut lists: Vec<Vec<Placement>> = Vec::new();
        lists.push(Vec::new());
        lists.push(Vec::new());
        lists.push(Vec::new());
        let a = Availables { lists };
        assert forall|p: Player| #[trigger] a.placements(p) == Seq::<Placement>::empty() by {
            assert(a.placements(p) =~= Seq::<Placement>::empty());
        }
        a
    }

    /// Takes every legal move from `player`.
    pub fn clear(&mut self, player: Player)
        requires
            old(self).wf(),
        ensures
            final(self).wf(),
            final(self).placements(player) == Seq::<Placement>::empty(),
            final(self).no_moves(player),
            forall|p: Player| p != player ==> final(self).placements(p) == old(self).placements(p),
    {
        let i = player.index();
        self.lists[i].clear();
        proof {
            assert(self.placements(player) =~= Seq::<Placement>::empty());
            assert forall|p: Player| p != player implies self.placements(p) == old(
                self,
            ).placements(p) by {}
            assert forall|p: Player| list_wf(#[trigger] self.placements(p)) by {
                if p != player {
                    assert(list_wf(old(self).placements(p)));
                }
            }
        }
    }

    /// Whether `player` has no legal move.
    pub fn is_empty(&self, player: Player) -> (empty: bool)
        requires
            self.wf(),
        ensures
            empty == self.no_moves(player),
            empty == (self.placements(player).len() == 0),
    {
        let empty = self.lists[player.index()].len() == 0;
        proof {
            let list = self.placements(player);
            if !empty {
                assert(entry_for(list, 0, list[0].position));
                assert(self.moves(player).dom().contains(list[0].position));
            }
        }
        empty
    }

    /// The number of positions where `player` may place a marker.
    pub fn len(&self, player: Player) -> (n: usize)
        requires
            self.wf(),
        ensures
            n == self.placements(player).len(),
    {
        self.lists[player.index()].len()
    }

    /// Whether `player` may place a marker at `position`.
    pub fn contains_key(&self, player: Player, position: (usize, usize)) -> (legal: bool)
        requires
            self.wf(),
        ensures
            legal == self.moves(player).dom().contains(position),
    {
        position_index(&self.lists[player.index()], position).is_some()
    }

    /// The positions that `player` captures by placing a marker at
    /// `position`, each once; `None` where the player may not place one
    /// there.
    pub fn get(&self, player: Player, position: (usize, usize)) -> (captured: Option<
        &Vec<(usize, usize)>,
    >)
        requires
            self.wf(),
        ensures
            captured is Some == self.moves(player).dom().contains(position),
            captured matches Some(v) ==> {
                &&& v@.to_set() == self.moves(player)[position]
                &&& v@.no_duplicates()
                &&& v@.len() > 0
            },
    {
        match position_index(&self.lists[player.index()], position) {
            Some(i) => {
                let v = &self.lists[player.index()][i].captured;
                proof {
                    let list = self.placements(player);
                    assert(list_wf(list));
                    assert forall|q: (usize, usize)|
                        v@.to_set().contains(q) == self.moves(player)[position].contains(q) by {
                        if v@.contains(q) {
                            assert(entry_captures(list, i as int, position, q));
                        }
                        if self.moves(player)[position].contains(q) {
                            let k = choose|k: int| entry_captures(list, k, position, q);
                            assert(k == i);
                        }
                    }
                    assert(v@.to_set() =~= self.moves(player)[position]);
                }
                Some(v)
            },
            None => None,
        }
    }

    /// The positions where `player` may place a marker, in the order in
    /// which they were added.
    pub fn positions(&self, player: Player) -> (keys: Vec<(usize, usize)>)
        requires
            self.wf(),
        ensures
            keys@.len() == self.placements(player).len(),
            forall|i: int|
                0 <= i < keys@.len() ==> #[trigger] keys@[i] == self.placements(player)[i].position,
            keys@.to_set() == self.moves(player).dom(),
    {
        let list = &self.lists[player.index()];
        let mut keys: Vec<(usize, usize)> = Vec::new();
        let mut i: usize = 0;
        while i < list.len()
            invariant
                i <= list@.len(),
                keys@.len() == i,
                forall|k: int| 0 <= k < i ==> #[trigger] keys@[k] == list@[k].position,
            decreases list@.len() - i,
        {
            keys.push(list[i].position);
            i = i + 1;
        }
        proof {
            assert forall|c: (usize, usize)|
                keys@.to_set().contains(c) == self.moves(player).dom().contains(c) by {
                if keys@.contains(c) {
                    let k = choose|k: int| 0 <= k < keys@.len() && keys@[k] == c;
                    assert(entry_for(list@, k, c));
                }
                if self.moves(player).dom().contains(c) {
                    let k = choose|k: int| entry_for(list@, k, c);
                    assert(keys@[k] == c);
                }
            }
            assert(keys@.to_set() =~= self.moves(player).dom());
        }
        keys
    }

    /// Adds the candidates to what `player` captures by placing a marker at
    /// `position`. With no candidate nothing changes; with one or more the
    /// position becomes a legal move, if it was none before.
    #[verifier::loop_isolation(false)]
    pub fn add_or_extend(
        &mut self,
        player: Player,
        position: (usize, usize),
        candidate_list: Vec<(usize, usize)>,
    )
        requires
            old(self).wf(),
        ensures
            final(self).wf(),
            forall|p: Player| p != player ==> final(self).placements(p) == old(self).placements(p),
            candidate_list@.len() == 0 ==> final(self).placements(player) == old(
                self,
            ).placements(player),
            candidate_list@.len() > 0 ==> final(self).moves(player) == old(self).moves(
                player,
            ).insert(
                position,
                if old(self).moves(player).dom().contains(position) {
                    old(self).moves(player)[position].union(candidate_list@.to_set())
                } else {
                    candidate_list@.to_set()
                },
            ),
    {
        let n = candidate_list.len();
        if n == 0 {
            return ;
        }
        let pi = player.index();
        let ghost before = self.placements(player);
        let found = position_index(&self.lists[pi], position);
        let e = match found {
            Some(e) => e,
            None => {
                self.lists[pi].push(Placement { position, captured: Vec::new() });
                self.lists[pi].len() - 1
            },
        };
        let ghost start = self.placements(player);
        let ghost kept: Set<(usize, usize)> = start[e as int].captured@.to_set();
        proof {
            assert(list_wf(before));
            if found is None {
                assert(kept =~= Set::<(usize, usize)>::empty());
            }
        }
        let mut j: usize = 0;
        while j < n
            invariant
                j <= n,
                self.lists@.len() == 3,
                forall|p: Player| p != player ==> self.placements(p) == old(self).placements(p),
                self.placements(player).len() == start.len(),
                forall|i: int|
                    0 <= i < start.len() && i != e ==> #[trigger] self.placements(player)[i]
                        == start[i],
                self.placements(player)[e as int].position == position,
                self.placements(player)[e as int].captured@.no_duplicates(),
                self.placements(player)[e as int].captured@.to_set() =~= kept.union(
                    candidate_list@.subrange(0, j as int).to_set(),
                ),
                j > 0 ==> self.placements(player)[e as int].captured@.len() > 0,
            decreases n - j,
        {
            let c = candidate_list[j];
            let ghost seen = candidate_list@.subrange(0, j as int);
            let ghost held = self.placements(player)[e as int].captured@;
            if !holds_position(&self.lists[pi][e].captured, c) {
                self.lists[pi][e].captured.push(c);
                proof {
                    held.lemma_push_to_set_commute(c);
                }
            }
            proof {
                assert(candidate_list@.subrange(0, j + 1) =~= seen.push(c));
                seen.lemma_push_to_set_commute(c);
            }
            j = j + 1;
        }
        proof {
            assert(candidate_list@.subrange(0, n as int) =~= candidate_list@);
            lemma_list_extended(
                before,
                self.placements(player),
                e as int,
                position,
                candidate_list@.to_set(),
            );
            assert forall|p: Player| list_wf(#[trigger] self.placements(p)) by {
                if p != player {
                    assert(list_wf(old(self).placements(p)));
                }
            }
        }
    }
}

/// An index in which nobody has a legal move.
impl Default for Availables {
    fn default() -> (a: Availables)
        ensures
            a.wf(),
            forall|p: Player| a.no_moves(p),
    {
        Availables::new()
    }
}

} // verus!
