//! The beach: an ordered collection of crabs together with one clan system,
//! with queries over crab speeds and a breeding operation.

use vstd::prelude::*;
use vstd::seq_lib::*;
use vstd::string::StringExecFns;

use crate::clans::ClanSystem;
use crate::clans::str_views;
use crate::crab::Color;
use crate::crab::Crab;
use crate::crab::Diet;
use crate::str_eq;

verus! {

/// The predicate holding exactly of crabs named `name`.
pub open spec fn named(name: Seq<char>) -> spec_fn(Crab) -> bool {
    |c: Crab| c.name@ == name
}

/// The crabs among `crabs` named `name`, in storage order.
pub open spec fn matches_of(crabs: Seq<Crab>, name: Seq<char>) -> Seq<Crab> {
    crabs.filter(named(name))
}

/// Whether some crab among `crabs` is named `name`.
pub open spec fn has_crab_named(crabs: Seq<Crab>, name: Seq<char>) -> bool {
    exists|i: int| 0 <= i < crabs.len() && crabs[i].name@ == name
}

/// The speed of the first crab named `name` among `crabs` (meaningful only
/// when such a crab exists).
pub open spec fn first_speed(crabs: Seq<Crab>, name: Seq<char>) -> u32 {
    matches_of(crabs, name)[0].speed
}

/// The sum of the first-match speeds of the given names.
pub open spec fn speed_sum(crabs: Seq<Crab>, names: Seq<Seq<char>>) -> int
    decreases names.len(),
{
    if names.len() == 0 {
        0
    } else {
        speed_sum(crabs, names.drop_last()) + first_speed(crabs, names.last())
    }
}

/// The average of the first-match speeds, rounded down; 0 for no names.
pub open spec fn avg_speed(crabs: Seq<Crab>, names: Seq<Seq<char>>) -> int {
    if names.len() == 0 {
        0
    } else {
        speed_sum(crabs, names) / names.len() as int
    }
}

/// The crab values behind a sequence of crab references.
pub open spec fn deref_views(cs: Seq<&Crab>) -> Seq<Crab> {
    cs.map_values(|c: &Crab| *c)
}

/// Appending a crab extends the matches of its own name by that crab and
/// leaves the matches of every name in place: lookups by name preserve the
/// beach's storage order.
pub proof fn lemma_matches_of_push(crabs: Seq<Crab>, c: Crab, name: Seq<char>)
    ensures
        matches_of(crabs.push(c), name) == if c.name@ == name {
            matches_of(crabs, name).push(c)
        } else {
            matches_of(crabs, name)
        },
{
    reveal(Seq::filter);
    assert(crabs.push(c).drop_last() =~= crabs);
    assert(crabs.push(c).last() == c);
}

/// Every crab found under a name is one of the beach's crabs.
proof fn lemma_matches_of_in_crabs(crabs: Seq<Crab>, name: Seq<char>)
    ensures
        forall|k: int|
            0 <= k < matches_of(crabs, name).len() ==> crabs.contains(
                #[trigger] matches_of(crabs, name)[k],
            ),
    decreases crabs.len(),
{
    reveal(Seq::filter);
    if crabs.len() > 0 {
        let head = crabs.drop_last();
        lemma_matches_of_in_crabs(head, name);
        assert forall|k: int|
            0 <= k < matches_of(crabs, name).len() implies crabs.contains(
            #[trigger] matches_of(crabs, name)[k],
        ) by {
            let m = matches_of(crabs, name);
            let mh = matches_of(head, name);
            if k < mh.len() {
                assert(m[k] == mh[k]);
                let i = choose|i: int| 0 <= i < head.len() && head[i] == mh[k];
                assert(crabs[i] == m[k]);
            } else {
                assert(m[k] == crabs.last());
                assert(crabs[crabs.len() - 1] == m[k]);
            }
        }
    }
}

/// The crabs found under a name are exactly the crabs bearing that name:
/// every crab found bears it, every crab bearing it is found, and nothing is
/// found exactly when no crab bears it.
pub proof fn lemma_matches_of_characterization(crabs: Seq<Crab>, name: Seq<char>)
    ensures
        forall|k: int|
            0 <= k < matches_of(crabs, name).len() ==> (#[trigger] matches_of(crabs, name)[k]).name@
                == name,
        forall|i: int|
            0 <= i < crabs.len() && crabs[i].name@ == name ==> matches_of(crabs, name).contains(
                crabs[i],
            ),
        forall|k: int|
            0 <= k < matches_of(crabs, name).len() ==> crabs.contains(
                #[trigger] matches_of(crabs, name)[k],
            ),
        matches_of(crabs, name).len() == 0 <==> !has_crab_named(crabs, name),
{
    assert forall|k: int|
        0 <= k < matches_of(crabs, name).len() implies (#[trigger] matches_of(crabs, name)[k]).name@
        == name by {
        crabs.lemma_filter_pred(named(name), k);
    }
    assert forall|i: int|
        0 <= i < crabs.len() && crabs[i].name@ == name implies matches_of(crabs, name).contains(
        crabs[i],
    ) by {
        crabs.lemma_filter_contains(named(name), i);
    }
    lemma_matches_of_in_crabs(crabs, name);
    if matches_of(crabs, name).len() > 0 {
        let c = matches_of(crabs, name)[0];
        crabs.lemma_filter_pred(named(name), 0);
        let i = choose|i: int| 0 <= i < crabs.len() && crabs[i] == c;
        assert(has_crab_named(crabs, name));
    }
    if has_crab_named(crabs, name) {
        let i = choose|i: int| 0 <= i < crabs.len() && crabs[i].name@ == name;
        crabs.lemma_filter_contains(named(name), i);
    }
}

/// The running sum over a prefix of the names grows by exactly the next
/// name's first-match speed.
proof fn lemma_speed_sum_take_succ(crabs: Seq<Crab>, names: Seq<Seq<char>>, i: int)
    requires
        0 <= i < names.len(),
    ensures
        speed_sum(crabs, names.take(i + 1)) == speed_sum(crabs, names.take(i)) + first_speed(
            crabs,
            names[i],
        ),
{
    assert(names.take(i + 1).drop_last() =~= names.take(i));
    assert(names.take(i + 1).last() == names[i]);
}

/// A prefix of the names never sums to more than all of them.
proof fn lemma_speed_sum_take_le(crabs: Seq<Crab>, names: Seq<Seq<char>>, i: int)
    requires
        0 <= i <= names.len(),
    ensures
        speed_sum(crabs, names.take(i)) <= speed_sum(crabs, names),
    decreases names.len() - i,
{
    if i == names.len() {
        assert(names.take(i) =~= names);
    } else {
        lemma_speed_sum_take_succ(crabs, names, i);
        lemma_speed_sum_take_le(crabs, names, i + 1);
    }
}

/// Position `i` holds a crab at least as fast as every crab on the beach
/// and strictly faster than every crab after it: the last of the fastest.
pub open spec fn fastest_at(crabs: Seq<Crab>, i: int) -> bool {
    &&& 0 <= i < crabs.len()
    &&& forall|j: int| 0 <= j < crabs.len() ==> crabs[j].speed <= crabs[i].speed
    &&& forall|j: int| i < j < crabs.len() ==> crabs[j].speed < crabs[i].speed
}

/// The beach: the ordered crabs it owns, oldest first, and its clan system.
/// Crabs are only ever appended, never removed, so positions are stable.
#[derive(Debug)]
pub struct Beach {
    pub crabs: Vec<Crab>,
    pub clan_system: ClanSystem,
}

impl Beach {
    /// The one invariant a beach carries: its clan system is well formed.
    pub open spec fn wf(self) -> bool {
        self.clan_system.wf()
    }

    /// The machine limits under which the average speed of the members of
    /// clan `id` can be computed: every member name belongs to some crab on
    /// the beach, and the count and speed sum fit in 32 bits.
    pub open spec fn avg_pre(self, id: Seq<char>) -> bool {
        let ms = self.clan_system.spec_members(id);
        &&& ms.len() <= u32::MAX
        &&& forall|k: int| 0 <= k < ms.len() ==> has_crab_named(self.crabs@, #[trigger] ms[k])
        &&& speed_sum(self.crabs@, ms) <= u32::MAX
    }

    pub fn new() -> (b: Beach)
        ensures
            b.crabs@.len() == 0,
            b.clan_system.clans@.len() == 0,
            b.wf(),
    {
        Beach { crabs: Vec::new(), clan_system: ClanSystem::new() }
    }

    /// The number of crabs on the beach.
    pub fn size(&self) -> (r: usize)
        ensures
            r == self.crabs@.len(),
    {
        self.crabs.len()
    }

    /// Takes ownership of `crab` and appends it at the end of the beach.
    pub fn add_crab(&mut self, crab: Crab)
        ensures
            final(self).crabs@ == old(self).crabs@.push(crab),
            final(self).clan_system == old(self).clan_system,
    {
        self.crabs.push(crab);
    }

    /// The crab at `index`; callers must stay in bounds.
    pub fn get_crab(&self, index: usize) -> (r: &Crab)
        requires
            index < self.crabs@.len(),
        ensures
            *r == self.crabs@[index as int],
    {
        &self.crabs[index]
    }

    /// All crabs held, in storage order.
    pub fn crabs(&self) -> (r: &Vec<Crab>)
        ensures
            r@ == self.crabs@,
    {
        &self.crabs
    }

    /// The crab with the highest speed, or nothing on an empty beach. Among
    /// equally fast crabs the one added last wins.
    pub fn get_fastest_crab(&self) -> (r: Option<&Crab>)
        ensures
            r is None <==> self.crabs@.len() == 0,
            (r matches Some(c) ==> exists|i: int|
                #[trigger] fastest_at(self.crabs@, i) && *c == self.crabs@[i]),
    {
        let n = self.crabs.len();
        if n == 0 {
            return None;
        }
        let mut best: usize = 0;
        let mut k: usize = 1;
        while k < n
            invariant
                n == self.crabs@.len(),
                best < k <= n,
                forall|j: int|
                    0 <= j < k ==> self.crabs@[j].speed <= self.crabs@[best as int].speed,
                forall|j: int|
                    best < j < k ==> self.crabs@[j].speed < self.crabs@[best as int].speed,
            decreases n - k,
        {
            if self.crabs[k].speed >= self.crabs[best].speed {
                best = k;
            }
            k = k + 1;
        }
        let r = &self.crabs[best];
        proof {
            assert(fastest_at(self.crabs@, best as int));
        }
        Some(r)
    }

    /// References to every crab named `name`, in storage order; empty when
    /// none matches.
    pub fn find_crabs_by_name(&self, name: &str) -> (r: Vec<&Crab>)
        ensures
            deref_views(r@) == matches_of(self.crabs@, name@),
    {
        let n = self.crabs.len();
        let mut result: Vec<&Crab> = Vec::new();
        let mut idx: usize = 0;
        while idx < n
            invariant
                n == self.crabs@.len(),
                idx <= n,
                deref_views(result@) == matches_of(self.crabs@.take(idx as int), name@),
            decreases n - idx,
        {
            let ghost prefix = self.crabs@.take(idx as int);
            let c = &self.crabs[idx];
            if str_eq(c.name.as_str(), name) {
                result.push(c);
                proof {
                    assert(deref_views(result@) =~= matches_of(prefix, name@).push(*c));
                }
            }
            proof {
                assert(self.crabs@.take(idx + 1) =~= prefix.push(self.crabs@[idx as int]));
                lemma_matches_of_push(prefix, self.crabs@[idx as int], name@);
            }
            idx = idx + 1;
        }
        proof {
            assert(self.crabs@.take(n as int) =~= self.crabs@);
        }
        result
    }

    /// Breeds the crabs at positions `i` and `j`: appends a new crab with
    /// the given name, speed 1, the cross of the parents' colors, and a
    /// randomly chosen diet. Callers must stay in bounds.
    pub fn breed_crabs(&mut self, i: usize, j: usize, name: String)
        requires
            i < old(self).crabs@.len(),
            j < old(self).crabs@.len(),
        ensures
            final(self).clan_system == old(self).clan_system,
            final(self).crabs@.len() == old(self).crabs@.len() + 1,
            forall|k: int|
                0 <= k < old(self).crabs@.len() ==> final(self).crabs@[k] == old(self).crabs@[k],
            final(self).crabs@.last().name@ == name@,
            final(self).crabs@.last().speed == 1,
            final(self).crabs@.last().color == Color::cross_spec(
                old(self).crabs@[i as int].color,
                old(self).crabs@[j as int].color,
            ),
    {
        let color = Color::cross(self.crabs[i].color, self.crabs[j].color);
        let diet = Diet::random_diet();
        let child = Crab::new(name, 1, color, diet);
        self.crabs.push(child);
    }

    /// The clan system this beach owns.
    pub fn get_clan_system(&self) -> (r: &ClanSystem)
        ensures
            *r == self.clan_system,
    {
        &self.clan_system
    }

    /// Records `crab_name` as a member of clan `clan_id`. Nothing checks
    /// that such a crab lives on the beach or that the name is not already
    /// registered elsewhere; that discipline is the caller's.
    pub fn add_member_to_clan(&mut self, clan_id: &str, crab_name: &str)
        requires
            old(self).wf(),
        ensures
            final(self).wf(),
            final(self).crabs == old(self).crabs,
            final(self).clan_system.spec_has_clan(clan_id@),
            final(self).clan_system.spec_members(clan_id@) == old(self).clan_system.spec_members(
                clan_id@,
            ).push(crab_name@),
            forall|other: Seq<char>|
                other != clan_id@ ==> #[trigger] final(self).clan_system.spec_members(other) == old(
                    self,
                ).clan_system.spec_members(other),
            forall|other: Seq<char>|
                #[trigger] final(self).clan_system.spec_has_clan(other) <==> old(
                    self,
                ).clan_system.spec_has_clan(other) || other == clan_id@,
            old(self).clan_system.spec_has_clan(clan_id@) ==> final(self).clan_system.clans@.len()
                == old(self).clan_system.clans@.len(),
            !old(self).clan_system.spec_has_clan(clan_id@) ==> final(self).clan_system.clans@.len()
                == old(self).clan_system.clans@.len() + 1,
    {
        self.clan_system.add_crab_name(clan_id, crab_name.to_owned());
    }

    /// The identifier of the clan whose members are faster on average, `Ok`
    /// of nothing when both averages agree exactly, and an error naming the
    /// clan when either identifier has no members.
    pub fn get_winner_clan(&self, id1: &str, id2: &str) -> (r: Result<Option<String>, String>)
        requires
            self.wf(),
            self.clan_system.spec_members(id1@).len() > 0 ==> self.avg_pre(id1@),
            self.clan_system.spec_members(id1@).len() > 0 && self.clan_system.spec_members(
                id2@,
            ).len() > 0 ==> self.avg_pre(id2@),
        ensures
            ({
                let m1 = self.clan_system.spec_members(id1@);
                let m2 = self.clan_system.spec_members(id2@);
                &&& m1.len() == 0 ==> (r matches Err(e) && e@ == "No clan named "@ + id1@)
                &&& m1.len() > 0 && m2.len() == 0 ==> (r matches Err(e) && e@ == "No clan named "@
                    + id2@)
                &&& m1.len() > 0 && m2.len() > 0 ==> {
                    let a1 = avg_speed(self.crabs@, m1);
                    let a2 = avg_speed(self.crabs@, m2);
                    &&& a1 == a2 ==> r == Ok::<Option<String>, String>(None)
                    &&& a1 > a2 ==> (r matches Ok(w) && w matches Some(s) && s@ == id1@)
                    &&& a1 < a2 ==> (r matches Ok(w) && w matches Some(s) && s@ == id2@)
                }
            }),
    {
        let clan1 = self.clan_system.get_clan_member_names(id1);
        if clan1.is_empty() {
            return Err("No clan named ".to_owned().concat(id1));
        }
        let clan2 = self.clan_system.get_clan_member_names(id2);
        if clan2.is_empty() {
            return Err("No clan named ".to_owned().concat(id2));
        }
        proof {
            let m1 = self.clan_system.spec_members(id1@);
            let m2 = self.clan_system.spec_members(id2@);
            assert forall|k: int|
                0 <= k < clan1@.len() implies has_crab_named(
                self.crabs@,
                #[trigger] clan1@[k]@,
            ) by {
                assert(m1[k] == clan1@[k]@);
            }
            assert forall|k: int|
                0 <= k < clan2@.len() implies has_crab_named(
                self.crabs@,
                #[trigger] clan2@[k]@,
            ) by {
                assert(m2[k] == clan2@[k]@);
            }
        }
        let avg1 = self.get_crabs_avg_speed(&clan1);
        let avg2 = self.get_crabs_avg_speed(&clan2);
        if avg1 == avg2 {
            Ok(None)
        } else if avg1 > avg2 {
            Ok(Some(id1.to_owned()))
        } else {
            Ok(Some(id2.to_owned()))
        }
    }

    /// The average, rounded down, of the speeds of the first crab matching
    /// each given name; 0 when no names are given. Callers must name only
    /// crabs that live on the beach and stay within 32-bit limits.
    pub fn get_crabs_avg_speed(&self, names: &Vec<String>) -> (r: u32)
        requires
            forall|k: int|
                0 <= k < names@.len() ==> has_crab_named(self.crabs@, #[trigger] names@[k]@),
            names@.len() <= u32::MAX,
            speed_sum(self.crabs@, str_views(names@)) <= u32::MAX,
        ensures
            r == avg_speed(self.crabs@, str_views(names@)),
            names@.len() == 0 ==> r == 0,
    {
        let ghost nviews = str_views(names@);
        let n = names.len();
        let mut sum_so_far: u32 = 0;
        let mut idx: usize = 0;
        while idx < n
            invariant
                n == names@.len(),
                idx <= n,
                nviews == str_views(names@),
                forall|k: int|
                    0 <= k < names@.len() ==> has_crab_named(self.crabs@, #[trigger] names@[k]@),
                speed_sum(self.crabs@, nviews) <= u32::MAX,
                sum_so_far == speed_sum(self.crabs@, nviews.take(idx as int)),
            decreases n - idx,
        {
            let found = self.find_crabs_by_name(names[idx].as_str());
            proof {
                let name = names@[idx as int]@;
                lemma_matches_of_characterization(self.crabs@, name);
                assert(matches_of(self.crabs@, name).len() > 0);
                assert(deref_views(found@).len() == found@.len());
            }
            let c = found[0];
            proof {
                let name = names@[idx as int]@;
                assert(*c == deref_views(found@)[0]);
                assert(c.speed == first_speed(self.crabs@, name));
                lemma_speed_sum_take_succ(self.crabs@, nviews, idx as int);
                lemma_speed_sum_take_le(self.crabs@, nviews, idx + 1);
            }
            sum_so_far = sum_so_far + c.speed();
            idx = idx + 1;
        }
        proof {
            assert(nviews.take(n as int) =~= nviews);
        }
        if n == 0 {
            0
        } else {
            let cnt = n as u32;
            sum_so_far / cnt
        }
    }
}

/// Appending one crab grows the beach by exactly one, places the new crab at
/// the final position, and leaves every earlier crab at its place: after any
/// sequence of additions the beach holds exactly the crabs added, in order.
pub proof fn lemma_add_crab_appends(pre: Beach, post: Beach, c: Crab)
    requires
        post.crabs@ == pre.crabs@.push(c),
    ensures
        post.crabs@.len() == pre.crabs@.len() + 1,
        post.crabs@[pre.crabs@.len() as int] == c,
        forall|k: int| 0 <= k < pre.crabs@.len() ==> post.crabs@[k] == pre.crabs@[k],
{
}

} // verus!
