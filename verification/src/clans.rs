//! Named clans of crabs: a mapping from clan identifier to the ordered list
//! of member names, kept as an association list in insertion order.

use vstd::prelude::*;

use crate::str_eq;

verus! {

/// One clan: its identifier and the ordered list of member names.
/// Member names may repeat; nothing deduplicates them.
#[derive(Debug)]
pub struct Clan {
    pub id: String,
    pub members: Vec<String>,
}

/// The character sequences of a sequence of strings.
pub open spec fn str_views(names: Seq<String>) -> Seq<Seq<char>> {
    names.map_values(|s: String| s@)
}

/// A registry of clans. A clan exists exactly from the moment its first
/// member is added; there is no way to create an empty clan.
#[derive(Debug)]
pub struct ClanSystem {
    pub clans: Vec<Clan>,
}

impl ClanSystem {
    /// Clan identifiers are unique; the outer list keeps insertion order.
    pub open spec fn wf(self) -> bool {
        forall|i: int, j: int|
            0 <= i < j < self.clans@.len() ==> self.clans@[i].id@ != self.clans@[j].id@
    }

    /// Whether a clan with identifier `id` is registered.
    pub open spec fn spec_has_clan(self, id: Seq<char>) -> bool {
        exists|i: int| 0 <= i < self.clans@.len() && self.clans@[i].id@ == id
    }

    /// The position of the clan with identifier `id` (meaningful only when
    /// the clan exists and identifiers are unique).
    pub open spec fn spec_clan_index(self, id: Seq<char>) -> int {
        choose|i: int| 0 <= i < self.clans@.len() && self.clans@[i].id@ == id
    }

    /// The member names of clan `id`, in insertion order; empty when the
    /// clan is unknown.
    pub open spec fn spec_members(self, id: Seq<char>) -> Seq<Seq<char>> {
        if self.spec_has_clan(id) {
            str_views(self.clans@[self.spec_clan_index(id)].members@)
        } else {
            Seq::empty()
        }
    }

    /// With unique identifiers, a position holding `id` is the position the
    /// specification functions speak of.
    pub proof fn lemma_clan_index_at(self, id: Seq<char>, k: int)
        requires
            self.wf(),
            0 <= k < self.clans@.len(),
            self.clans@[k].id@ == id,
        ensures
            self.spec_has_clan(id),
            self.spec_clan_index(id) == k,
    {
        assert(self.spec_has_clan(id));
        let i = self.spec_clan_index(id);
        assert(0 <= i < self.clans@.len() && self.clans@[i].id@ == id);
        if i < k {
            assert(self.clans@[i].id@ != self.clans@[k].id@);
        } else if k < i {
            assert(self.clans@[k].id@ != self.clans@[i].id@);
        }
    }

    pub fn new() -> (s: ClanSystem)
        ensures
            s.clans@.len() == 0,
            s.wf(),
    {
        ClanSystem { clans: Vec::new() }
    }

    /// The position of the clan with the given identifier, if any.
    fn find_clan(&self, clan_id: &str) -> (r: Option<usize>)
        requires
            self.wf(),
        ensures
            match r {
                Some(k) => {
                    &&& k < self.clans@.len()
                    &&& self.clans@[k as int].id@ == clan_id@
                    &&& self.spec_has_clan(clan_id@)
                    &&& self.spec_clan_index(clan_id@) == k
                },
                None => !self.spec_has_clan(clan_id@),
            },
    {
        let n = self.clans.len();
        let mut k: usize = 0;
        while k < n
            invariant
                self.wf(),
                n == self.clans@.len(),
                k <= n,
                forall|j: int| 0 <= j < k ==> self.clans@[j].id@ != clan_id@,
            decreases n - k,
        {
            if str_eq(self.clans[k].id.as_str(), clan_id) {
                proof {
                    self.lemma_clan_index_at(clan_id@, k as int);
                }
                return Some(k);
            }
            k = k + 1;
        }
        None
    }

    /// An ordered copy of the member names for `clan_id`, empty if the
    /// identifier is unknown.
    pub fn get_clan_member_names(&self, clan_id: &str) -> (r: Vec<String>)
        requires
            self.wf(),
        ensures
            str_views(r@) == self.spec_members(clan_id@),
    {
        match self.find_clan(clan_id) {
            Some(k) => {
                let r = self.clans[k].members.clone();
                proof {
                    let orig = self.clans@[k as int].members@;
                    assert forall|i: int| 0 <= i < r@.len() implies r@[i] == orig[i] by {
                        assert(cloned::<String>(orig[i], r@[i]));
                    }
                    assert(r@ =~= orig);
                    assert(str_views(r@) =~= self.spec_members(clan_id@));
                }
                r
            },
            None => {
                let r = Vec::new();
                proof {
                    assert(str_views(r@) =~= Seq::<Seq<char>>::empty());
                }
                r
            },
        }
    }

    /// The number of clans registered so far.
    pub fn get_clan_count(&self) -> (r: usize)
        ensures
            r == self.clans@.len(),
    {
        self.clans.len()
    }

    /// The number of members of clan `clan_id`, 0 if the identifier is
    /// unknown.
    pub fn get_clan_member_count(&self, clan_id: &str) -> (r: usize)
        requires
            self.wf(),
        ensures
            r == self.spec_members(clan_id@).len(),
    {
        match self.find_clan(clan_id) {
            Some(k) => self.clans[k].members.len(),
            None => 0,
        }
    }

    /// The identifier of the clan with the most members, or nothing when no
    /// clan exists. Among equally large clans the one registered last wins.
    pub fn get_largest_clan_id(&self) -> (r: Option<String>)
        ensures
            r is None <==> self.clans@.len() == 0,
            match r {
                Some(id) => exists|i: int|
                    {
                        &&& 0 <= i < self.clans@.len()
                        &&& #[trigger] self.clans@[i].id@ == id@
                        &&& forall|j: int|
                            0 <= j < self.clans@.len() ==> self.clans@[j].members@.len()
                                <= self.clans@[i].members@.len()
                        &&& forall|j: int|
                            i < j < self.clans@.len() ==> self.clans@[j].members@.len()
                                < self.clans@[i].members@.len()
                    },
                None => true,
            },
    {
        let n = self.clans.len();
        if n == 0 {
            return None;
        }
        let mut best: usize = 0;
        let mut k: usize = 1;
        while k < n
            invariant
                n == self.clans@.len(),
                best < k <= n,
                forall|j: int|
                    0 <= j < k ==> self.clans@[j].members@.len()
                        <= self.clans@[best as int].members@.len(),
                forall|j: int|
                    best < j < k ==> self.clans@[j].members@.len()
                        < self.clans@[best as int].members@.len(),
            decreases n - k,
        {
            if self.clans[k].members.len() >= self.clans[best].members.len() {
                best = k;
            }
            k = k + 1;
        }
        let id = self.clans[best].id.clone();
        proof {
            let i = best as int;
            assert(self.clans@[i].id@ == id@);
        }
        Some(id)
    }

    /// Appends `crab_name` to the member list of `clan_id`, registering the
    /// clan first if it is new. Names are not checked for uniqueness.
    pub fn add_crab_name(&mut self, clan_id: &str, crab_name: String)
        requires
            old(self).wf(),
        ensures
            final(self).wf(),
            final(self).spec_has_clan(clan_id@),
            final(self).spec_members(clan_id@) == old(self).spec_members(clan_id@).push(
                crab_name@,
            ),
            forall|other: Seq<char>|
                other != clan_id@ ==> #[trigger] final(self).spec_members(other) == old(
                    self,
                ).spec_members(other),
            forall|other: Seq<char>|
                #[trigger] final(self).spec_has_clan(other) <==> old(self).spec_has_clan(other)
                    || other == clan_id@,
            old(self).spec_has_clan(clan_id@) ==> final(self).clans@.len() == old(
                self,
            ).clans@.len(),
            !old(self).spec_has_clan(clan_id@) ==> final(self).clans@.len() == old(
                self,
            ).clans@.len() + 1,
    {
        let ghost pre = *self;
        let ghost name_view = crab_name@;
        let found = self.find_clan(clan_id);
        match found {
            Some(k) => {
                self.clans[k].members.push(crab_name);
                proof {
                    let ki = k as int;
                    assert(forall|j: int|
                        0 <= j < self.clans@.len() && j != ki ==> self.clans@[j]
                            == pre.clans@[j]);
                    assert(forall|j: int|
                        0 <= j < self.clans@.len() ==> self.clans@[j].id@ == pre.clans@[j].id@);
                    assert(self.wf());
                    self.lemma_clan_index_at(clan_id@, ki);
                    assert(str_views(self.clans@[ki].members@) =~= str_views(
                        pre.clans@[ki].members@,
                    ).push(name_view));
                    self.lemma_same_ids_same_members(pre, clan_id@, ki);
                }
            },
            None => {
                let mut members = Vec::new();
                members.push(crab_name);
                self.clans.push(Clan { id: clan_id.to_owned(), members });
                proof {
                    let ki = pre.clans@.len() as int;
                    assert(forall|j: int| 0 <= j < ki ==> self.clans@[j] == pre.clans@[j]);
                    assert(forall|j: int| 0 <= j < ki ==> pre.clans@[j].id@ != clan_id@);
                    assert(self.wf());
                    self.lemma_clan_index_at(clan_id@, ki);
                    assert(str_views(self.clans@[ki].members@) =~= Seq::<Seq<char>>::empty().push(
                        name_view,
                    ));
                    assert(pre.spec_members(clan_id@) =~= Seq::<Seq<char>>::empty());
                    self.lemma_same_ids_same_members(pre, clan_id@, ki);
                }
            },
        }
    }

    /// Adding one member under `id` raises that clan's member count by one
    /// and leaves every other clan's count unchanged, so a clan's member
    /// count is the number of additions made under its identifier; the clan
    /// count rises exactly when the identifier was new, so it is the number
    /// of distinct identifiers ever added to.
    pub proof fn lemma_add_counts(pre: ClanSystem, post: ClanSystem, id: Seq<char>, name: Seq<char>)
        requires
            post.spec_members(id) == pre.spec_members(id).push(name),
            forall|other: Seq<char>|
                other != id ==> #[trigger] post.spec_members(other) == pre.spec_members(other),
            pre.spec_has_clan(id) ==> post.clans@.len() == pre.clans@.len(),
            !pre.spec_has_clan(id) ==> post.clans@.len() == pre.clans@.len() + 1,
        ensures
            post.spec_members(id).len() == pre.spec_members(id).len() + 1,
            forall|other: Seq<char>|
                other != id ==> #[trigger] post.spec_members(other).len() == pre.spec_members(
                    other,
                ).len(),
            post.clans@.len() == pre.clans@.len() + (if pre.spec_has_clan(id) {
                0int
            } else {
                1int
            }),
    {
    }

    /// After a change at position `ki` alone, every clan other than the one
    /// at `ki` keeps its members, and exactly the identifiers present before
    /// plus the one at `ki` are present.
    proof fn lemma_same_ids_same_members(self, pre: ClanSystem, id: Seq<char>, ki: int)
        requires
            pre.wf(),
            self.wf(),
            0 <= ki < self.clans@.len(),
            self.clans@[ki].id@ == id,
            pre.clans@.len() == self.clans@.len() || (pre.clans@.len() == ki && self.clans@.len()
                == ki + 1),
            forall|j: int| 0 <= j < self.clans@.len() && j != ki ==> self.clans@[j] == pre.clans@[j],
            pre.clans@.len() == self.clans@.len() ==> pre.clans@[ki].id@ == id,
        ensures
            forall|other: Seq<char>|
                other != id ==> #[trigger] self.spec_members(other) == pre.spec_members(other),
            forall|other: Seq<char>|
                #[trigger] self.spec_has_clan(other) <==> pre.spec_has_clan(other) || other == id,
    {
        assert forall|other: Seq<char>|
            #[trigger] self.spec_has_clan(other) <==> pre.spec_has_clan(other)
                || other == id by {
            if self.spec_has_clan(other) {
                let i = self.spec_clan_index(other);
                assert(0 <= i < self.clans@.len() && self.clans@[i].id@ == other);
                if i != ki {
                    assert(pre.clans@[i].id@ == other);
                    assert(pre.spec_has_clan(other));
                }
            }
            if pre.spec_has_clan(other) {
                let i = pre.spec_clan_index(other);
                assert(0 <= i < pre.clans@.len() && pre.clans@[i].id@ == other);
                if i != ki {
                    assert(self.clans@[i].id@ == other);
                    assert(self.spec_has_clan(other));
                } else {
                    assert(self.spec_has_clan(other));
                }
            }
            if other == id {
                assert(self.clans@[ki].id@ == other);
                assert(self.spec_has_clan(other));
            }
        }
        assert forall|other: Seq<char>|
            other != id implies #[trigger] self.spec_members(other) == pre.spec_members(
            other,
        ) by {
            if pre.spec_has_clan(other) {
                let i = pre.spec_clan_index(other);
                assert(0 <= i < pre.clans@.len() && pre.clans@[i].id@ == other);
                if pre.clans@.len() == self.clans@.len() {
                    assert(i != ki);
                } else {
                    assert(i < ki);
                }
                assert(self.clans@[i] == pre.clans@[i]);
                self.lemma_clan_index_at(other, i);
                pre.lemma_clan_index_at(other, i);
            }
        }
    }
}

} // verus!
