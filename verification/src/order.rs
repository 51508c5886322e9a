//! Sets that list their members in ascending order.

use vstd::prelude::*;

verus! {

/// Whether `a` and `b` hold the same numbers before position `at`, where either `a` ends and `b`
/// goes on, or `a` holds the smaller number.
pub open spec fn precedes_at(a: Seq<u32>, b: Seq<u32>, at: int) -> bool {
    &&& 0 <= at <= a.len()
    &&& at < b.len()
    &&& a.take(at) == b.take(at)
    &&& at < a.len() ==> a[at] < b[at]
}

/// Lexicographic order on keys: the first difference decides, and a proper prefix comes first.
pub open spec fn precedes(a: Seq<u32>, b: Seq<u32>) -> bool {
    exists|at: int| precedes_at(a, b, at)
}

/// No key precedes itself.
pub proof fn precedes_is_irreflexive(a: Seq<u32>)
    ensures
        !precedes(a, a),
{
}

/// What precedes a key also precedes what that key precedes.
pub proof fn precedes_is_transitive(a: Seq<u32>, b: Seq<u32>, c: Seq<u32>)
    requires
        precedes(a, b),
        precedes(b, c),
    ensures
        precedes(a, c),
{
    let i = choose|at: int| precedes_at(a, b, at);
    let j = choose|at: int| precedes_at(b, c, at);
    let k = if i < j { i } else { j };
    assert(a.take(k) == a.take(i).take(k));
    assert(b.take(k) == b.take(i).take(k));
    assert(b.take(k) == b.take(j).take(k));
    assert(c.take(k) == c.take(j).take(k));
    if i < j {
        assert(b[i] == b.take(j)[i] && c[i] == c.take(j)[i]);
    } else if j < i {
        assert(a[j] == a.take(i)[j] && b[j] == b.take(i)[j]);
    }
    assert(precedes_at(a, c, k));
}

/// Of two different keys one precedes the other.
pub proof fn precedes_is_total(a: Seq<u32>, b: Seq<u32>)
    ensures
        a == b || precedes(a, b) || precedes(b, a),
{
    assert(a.take(0) == b.take(0));
    first_difference(a, b, 0);
}

proof fn first_difference(a: Seq<u32>, b: Seq<u32>, from: int)
    requires
        0 <= from <= a.len(),
        from <= b.len(),
        a.take(from) == b.take(from),
    ensures
        a == b || precedes(a, b) || precedes(b, a),
    decreases a.len() - from,
{
    if from == a.len() && from == b.len() {
        assert(a == a.take(from) && b == b.take(from));
    } else if from == a.len() {
        assert(precedes_at(a, b, from));
    } else if from == b.len() {
        assert(precedes_at(b, a, from));
    } else if a[from] < b[from] {
        assert(precedes_at(a, b, from));
    } else if b[from] < a[from] {
        assert(precedes_at(b, a, from));
    } else {
        assert(a.take(from + 1) == a.take(from).push(a[from]));
        assert(b.take(from + 1) == b.take(from).push(b[from]));
        first_difference(a, b, from + 1);
    }
}

/// Where one key stands relative to another.
#[derive(Clone, Copy, Debug, PartialEq, Eq, Structural)]
pub enum Standing {
    Before,
    Same,
    After,
}

/// Compares two keys.
pub fn standing(a: &Vec<u32>, b: &Vec<u32>) -> (result: Standing)
    ensures
        (result == Standing::Before) == precedes(a@, b@),
        (result == Standing::Same) == (a@ == b@),
        (result == Standing::After) == precedes(b@, a@),
{
    proof {
        precedes_is_irreflexive(a@);
        if precedes(a@, b@) && precedes(b@, a@) {
            precedes_is_transitive(a@, b@, a@);
        }
        precedes_is_irreflexive(b@);
    }
    let mut i: usize = 0;
    while i < a.len() && i < b.len()
        invariant
            i <= a.len(),
            i <= b.len(),
            a@.take(i as int) == b@.take(i as int),
            !(precedes(a@, b@) && precedes(b@, a@)),
        decreases a.len() - i,
    {
        if a[i] < b[i] {
            assert(precedes_at(a@, b@, i as int));
            return Standing::Before;
        }
        if b[i] < a[i] {
            assert(precedes_at(b@, a@, i as int));
            return Standing::After;
        }
        assert(a@.take(i + 1) == a@.take(i as int).push(a@[i as int]));
        assert(b@.take(i + 1) == b@.take(i as int).push(b@[i as int]));
        i += 1;
    }
    if i < b.len() {
        assert(precedes_at(a@, b@, i as int));
        Standing::Before
    } else if i < a.len() {
        assert(precedes_at(b@, a@, i as int));
        Standing::After
    } else {
        assert(a@ == a@.take(i as int) && b@ == b@.take(i as int));
        Standing::Same
    }
}

/// What can be a member of an `OrderedSet`: its model has a sort key of its own.
pub trait Ordered: View + Sized {
    /// The key that places a member among the others.
    spec fn key(model: Self::V) -> Seq<u32>;

    /// Different members have different keys.
    proof fn keys_differ(a: Self::V, b: Self::V)
        requires
            Self::key(a) == Self::key(b),
        ensures
            a == b,
    ;

    /// Computes the key of this member.
    fn sort_key(&self) -> (key: Vec<u32>)
        ensures
            key@ == Self::key(self@),
    ;
}

impl<'a, T: Ordered> Ordered for &'a T {
    open spec fn key(model: T::V) -> Seq<u32> {
        T::key(model)
    }

    proof fn keys_differ(a: T::V, b: T::V) {
        T::keys_differ(a, b);
    }

    fn sort_key(&self) -> (key: Vec<u32>) {
        (**self).sort_key()
    }
}

/// The models of the members of a list.
pub open spec fn models<T: Ordered>(members: Seq<T>) -> Seq<T::V> {
    members.map_values(|member: T| member@)
}

/// Whether the keys of a list grow from each member to the next.
pub open spec fn ascending<T: Ordered>(list: Seq<T::V>) -> bool {
    forall|i: int, j: int|
        0 <= i < j < list.len() ==> precedes(#[trigger] T::key(list[i]), #[trigger] T::key(list[j]))
}

/// The members of a set in ascending order.
pub open spec fn listing<T: Ordered>(set: Set<T::V>) -> Seq<T::V> {
    choose|list: Seq<T::V>| ascending::<T>(list) && #[trigger] list.to_set() == set
}

/// Two ascending lists with the same members are the same list.
pub proof fn ascending_lists_agree<T: Ordered>(a: Seq<T::V>, b: Seq<T::V>)
    requires
        ascending::<T>(a),
        ascending::<T>(b),
        a.to_set() == b.to_set(),
    ensures
        a == b,
    decreases a.len(),
{
    if a.len() == 0 {
        if b.len() > 0 {
            assert(b.to_set().contains(b[0]));
            assert(a.to_set().contains(b[0]));
        }
        assert(a =~= b);
    } else {
        let last = a.len() - 1;
        assert(a.to_set().contains(a[last]));
        assert(b.to_set().contains(a[last]));
        let at = choose|j: int| 0 <= j < b.len() && b[j] == a[last];
        let end = b.len() - 1;
        assert(b.to_set().contains(b[end]));
        assert(a.to_set().contains(b[end]));
        let of = choose|i: int| 0 <= i < a.len() && a[i] == b[end];
        if at < end {
            assert(precedes(T::key(b[at]), T::key(b[end])));
            if of < last {
                assert(precedes(T::key(a[of]), T::key(a[last])));
                precedes_is_transitive(T::key(a[last]), T::key(b[end]), T::key(a[last]));
            }
            precedes_is_irreflexive(T::key(a[last]));
        }
        assert(a[last] == b[end]);
        let c = a.drop_last();
        let d = b.drop_last();
        assert forall|x: T::V| c.to_set().contains(x) <==> d.to_set().contains(x) by {
            if c.to_set().contains(x) {
                let i = choose|i: int| 0 <= i < c.len() && c[i] == x;
                assert(a[i] == x);
                assert(precedes(T::key(a[i]), T::key(a[last])));
                precedes_is_irreflexive(T::key(x));
                assert(a.to_set().contains(x));
                assert(b.to_set().contains(x));
                let j = choose|j: int| 0 <= j < b.len() && b[j] == x;
                assert(d[j] == x);
            }
            if d.to_set().contains(x) {
                let j = choose|j: int| 0 <= j < d.len() && d[j] == x;
                assert(b[j] == x);
                assert(precedes(T::key(b[j]), T::key(b[end])));
                precedes_is_irreflexive(T::key(x));
                assert(b.to_set().contains(x));
                assert(a.to_set().contains(x));
                let i = choose|i: int| 0 <= i < a.len() && a[i] == x;
                assert(c[i] == x);
            }
        }
        assert(c.to_set() =~= d.to_set());
        assert(ascending::<T>(c)) by {
            assert forall|i: int, j: int| 0 <= i < j < c.len() implies precedes(
                #[trigger] T::key(c[i]),
                #[trigger] T::key(c[j]),
            ) by {
                assert(precedes(T::key(a[i]), T::key(a[j])));
            }
        }
        assert(ascending::<T>(d)) by {
            assert forall|i: int, j: int| 0 <= i < j < d.len() implies precedes(
                #[trigger] T::key(d[i]),
                #[trigger] T::key(d[j]),
            ) by {
                assert(precedes(T::key(b[i]), T::key(b[j])));
            }
        }
        ascending_lists_agree::<T>(c, d);
        assert(a == c.push(a[last]));
        assert(b == d.push(b[end]));
    }
}

/// An ascending list is the listing of its members.
pub proof fn ascending_list_is_listing<T: Ordered>(list: Seq<T::V>)
    requires
        ascending::<T>(list),
    ensures
        listing::<T>(list.to_set()) == list,
{
    let chosen = listing::<T>(list.to_set());
    assert(ascending::<T>(chosen) && chosen.to_set() == list.to_set());
    ascending_lists_agree::<T>(chosen, list);
}

/// A list with one more member, in front of the first member that it precedes.
spec fn placed<T: Ordered>(list: Seq<T::V>, member: T::V) -> Seq<T::V>
    decreases list.len(),
{
    if list.len() == 0 || precedes(T::key(member), T::key(list.first())) {
        seq![member] + list
    } else {
        seq![list.first()] + placed::<T>(list.skip(1), member)
    }
}

proof fn lemma_placed<T: Ordered>(list: Seq<T::V>, member: T::V)
    requires
        ascending::<T>(list),
        !list.contains(member),
    ensures
        ascending::<T>(placed::<T>(list, member)),
        forall|x: T::V| #[trigger]
            placed::<T>(list, member).contains(x) <==> x == member || list.contains(x),
    decreases list.len(),
{
    let result = placed::<T>(list, member);
    let key = T::key(member);
    if list.len() == 0 || precedes(key, T::key(list.first())) {
        assert forall|i: int, j: int| 0 <= i < j < result.len() implies precedes(
            #[trigger] T::key(result[i]),
            #[trigger] T::key(result[j]),
        ) by {
            if i == 0 {
                if j > 1 {
                    assert(precedes(T::key(list[0]), T::key(list[j - 1])));
                    precedes_is_transitive(key, T::key(list[0]), T::key(list[j - 1]));
                }
            } else {
                assert(precedes(T::key(list[i - 1]), T::key(list[j - 1])));
            }
        }
        assert forall|x: T::V| #[trigger] result.contains(x) <==> x == member || list.contains(x) by {
            assert(result[0] == member);
            if list.contains(x) {
                let i = choose|i: int| 0 <= i < list.len() && list[i] == x;
                assert(result[i + 1] == x);
            }
            if result.contains(x) && x != member {
                let i = choose|i: int| 0 <= i < result.len() && result[i] == x;
                assert(list[i - 1] == x);
            }
        }
    } else {
        let rest = list.skip(1);
        let tail = placed::<T>(rest, member);
        let first = list.first();
        assert(ascending::<T>(rest)) by {
            assert forall|i: int, j: int| 0 <= i < j < rest.len() implies precedes(
                #[trigger] T::key(rest[i]),
                #[trigger] T::key(rest[j]),
            ) by {
                assert(precedes(T::key(list[i + 1]), T::key(list[j + 1])));
            }
        }
        assert forall|x: T::V| rest.contains(x) implies list.contains(x) by {
            let i = choose|i: int| 0 <= i < rest.len() && rest[i] == x;
            assert(list[i + 1] == x);
        }
        lemma_placed::<T>(rest, member);
        assert(precedes(T::key(first), key)) by {
            precedes_is_total(T::key(first), key);
            if T::key(first) == key {
                T::keys_differ(first, member);
                assert(list[0] == member);
            }
        }
        assert forall|i: int, j: int| 0 <= i < j < result.len() implies precedes(
            #[trigger] T::key(result[i]),
            #[trigger] T::key(result[j]),
        ) by {
            if i == 0 {
                assert(tail.contains(tail[j - 1]));
                if tail[j - 1] != member {
                    let k = choose|k: int| 0 <= k < rest.len() && rest[k] == tail[j - 1];
                    assert(precedes(T::key(list[0]), T::key(list[k + 1])));
                }
            } else {
                assert(precedes(T::key(tail[i - 1]), T::key(tail[j - 1])));
            }
        }
        assert forall|x: T::V| #[trigger] result.contains(x) <==> x == member || list.contains(x) by {
            assert(result[0] == first);
            if tail.contains(x) {
                let i = choose|i: int| 0 <= i < tail.len() && tail[i] == x;
                assert(result[i + 1] == x);
            }
            if list.contains(x) && x != first {
                let i = choose|i: int| 0 <= i < list.len() && list[i] == x;
                assert(rest[i - 1] == x);
            }
            if result.contains(x) && x != first {
                let i = choose|i: int| 0 <= i < result.len() && result[i] == x;
                assert(tail[i - 1] == x);
            }
        }
    }
}

/// Every finite set has a listing: its members, each once, in ascending order.
pub proof fn finite_sets_have_listings<T: Ordered>(set: Set<T::V>)
    requires
        set.finite(),
    ensures
        ascending::<T>(listing::<T>(set)),
        listing::<T>(set).to_set() == set,
        listing::<T>(set).no_duplicates(),
    decreases set.len(),
{
    if set.len() == 0 {
        let list = Seq::<T::V>::empty();
        assert(set =~= Set::empty());
        assert(list.to_set() =~= set);
        assert(ascending::<T>(list));
    } else {
        let member = set.choose();
        let fewer = set.remove(member);
        finite_sets_have_listings::<T>(fewer);
        let before = listing::<T>(fewer);
        assert(!before.contains(member)) by {
            assert(!before.to_set().contains(member));
        }
        lemma_placed::<T>(before, member);
        let list = placed::<T>(before, member);
        assert forall|x: T::V| list.to_set().contains(x) <==> set.contains(x) by {
            assert(list.contains(x) <==> x == member || before.contains(x));
            assert(before.to_set().contains(x) <==> fewer.contains(x));
        }
        assert(list.to_set() =~= set);
    }
    let list = listing::<T>(set);
    assert(ascending::<T>(list) && list.to_set() == set);
    assert forall|i: int, j: int| 0 <= i < list.len() && 0 <= j < list.len() && i != j implies list[i]
        != list[j] by {
        let (low, high) = if i < j { (i, j) } else { (j, i) };
        assert(precedes(T::key(list[low]), T::key(list[high])));
        precedes_is_irreflexive(T::key(list[low]));
    }
}

/// A set that hands out its members in ascending order of their keys, each once.
#[derive(Debug)]
pub struct OrderedSet<T: Ordered> {
    members: Vec<T>,
}

impl<T: Ordered> View for OrderedSet<T> {
    type V = Set<T::V>;

    closed spec fn view(&self) -> Set<T::V> {
        models(self.members@).to_set()
    }
}

impl<T: Ordered> OrderedSet<T> {
    #[verifier::type_invariant]
    spec fn well_formed(&self) -> bool {
        ascending::<T>(models(self.members@))
    }

    /// The set without members.
    pub fn new() -> (set: Self)
        ensures
            set@ == Set::<T::V>::empty(),
    {
        let set = OrderedSet { members: Vec::new() };
        assert(set@ =~= Set::<T::V>::empty());
        set
    }

    /// The members, in ascending order.
    pub fn members(&self) -> (members: &Vec<T>)
        ensures
            models(members@) == listing::<T>(self@),
            models(members@).to_set() == self@,
            ascending::<T>(models(members@)),
            self@.finite(),
    {
        proof {
            use_type_invariant(self);
            ascending_list_is_listing::<T>(models(self.members@));
        }
        &self.members
    }

    /// The first position whose member does not come before `member`, and whether it holds it.
    fn position(members: &Vec<T>, member: &T) -> (found: (usize, bool))
        requires
            ascending::<T>(models(members@)),
        ensures
            found.0 <= members.len(),
            forall|i: int|
                0 <= i < found.0 ==> precedes(#[trigger] T::key(models(members@)[i]), T::key(member@)),
            found.1 ==> found.0 < members.len() && models(members@)[found.0 as int] == member@,
            !found.1 ==> forall|i: int|
                found.0 <= i < members.len() ==> precedes(
                    T::key(member@),
                    #[trigger] T::key(models(members@)[i]),
                ),
            found.1 == models(members@).contains(member@),
    {
        let key = member.sort_key();
        let ghost list = models(members@);
        let mut at: usize = 0;
        while at < members.len()
            invariant
                at <= members.len(),
                list == models(members@),
                ascending::<T>(list),
                key@ == T::key(member@),
                forall|i: int|
                    0 <= i < at ==> precedes(#[trigger] T::key(list[i]), T::key(member@)),
            decreases members.len() - at,
        {
            let other = members[at].sort_key();
            assert(other@ == T::key(list[at as int]));
            match standing(&other, &key) {
                Standing::Before => {
                    at += 1;
                },
                Standing::Same => {
                    proof {
                        T::keys_differ(list[at as int], member@);
                        assert(list.contains(member@));
                    }
                    return (at, true);
                },
                Standing::After => {
                    assert forall|i: int| at <= i < members.len() implies precedes(
                        T::key(member@),
                        #[trigger] T::key(list[i]),
                    ) by {
                        if at < i {
                            precedes_is_transitive(
                                T::key(member@),
                                T::key(list[at as int]),
                                T::key(list[i]),
                            );
                        }
                    }
                    proof {
                        precedes_is_irreflexive(T::key(member@));
                    }
                    assert(!list.contains(member@)) by {
                        if list.contains(member@) {
                            let i = choose|i: int| 0 <= i < list.len() && list[i] == member@;
                            assert(precedes(T::key(list[i]), T::key(list[i])));
                        }
                    }
                    return (at, false);
                },
            }
        }
        proof {
            precedes_is_irreflexive(T::key(member@));
        }
        assert(!list.contains(member@)) by {
            if list.contains(member@) {
                let i = choose|i: int| 0 <= i < list.len() && list[i] == member@;
                assert(precedes(T::key(list[i]), T::key(list[i])));
            }
        }
        (at, false)
    }

    /// Whether the set has this member.
    pub fn contains(&self, member: &T) -> (found: bool)
        ensures
            found == self@.contains(member@),
    {
        proof {
            use_type_invariant(self);
        }
        Self::position(&self.members, member).1
    }

    /// Adds a member, and says whether the set did not have it before.
    pub fn insert(&mut self, member: T) -> (added: bool)
        ensures
            final(self)@ == old(self)@.insert(member@),
            added == !old(self)@.contains(member@),
    {
        proof {
            use_type_invariant(&*self);
        }
        let mut members: Vec<T> = Vec::new();
        std::mem::swap(&mut members, &mut self.members);
        let (at, found) = Self::position(&members, &member);
        let ghost before = models(members@);
        let ghost model = member@;
        if !found {
            members.insert(at, member);
            proof {
                let after = models(members@);
                assert(after =~= before.insert(at as int, model));
                assert(ascending::<T>(after)) by {
                    assert forall|i: int, j: int| 0 <= i < j < after.len() implies precedes(
                        #[trigger] T::key(after[i]),
                        #[trigger] T::key(after[j]),
                    ) by {
                        let p = if i < at { i } else { i - 1 };
                        let q = if j < at { j } else { j - 1 };
                        if i == at {
                            assert(precedes(T::key(model), T::key(before[q])));
                        } else if j == at {
                            assert(precedes(T::key(before[p]), T::key(model)));
                        } else {
                            assert(precedes(T::key(before[p]), T::key(before[q])));
                        }
                    }
                }
                assert forall|x: T::V| after.contains(x) <==> x == model || before.contains(x) by {
                    assert(after[at as int] == model);
                    if before.contains(x) {
                        let i = choose|i: int| 0 <= i < before.len() && before[i] == x;
                        assert(after[if i < at { i } else { i + 1 }] == x);
                    }
                    if after.contains(x) && x != model {
                        let i = choose|i: int| 0 <= i < after.len() && after[i] == x;
                        assert(before[if i < at { i } else { i - 1 }] == x);
                    }
                }
            }
        }
        self.members = members;
        assert(self@ =~= old(self)@.insert(model));
        !found
    }

    /// Adds all members of `other`.
    pub fn append(&mut self, other: Self)
        ensures
            final(self)@ == old(self)@.union(other@),
    {
        let mut rest = other.members;
        let ghost all = models(rest@);
        let ghost before = self@;
        assert(all.skip(rest.len() as int).to_set() =~= Set::<T::V>::empty());
        assert(self@ =~= before.union(all.skip(rest.len() as int).to_set()));
        loop
            invariant
                rest.len() <= all.len(),
                models(rest@) == all.take(rest.len() as int),
                self@ == before.union(all.skip(rest.len() as int).to_set()),
            ensures
                self@ == before.union(all.to_set()),
            decreases rest.len(),
        {
            let ghost left = rest.len() as int;
            match rest.pop() {
                Some(member) => {
                    let ghost model = member@;
                    self.insert(member);
                    assert(rest.len() == left - 1);
                    assert(model == all[left - 1]) by {
                        assert(all.take(left)[left - 1] == all[left - 1]);
                    }
                    assert(models(rest@) =~= all.take(left - 1));
                    let ghost done = all.skip(left);
                    let ghost grown = all.skip(left - 1);
                    assert(grown[0] == model);
                    assert forall|x: T::V| grown.contains(x) <==> done.contains(x) || x == model by {
                        if done.contains(x) {
                            let i = choose|i: int| 0 <= i < done.len() && done[i] == x;
                            assert(grown[i + 1] == x);
                        }
                        if grown.contains(x) && x != model {
                            let i = choose|i: int| 0 <= i < grown.len() && grown[i] == x;
                            assert(done[i - 1] == x);
                        }
                    }
                    assert(self@ =~= before.union(all.skip(left - 1).to_set()));
                },
                None => {
                    assert(all.skip(0) =~= all);
                    break;
                },
            }
        }
    }
}

} // verus!
