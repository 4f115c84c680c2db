use vstd::prelude::*;
use crate::search::{first_index, lemma_first_index};

verus! {

/// A structural change to a live schema whose items are keyed by name:
/// remove the item of a name, or put an item in under its name.
pub enum Change<T> {
    Drop(Seq<char>),
    Put(T),
}

/// What a reconciler is parameterised by: how an item is named, whether a
/// changed item is dropped before it is put back, and the one live name
/// that is never visited.
#[verifier::reject_recursive_types(T)]
pub struct Rules<T> {
    pub name_of: spec_fn(T) -> Seq<char>,
    pub drop_then_put: bool,
    pub skipped: Option<Seq<char>>,
}

pub open spec fn unique_names<T>(name_of: spec_fn(T) -> Seq<char>, s: Seq<T>) -> bool {
    forall|i: int, j: int| 0 <= i < s.len() && 0 <= j < s.len() && i != j ==> name_of(#[trigger] s[i]) != name_of(#[trigger] s[j])
}

/// Whether an item bears the name `n`.
pub open spec fn named<T>(name_of: spec_fn(T) -> Seq<char>, n: Seq<char>) -> spec_fn(T) -> bool {
    |d: T| name_of(d) == n
}

/// The declared item of name `n`.
pub open spec fn find_named<T>(name_of: spec_fn(T) -> Seq<char>, declared: Seq<T>, n: Seq<char>) -> Option<T> {
    match first_index(declared, named(name_of, n)) {
        Some(i) => Some(declared[i]),
        None => None,
    }
}

pub open spec fn is_skipped<T>(rules: Rules<T>, l: T) -> bool {
    rules.skipped == Some((rules.name_of)(l))
}

/// The changes for one live item: none for the skipped name; a drop where
/// nothing of its name is declared; nothing where the declared item equals
/// it; else the declared item, put back (after a drop, where the rules say
/// so).
pub open spec fn item_changes<T>(rules: Rules<T>, declared: Seq<T>, l: T) -> Seq<Change<T>> {
    let n = (rules.name_of)(l);
    if is_skipped(rules, l) {
        Seq::empty()
    } else {
        match find_named(rules.name_of, declared, n) {
            None => seq![Change::Drop(n)],
            Some(d) => if d == l {
                Seq::empty()
            } else if rules.drop_then_put {
                seq![Change::Drop(n), Change::Put(d)]
            } else {
                seq![Change::Put(d)]
            },
        }
    }
}

pub open spec fn live_changes<T>(rules: Rules<T>, declared: Seq<T>, live: Seq<T>) -> Seq<Change<T>>
    decreases live.len(),
{
    if live.len() == 0 {
        Seq::empty()
    } else {
        live_changes(rules, declared, live.drop_last()) + item_changes(rules, declared, live.last())
    }
}

/// The names of the live items that were visited.
pub open spec fn visited<T>(rules: Rules<T>, live: Seq<T>) -> Set<Seq<char>> {
    Set::new(|n: Seq<char>| exists|i: int| 0 <= i < live.len() && !is_skipped(rules, live[i]) && (rules.name_of)(#[trigger] live[i]) == n)
}

/// Puts for the declared items whose names were not visited, in order.
pub open spec fn missing_changes<T>(rules: Rules<T>, declared: Seq<T>, rv: Set<Seq<char>>) -> Seq<Change<T>>
    decreases declared.len(),
{
    if declared.len() == 0 {
        Seq::empty()
    } else {
        missing_changes(rules, declared.drop_last(), rv) + if rv.contains((rules.name_of)(declared.last())) {
            Seq::empty()
        } else {
            seq![Change::Put(declared.last())]
        }
    }
}

/// The changes that bring the live items to the declared ones.
pub open spec fn reconcile_changes<T>(rules: Rules<T>, declared: Seq<T>, live: Seq<T>) -> Seq<Change<T>> {
    live_changes(rules, declared, live) + missing_changes(rules, declared, visited(rules, live))
}

/// The live schema as a map from name to item.
pub open spec fn state_of<T>(name_of: spec_fn(T) -> Seq<char>, live: Seq<T>) -> Map<Seq<char>, T>
    decreases live.len(),
{
    if live.len() == 0 {
        Map::empty()
    } else {
        state_of(name_of, live.drop_last()).insert(name_of(live.last()), live.last())
    }
}

pub open spec fn apply_change<T>(name_of: spec_fn(T) -> Seq<char>, st: Map<Seq<char>, T>, c: Change<T>) -> Map<Seq<char>, T> {
    match c {
        Change::Drop(n) => st.remove(n),
        Change::Put(x) => st.insert(name_of(x), x),
    }
}

/// The schema after the changes, made in order.
pub open spec fn apply_changes<T>(name_of: spec_fn(T) -> Seq<char>, st: Map<Seq<char>, T>, cs: Seq<Change<T>>) -> Map<Seq<char>, T>
    decreases cs.len(),
{
    if cs.len() == 0 {
        st
    } else {
        apply_change(name_of, apply_changes(name_of, st, cs.drop_last()), cs.last())
    }
}

pub open spec fn about<T>(name_of: spec_fn(T) -> Seq<char>, c: Change<T>, n: Seq<char>) -> bool {
    match c {
        Change::Drop(m) => m == n,
        Change::Put(x) => name_of(x) == n,
    }
}

/// The last change that concerns the name `n`.
pub open spec fn last_about<T>(name_of: spec_fn(T) -> Seq<char>, cs: Seq<Change<T>>, n: Seq<char>) -> Option<Change<T>>
    decreases cs.len(),
{
    if cs.len() == 0 {
        None
    } else if about(name_of, cs.last(), n) {
        Some(cs.last())
    } else {
        last_about(name_of, cs.drop_last(), n)
    }
}

pub open spec fn outcome<T>(c: Option<Change<T>>, before: Option<T>) -> Option<T> {
    match c {
        None => before,
        Some(Change::Drop(_)) => None,
        Some(Change::Put(x)) => Some(x),
    }
}

pub open spec fn get<T>(m: Map<Seq<char>, T>, n: Seq<char>) -> Option<T> {
    if m.contains_key(n) {
        Some(m[n])
    } else {
        None
    }
}

proof fn lemma_apply_by_name<T>(name_of: spec_fn(T) -> Seq<char>, st: Map<Seq<char>, T>, cs: Seq<Change<T>>, n: Seq<char>)
    ensures
        get(apply_changes(name_of, st, cs), n) == outcome(last_about(name_of, cs, n), get(st, n)),
    decreases cs.len(),
{
    if cs.len() > 0 {
        lemma_apply_by_name(name_of, st, cs.drop_last(), n);
    }
}

proof fn lemma_last_about_concat<T>(name_of: spec_fn(T) -> Seq<char>, a: Seq<Change<T>>, b: Seq<Change<T>>, n: Seq<char>)
    ensures
        last_about(name_of, a + b, n) == match last_about(name_of, b, n) {
            Some(c) => Some(c),
            None => last_about(name_of, a, n),
        },
    decreases b.len(),
{
    if b.len() == 0 {
        assert(a + b =~= a);
    } else {
        assert((a + b).drop_last() =~= a + b.drop_last());
        assert((a + b).last() == b.last());
        lemma_last_about_concat(name_of, a, b.drop_last(), n);
    }
}

proof fn lemma_item_changes_about<T>(rules: Rules<T>, declared: Seq<T>, l: T, n: Seq<char>)
    ensures
        (rules.name_of)(l) != n ==> last_about(rules.name_of, item_changes(rules, declared, l), n) is None,
        (rules.name_of)(l) == n ==> outcome(last_about(rules.name_of, item_changes(rules, declared, l), n), Some(l))
            == if is_skipped(rules, l) { Some(l) } else { find_named(rules.name_of, declared, n) },
{
    let cs = item_changes(rules, declared, l);
    reveal_with_fuel(last_about, 3);
    let n0 = (rules.name_of)(l);
    lemma_first_index(declared, named(rules.name_of, n0));
    if cs.len() == 2 {
        assert(cs.drop_last() =~= seq![cs[0]]);
        assert(seq![cs[0]].drop_last() =~= Seq::<Change<T>>::empty());
    } else if cs.len() == 1 {
        assert(cs.drop_last() =~= Seq::<Change<T>>::empty());
    }
}

/// The live item named `n`, where the names are unique.
pub open spec fn live_named<T>(name_of: spec_fn(T) -> Seq<char>, live: Seq<T>, n: Seq<char>) -> Option<T> {
    if exists|i: int| 0 <= i < live.len() && name_of(#[trigger] live[i]) == n {
        Some(live[choose|i: int| 0 <= i < live.len() && name_of(#[trigger] live[i]) == n])
    } else {
        None
    }
}

proof fn lemma_live_named_unique<T>(name_of: spec_fn(T) -> Seq<char>, live: Seq<T>, i: int)
    requires
        unique_names(name_of, live),
        0 <= i < live.len(),
    ensures
        live_named(name_of, live, name_of(live[i])) == Some(live[i]),
{
    let n = name_of(live[i]);
    let k = choose|k: int| 0 <= k < live.len() && name_of(#[trigger] live[k]) == n;
    assert(k == i);
}

proof fn lemma_live_changes_about<T>(rules: Rules<T>, declared: Seq<T>, live: Seq<T>, n: Seq<char>)
    requires
        unique_names(rules.name_of, live),
    ensures
        outcome(last_about(rules.name_of, live_changes(rules, declared, live), n), live_named(rules.name_of, live, n))
            == match live_named(rules.name_of, live, n) {
            None => None,
            Some(l) => if is_skipped(rules, l) { Some(l) } else { find_named(rules.name_of, declared, n) },
        },
        live_named(rules.name_of, live, n) is None ==> last_about(rules.name_of, live_changes(rules, declared, live), n) is None,
    decreases live.len(),
{
    if live.len() > 0 {
        let init = live.drop_last();
        let l = live.last();
        assert forall|i: int, j: int| 0 <= i < init.len() && 0 <= j < init.len() && i != j implies (rules.name_of)(#[trigger] init[i])
            != (rules.name_of)(#[trigger] init[j]) by {
            assert(init[i] == live[i] && init[j] == live[j]);
        }
        lemma_live_changes_about(rules, declared, init, n);
        lemma_last_about_concat(rules.name_of, live_changes(rules, declared, init), item_changes(rules, declared, l), n);
        lemma_item_changes_about(rules, declared, l, n);
        if (rules.name_of)(l) == n {
            lemma_live_named_unique(rules.name_of, live, live.len() - 1);
            assert forall|i: int| 0 <= i < init.len() implies (rules.name_of)(#[trigger] init[i]) != n by {
                assert(init[i] == live[i]);
            }
            assert(live_named(rules.name_of, init, n) is None);
        } else {
            if live_named(rules.name_of, init, n) is Some {
                let i = choose|i: int| 0 <= i < init.len() && (rules.name_of)(#[trigger] init[i]) == n;
                assert(init[i] == live[i]);
                lemma_live_named_unique(rules.name_of, init, i);
                lemma_live_named_unique(rules.name_of, live, i);
            } else {
                assert forall|i: int| 0 <= i < live.len() implies (rules.name_of)(#[trigger] live[i]) != n by {
                    if i < init.len() {
                        assert(init[i] == live[i]);
                    }
                }
            }
        }
    }
}

proof fn lemma_missing_changes_about<T>(rules: Rules<T>, declared: Seq<T>, rv: Set<Seq<char>>, n: Seq<char>)
    requires
        unique_names(rules.name_of, declared),
    ensures
        last_about(rules.name_of, missing_changes(rules, declared, rv), n) == if !rv.contains(n)
            && find_named(rules.name_of, declared, n) is Some {
            Some(Change::Put(find_named(rules.name_of, declared, n)->Some_0))
        } else {
            None
        },
    decreases declared.len(),
{
    let p = named(rules.name_of, n);
    lemma_first_index(declared, p);
    if declared.len() > 0 {
        let init = declared.drop_last();
        let d = declared.last();
        assert forall|i: int, j: int| 0 <= i < init.len() && 0 <= j < init.len() && i != j implies (rules.name_of)(#[trigger] init[i])
            != (rules.name_of)(#[trigger] init[j]) by {
            assert(init[i] == declared[i] && init[j] == declared[j]);
        }
        lemma_missing_changes_about(rules, init, rv, n);
        lemma_first_index(init, p);
        let tail = if rv.contains((rules.name_of)(d)) {
            Seq::<Change<T>>::empty()
        } else {
            seq![Change::Put(d)]
        };
        lemma_last_about_concat(rules.name_of, missing_changes(rules, init, rv), tail, n);
        reveal_with_fuel(last_about, 2);
        if tail.len() == 1 {
            assert(tail.drop_last() =~= Seq::<Change<T>>::empty());
        }
        if (rules.name_of)(d) == n {
            assert forall|i: int| 0 <= i < init.len() implies !p(#[trigger] init[i]) by {
                assert(init[i] == declared[i]);
            }
            crate::search::lemma_first_index_at(declared, p, declared.len() - 1);
        } else {
            match first_index(init, p) {
                Some(i) => {
                    assert(init[i] == declared[i]);
                    assert forall|j: int| 0 <= j < i implies !p(#[trigger] declared[j]) by {
                        assert(init[j] == declared[j]);
                    }
                    crate::search::lemma_first_index_at(declared, p, i);
                },
                None => {
                    assert forall|j: int| 0 <= j < declared.len() implies !p(#[trigger] declared[j]) by {
                        if j < init.len() {
                            assert(init[j] == declared[j]);
                        }
                    }
                    crate::search::lemma_first_index_none(declared, p);
                },
            }
        }
    }
}

proof fn lemma_state_of<T>(name_of: spec_fn(T) -> Seq<char>, live: Seq<T>, n: Seq<char>)
    requires
        unique_names(name_of, live),
    ensures
        get(state_of(name_of, live), n) == live_named(name_of, live, n),
    decreases live.len(),
{
    if live.len() > 0 {
        let init = live.drop_last();
        assert forall|i: int, j: int| 0 <= i < init.len() && 0 <= j < init.len() && i != j implies name_of(#[trigger] init[i])
            != name_of(#[trigger] init[j]) by {
            assert(init[i] == live[i] && init[j] == live[j]);
        }
        lemma_state_of(name_of, init, n);
        if name_of(live.last()) == n {
            lemma_live_named_unique(name_of, live, live.len() - 1);
        } else if live_named(name_of, init, n) is Some {
            let i = choose|i: int| 0 <= i < init.len() && name_of(#[trigger] init[i]) == n;
            assert(init[i] == live[i]);
            lemma_live_named_unique(name_of, init, i);
            lemma_live_named_unique(name_of, live, i);
        } else {
            assert forall|i: int| 0 <= i < live.len() implies name_of(#[trigger] live[i]) != n by {
                if i < init.len() {
                    assert(init[i] == live[i]);
                }
            }
        }
    }
}

/// A declared item of unique name is what `find_named` finds.
proof fn lemma_find_named<T>(name_of: spec_fn(T) -> Seq<char>, declared: Seq<T>, i: int)
    requires
        unique_names(name_of, declared),
        0 <= i < declared.len(),
    ensures
        find_named(name_of, declared, name_of(declared[i])) == Some(declared[i]),
{
    let n = name_of(declared[i]);
    let p = named(name_of, n);
    lemma_first_index(declared, p);
    match first_index(declared, p) {
        Some(k) => {
            if k != i {
                assert(name_of(declared[k]) != name_of(declared[i]));
            }
        },
        None => {
            assert(!p(declared[i]));
        },
    }
}

/// Per name, the schema that the changes leave behind holds the declared
/// item, or, for a name that is neither visited nor declared, what it held.
proof fn lemma_reconciled_state<T>(rules: Rules<T>, declared: Seq<T>, live: Seq<T>, n: Seq<char>)
    requires
        unique_names(rules.name_of, declared),
        unique_names(rules.name_of, live),
    ensures
        get(apply_changes(rules.name_of, state_of(rules.name_of, live), reconcile_changes(rules, declared, live)), n)
            == if visited(rules, live).contains(n) || find_named(rules.name_of, declared, n) is Some {
            find_named(rules.name_of, declared, n)
        } else {
            live_named(rules.name_of, live, n)
        },
{
    let lc = live_changes(rules, declared, live);
    let rv = visited(rules, live);
    let mc = missing_changes(rules, declared, rv);
    lemma_apply_by_name(rules.name_of, state_of(rules.name_of, live), lc + mc, n);
    lemma_last_about_concat(rules.name_of, lc, mc, n);
    lemma_missing_changes_about(rules, declared, rv, n);
    lemma_live_changes_about(rules, declared, live, n);
    lemma_state_of(rules.name_of, live, n);
    if live_named(rules.name_of, live, n) is Some {
        let i = choose|i: int| 0 <= i < live.len() && (rules.name_of)(#[trigger] live[i]) == n;
        lemma_live_named_unique(rules.name_of, live, i);
        if !is_skipped(rules, live[i]) {
            assert(rv.contains(n));
        } else {
            if rv.contains(n) {
                let k = choose|k: int| 0 <= k < live.len() && !is_skipped(rules, live[k]) && (rules.name_of)(#[trigger] live[k]) == n;
                assert(k == i);
            }
        }
    } else {
        if rv.contains(n) {
            let k = choose|k: int| 0 <= k < live.len() && !is_skipped(rules, live[k]) && (rules.name_of)(#[trigger] live[k]) == n;
            assert(false);
        }
    }
}

proof fn lemma_live_changes_empty<T>(rules: Rules<T>, declared: Seq<T>, live: Seq<T>)
    requires
        forall|i: int| 0 <= i < live.len() ==> #[trigger] item_changes(rules, declared, live[i]).len() == 0,
    ensures
        live_changes(rules, declared, live).len() == 0,
    decreases live.len(),
{
    if live.len() > 0 {
        let init = live.drop_last();
        assert forall|i: int| 0 <= i < init.len() implies #[trigger] item_changes(rules, declared, init[i]).len() == 0 by {
            assert(init[i] == live[i]);
        }
        lemma_live_changes_empty(rules, declared, init);
        assert(item_changes(rules, declared, live[live.len() - 1]).len() == 0);
    }
}

proof fn lemma_missing_changes_empty<T>(rules: Rules<T>, declared: Seq<T>, rv: Set<Seq<char>>)
    requires
        forall|i: int| 0 <= i < declared.len() ==> rv.contains((rules.name_of)(#[trigger] declared[i])),
    ensures
        missing_changes(rules, declared, rv).len() == 0,
    decreases declared.len(),
{
    if declared.len() > 0 {
        let init = declared.drop_last();
        assert forall|i: int| 0 <= i < init.len() implies rv.contains((rules.name_of)(#[trigger] init[i])) by {
            assert(init[i] == declared[i]);
        }
        lemma_missing_changes_empty(rules, init, rv);
        assert(rv.contains((rules.name_of)(declared[declared.len() - 1])));
    }
}

/// Reconciliation is idempotent: once the changes that reconciliation asks
/// for have been made, reconciling the declared items against any listing
/// of the resulting schema asks for no change at all. Names are unique in
/// the declared items and in each listing, and no declared item bears the
/// name that is never visited.
pub proof fn lemma_reconcile_idempotent<T>(rules: Rules<T>, declared: Seq<T>, live: Seq<T>, relisted: Seq<T>)
    requires
        unique_names(rules.name_of, declared),
        unique_names(rules.name_of, live),
        unique_names(rules.name_of, relisted),
        forall|i: int| 0 <= i < declared.len() ==> !is_skipped(rules, #[trigger] declared[i]),
        state_of(rules.name_of, relisted) == apply_changes(
            rules.name_of,
            state_of(rules.name_of, live),
            reconcile_changes(rules, declared, live),
        ),
    ensures
        reconcile_changes(rules, declared, relisted) == Seq::<Change<T>>::empty(),
{
    let name_of = rules.name_of;
    assert forall|i: int| 0 <= i < relisted.len() implies #[trigger] item_changes(rules, declared, relisted[i]).len() == 0 by {
        let l = relisted[i];
        let n = name_of(l);
        lemma_state_of(name_of, relisted, n);
        lemma_live_named_unique(name_of, relisted, i);
        lemma_reconciled_state(rules, declared, live, n);
        if !is_skipped(rules, l) {
            if !(visited(rules, live).contains(n) || find_named(name_of, declared, n) is Some) {
                lemma_live_named_unique(name_of, live, choose|k: int| 0 <= k < live.len() && name_of(#[trigger] live[k]) == n);
                let k = choose|k: int| 0 <= k < live.len() && name_of(#[trigger] live[k]) == n;
                assert(!is_skipped(rules, live[k]));
                assert(visited(rules, live).contains(n));
            }
        }
    }
    lemma_live_changes_empty(rules, declared, relisted);
    let rv2 = visited(rules, relisted);
    assert forall|i: int| 0 <= i < declared.len() implies rv2.contains(name_of(#[trigger] declared[i])) by {
        let d = declared[i];
        let n = name_of(d);
        lemma_find_named(name_of, declared, i);
        lemma_reconciled_state(rules, declared, live, n);
        lemma_state_of(name_of, relisted, n);
        let k = choose|k: int| 0 <= k < relisted.len() && name_of(#[trigger] relisted[k]) == n;
        assert(!is_skipped(rules, relisted[k]));
    }
    lemma_missing_changes_empty(rules, declared, rv2);
    assert(reconcile_changes(rules, declared, relisted) =~= Seq::<Change<T>>::empty());
}

} // verus!
