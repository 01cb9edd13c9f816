//! Lists kept in the order of their names.

use vstd::prelude::*;

use crate::text::sorts_before;

verus! {

/// The first position at or after `from` whose name does not sort before
/// `name`.
pub open spec fn slot_from(names: Seq<Seq<char>>, name: Seq<char>, from: int) -> int
    decreases names.len() - from,
{
    if from < 0 || from >= names.len() || !sorts_before(names[from], name) {
        from
    } else {
        slot_from(names, name, from + 1)
    }
}

/// Where `name` belongs in an ascending list of names.
pub open spec fn slot(names: Seq<Seq<char>>, name: Seq<char>) -> int {
    slot_from(names, name, 0)
}

/// Whether `name` stands where it belongs.
pub open spec fn holds(names: Seq<Seq<char>>, name: Seq<char>) -> bool {
    slot(names, name) < names.len() && names[slot(names, name)] == name
}

/// `things`, which are called `names`, with `thing` in the place of the one
/// called `name`, or added where it belongs if there is none.
pub open spec fn put<T>(
    names: Seq<Seq<char>>,
    things: Seq<T>,
    name: Seq<char>,
    thing: T,
) -> Seq<T> {
    if holds(names, name) {
        things.update(slot(names, name), thing)
    } else {
        things.insert(slot(names, name), thing)
    }
}

/// Whether each name sorts before all that follow it. No name then occurs
/// twice.
pub open spec fn ascending(names: Seq<Seq<char>>) -> bool {
    forall|i: int, j: int|
        0 <= i < j < names.len() ==> sorts_before(#[trigger] names[i], #[trigger] names[j])
}

/// Nothing sorts before itself.
pub proof fn lemma_sorts_irreflexive(a: Seq<char>)
    ensures
        !sorts_before(a, a),
    decreases a.len(),
{
    if a.len() > 0 {
        lemma_sorts_irreflexive(a.skip(1));
    }
}

/// The order is transitive.
pub proof fn lemma_sorts_transitive(a: Seq<char>, b: Seq<char>, c: Seq<char>)
    requires
        sorts_before(a, b),
        sorts_before(b, c),
    ensures
        sorts_before(a, c),
    decreases a.len(),
{
    if a.len() > 0 && a[0] == b[0] && b[0] == c[0] {
        lemma_sorts_transitive(a.skip(1), b.skip(1), c.skip(1));
    }
}

/// Of two texts that differ, one sorts before the other.
pub proof fn lemma_sorts_total(a: Seq<char>, b: Seq<char>)
    ensures
        a == b || sorts_before(a, b) || sorts_before(b, a),
    decreases a.len(),
{
    if a.len() == 0 && b.len() == 0 {
        assert(a =~= b);
    } else if a.len() > 0 && b.len() > 0 && a[0] == b[0] {
        lemma_sorts_total(a.skip(1), b.skip(1));
        if a.skip(1) == b.skip(1) {
            assert(a =~= seq![a[0]] + a.skip(1));
            assert(b =~= seq![b[0]] + b.skip(1));
        }
    }
}

/// All names before the slot sort before the name, and the one in it does not.
pub proof fn lemma_slot_from(names: Seq<Seq<char>>, name: Seq<char>, from: int)
    requires
        0 <= from <= names.len(),
    ensures
        from <= slot_from(names, name, from) <= names.len(),
        forall|i: int|
            from <= i < slot_from(names, name, from) ==> sorts_before(#[trigger] names[i], name),
        slot_from(names, name, from) < names.len() ==> !sorts_before(
            names[slot_from(names, name, from)],
            name,
        ),
    decreases names.len() - from,
{
    if from < names.len() && sorts_before(names[from], name) {
        lemma_slot_from(names, name, from + 1);
    }
}

/// Putting a name into an ascending list leaves it ascending, and the list
/// then holds the name.
pub proof fn lemma_put_ascends(names: Seq<Seq<char>>, name: Seq<char>)
    requires
        ascending(names),
    ensures
        ascending(put(names, names, name, name)),
        0 <= slot(names, name) < put(names, names, name, name).len(),
        put(names, names, name, name)[slot(names, name)] == name,
{
    lemma_slot_from(names, name, 0);
    let p = slot(names, name);
    let out = put(names, names, name, name);
    if holds(names, name) {
        assert(out =~= names);
    } else {
        assert forall|i: int, j: int| 0 <= i < j < out.len() implies sorts_before(
            #[trigger] out[i],
            #[trigger] out[j],
        ) by {
            if j < p {
                assert(out[i] == names[i] && out[j] == names[j]);
            } else if j == p {
                assert(out[i] == names[i]);
            } else if i > p {
                assert(out[i] == names[i - 1] && out[j] == names[j - 1]);
            } else {
                // The name in the slot is neither smaller nor equal, and the
                // ones behind it are larger still.
                assert(out[j] == names[j - 1]);
                lemma_sorts_total(names[p], name);
                if j - 1 > p {
                    assert(sorts_before(names[p], names[j - 1]));
                    lemma_sorts_transitive(name, names[p], names[j - 1]);
                }
                if i < p {
                    assert(out[i] == names[i]);
                    lemma_sorts_transitive(names[i], name, names[j - 1]);
                }
            }
        }
    }
}

/// An ascending list holds a name exactly if it contains it.
pub proof fn lemma_holds(names: Seq<Seq<char>>, name: Seq<char>)
    requires
        ascending(names),
    ensures
        holds(names, name) <==> names.contains(name),
{
    lemma_slot_from(names, name, 0);
    let p = slot(names, name);
    if names.contains(name) {
        let i = choose|i: int| 0 <= i < names.len() && names[i] == name;
        lemma_sorts_irreflexive(name);
        assert(p <= i);
        if p < i {
            assert(sorts_before(names[p], names[i]));
        }
    }
}

// ---------------------------------------------------------------------------
// What lists in order promise
// ---------------------------------------------------------------------------

/// A thing whose name is there takes the place of the one that has it, and all
/// others stay.
pub proof fn law_a_known_name_is_replaced<T>(
    names: Seq<Seq<char>>,
    things: Seq<T>,
    i: int,
    thing: T,
)
    requires
        ascending(names),
        things.len() == names.len(),
        0 <= i < names.len(),
    ensures
        put(names, things, names[i], thing) == things.update(i, thing),
{
    lemma_slot_from(names, names[i], 0);
    lemma_sorts_irreflexive(names[i]);
    let p = slot(names, names[i]);
    if p < i {
        assert(sorts_before(names[p], names[i]));
    }
}

/// A thing whose name is new is added behind those whose names sort before it
/// and before all others, which keep their order.
pub proof fn law_a_new_name_is_added_in_order<T>(
    names: Seq<Seq<char>>,
    things: Seq<T>,
    i: int,
    name: Seq<char>,
    thing: T,
)
    requires
        things.len() == names.len(),
        0 <= i <= names.len(),
        forall|k: int| 0 <= k < i ==> sorts_before(#[trigger] names[k], name),
        forall|k: int| i <= k < names.len() ==> sorts_before(name, #[trigger] names[k]),
    ensures
        put(names, things, name, thing) == things.take(i) + seq![thing] + things.skip(i),
{
    lemma_slot_from(names, name, 0);
    lemma_sorts_irreflexive(name);
    let p = slot(names, name);
    if p < i {
        assert(sorts_before(names[p], name));
    }
    if p > i {
        assert(sorts_before(names[i], name) && sorts_before(name, names[i]));
        lemma_sorts_transitive(name, names[i], name);
    }
    assert(things.insert(i, thing) =~= things.take(i) + seq![thing] + things.skip(i));
}

} // verus!
