//! Finding definitions by the keys data files call them.

use vstd::prelude::*;

verus! {

/// The texts of `strings`.
pub open spec fn texts(strings: Seq<String>) -> Seq<Seq<char>> {
    strings.map_values(|s: String| s@)
}

/// The first position of `key` among `keys`.
pub open spec fn position_of(keys: Seq<Seq<char>>, key: Seq<char>) -> Option<nat>
    decreases keys.len(),
{
    if keys.len() == 0 {
        None
    } else {
        match position_of(keys.drop_last(), key) {
            Some(i) => Some(i),
            None => if keys.last() == key {
                Some((keys.len() - 1) as nat)
            } else {
                None
            },
        }
    }
}

/// The first key among `keys` that repeats one before it.
pub open spec fn first_repeat(keys: Seq<Seq<char>>) -> Option<nat>
    decreases keys.len(),
{
    if keys.len() == 0 {
        None
    } else {
        match first_repeat(keys.drop_last()) {
            Some(i) => Some(i),
            None => if position_of(keys.drop_last(), keys.last()) is Some {
                Some((keys.len() - 1) as nat)
            } else {
                None
            },
        }
    }
}

/// The first position in `items` at which `test` holds.
pub open spec fn first_where<A>(items: Seq<A>, test: spec_fn(A) -> bool) -> Option<nat>
    decreases items.len(),
{
    if items.len() == 0 {
        None
    } else {
        match first_where(items.drop_last(), test) {
            Some(i) => Some(i),
            None => if test(items.last()) {
                Some((items.len() - 1) as nat)
            } else {
                None
            },
        }
    }
}

/// Looking one item further: what `first_where` finds among the first
/// `n + 1` items, when it found nothing among the first `n`.
pub proof fn first_where_step<A>(items: Seq<A>, test: spec_fn(A) -> bool, n: nat)
    requires
        n < items.len(),
        first_where(items.take(n as int), test) is None,
    ensures
        first_where(items.take(n as int + 1), test) == (if test(items[n as int]) {
            Some(n)
        } else {
            None
        }),
{
    assert(items.take(n as int + 1).drop_last() =~= items.take(n as int));
}

/// What `first_where` finds among the first `n` items it finds in the
/// whole, and finding nothing among all the items is finding nothing in
/// the whole.
pub proof fn first_where_prefix<A>(items: Seq<A>, test: spec_fn(A) -> bool, n: nat)
    requires
        n <= items.len(),
        first_where(items.take(n as int), test) is Some || n == items.len(),
    ensures
        first_where(items, test) == first_where(items.take(n as int), test),
    decreases items.len() - n,
{
    if n < items.len() {
        assert(items.take(n as int + 1).drop_last() =~= items.take(n as int));
        first_where_prefix(items, test, n + 1);
    } else {
        assert(items.take(n as int) =~= items);
    }
}

/// `first_where` finds the first item that passes `test`, and nothing when
/// none does.
pub proof fn first_where_finds_the_first<A>(items: Seq<A>, test: spec_fn(A) -> bool)
    ensures
        first_where(items, test) matches Some(i) ==> i < items.len() && test(items[i as int])
            && forall|j: int| 0 <= j < i ==> !test(#[trigger] items[j]),
        first_where(items, test) is None ==> forall|j: int| 0 <= j < items.len() ==> !test(
            #[trigger] items[j],
        ),
    decreases items.len(),
{
    if items.len() > 0 {
        let init = items.drop_last();
        first_where_finds_the_first(init, test);
        assert(forall|j: int| 0 <= j < init.len() ==> init[j] == items[j]);
    }
}

/// The first number below `n` for which `test` holds.
pub open spec fn first_index(n: nat, test: spec_fn(nat) -> bool) -> Option<nat>
    decreases n,
{
    if n == 0 {
        None
    } else {
        match first_index((n - 1) as nat, test) {
            Some(i) => Some(i),
            None => if test((n - 1) as nat) {
                Some((n - 1) as nat)
            } else {
                None
            },
        }
    }
}

/// What `first_index` finds below `m` it finds below any `n` up to `m`
/// where it finds anything, and it finds the first number that passes.
pub proof fn first_index_facts(n: nat, m: nat, test: spec_fn(nat) -> bool)
    requires
        n <= m,
    ensures
        first_index(n, test) is Some ==> first_index(m, test) == first_index(n, test),
        first_index(n, test) matches Some(i) ==> i < n && test(i) && forall|j: nat| j < i ==> !#[trigger] test(j),
        first_index(n, test) is None ==> forall|j: nat| j < n ==> !#[trigger] test(j),
    decreases m,
{
    if m > n {
        first_index_facts(n, (m - 1) as nat, test);
    } else if n > 0 {
        first_index_facts((n - 1) as nat, (n - 1) as nat, test);
    }
}

/// Where no number below `n` passes, `first_index` finds none.
pub proof fn first_index_none(n: nat, test: spec_fn(nat) -> bool)
    requires
        forall|j: nat| j < n ==> !#[trigger] test(j),
    ensures
        first_index(n, test) is None,
    decreases n,
{
    if n > 0 {
        first_index_none((n - 1) as nat, test);
    }
}

/// Whether no key appears twice in `keys`.
pub open spec fn distinct(keys: Seq<Seq<char>>) -> bool {
    forall|i: int, j: int| 0 <= i < j < keys.len() ==> keys[i] != keys[j]
}

/// `position_of` finds exactly the first occurrence.
pub proof fn position_of_finds_the_first(keys: Seq<Seq<char>>, key: Seq<char>)
    ensures
        position_of(keys, key) matches Some(i) ==> i < keys.len() && keys[i as int] == key && (
        forall|j: int| 0 <= j < i ==> keys[j] != key),
        position_of(keys, key) is None ==> forall|j: int| 0 <= j < keys.len() ==> keys[j] != key,
    decreases keys.len(),
{
    if keys.len() > 0 {
        let init = keys.drop_last();
        position_of_finds_the_first(init, key);
        assert(forall|j: int| 0 <= j < init.len() ==> init[j] == keys[j]);
    }
}

/// Without repeats, the keys are distinct, and each key is found where it
/// stands.
pub proof fn no_repeat_is_distinct(keys: Seq<Seq<char>>)
    requires
        first_repeat(keys) is None,
    ensures
        distinct(keys),
        forall|i: int| 0 <= i < keys.len() ==> position_of(keys, #[trigger] keys[i]) == Some(i as nat),
    decreases keys.len(),
{
    if keys.len() > 0 {
        let init = keys.drop_last();
        no_repeat_is_distinct(init);
        position_of_finds_the_first(init, keys.last());
        assert forall|i: int| 0 <= i < keys.len() implies position_of(keys, #[trigger] keys[i])
            == Some(i as nat) by {
            position_of_finds_the_first(keys, keys[i]);
            if i < keys.len() - 1 {
                assert(init[i] == keys[i]);
            }
        }
    }
}

/// Keys none of which occurs before itself have no repeat.
pub proof fn no_earlier_no_repeat(keys: Seq<Seq<char>>)
    requires
        forall|j: int| 0 <= j < keys.len() ==> position_of(#[trigger] keys.take(j), keys[j]) is None,
    ensures
        first_repeat(keys) is None,
    decreases keys.len(),
{
    if keys.len() > 0 {
        let init = keys.drop_last();
        assert forall|j: int| 0 <= j < init.len() implies position_of(#[trigger] init.take(j), init[j]) is None by {
            assert(init.take(j) =~= keys.take(j));
            assert(init[j] == keys[j]);
        }
        no_earlier_no_repeat(init);
        assert(keys.take(keys.len() - 1) =~= init);
    }
}

/// A key found among `keys` is found at a position inside them, where it
/// stands.
pub proof fn found_inside(keys: Seq<Seq<char>>, key: Seq<char>)
    ensures
        position_of(keys, key) matches Some(i) ==> i < keys.len() && keys[i as int] == key,
{
    position_of_finds_the_first(keys, key);
}

/// The position of `key` among `keys`.
pub fn position(keys: &Vec<String>, key: &str) -> (found: Option<usize>)
    ensures
        found is None <==> position_of(texts(keys@), key@) is None,
        found matches Some(i) ==> position_of(texts(keys@), key@) == Some(i as nat),
        found matches Some(i) ==> i < keys.len(),
{
    let wanted = String::from_str(key);
    let mut i: usize = 0;
    while i < keys.len()
        invariant
            i <= keys.len(),
            wanted@ == key@,
            position_of(texts(keys@).take(i as int), key@) is None,
        decreases keys.len() - i,
    {
        proof {
            assert(texts(keys@).take(i + 1).drop_last() =~= texts(keys@).take(i as int));
            assert(texts(keys@).take(i + 1).last() == keys@[i as int]@);
        }
        if keys[i] == wanted {
            proof {
                let prefix = texts(keys@).take(i + 1);
                assert(prefix.len() == i + 1);
                assert(prefix.last() == key@);
                assert(position_of(prefix, key@) == Some(i as nat));
                prefix_position(texts(keys@), key@, (i + 1) as nat);
                assert(position_of(texts(keys@), key@) == Some(i as nat));
            }
            return Some(i);
        }
        i = i + 1;
    }
    proof {
        assert(texts(keys@).take(i as int) =~= texts(keys@));
    }
    None
}

/// A key found in a prefix is found at the same place in the whole.
pub proof fn prefix_position(keys: Seq<Seq<char>>, key: Seq<char>, n: nat)
    requires
        n <= keys.len(),
        position_of(keys.take(n as int), key) is Some,
    ensures
        position_of(keys, key) == position_of(keys.take(n as int), key),
    decreases keys.len() - n,
{
    if n < keys.len() {
        assert(keys.take(n as int + 1).drop_last() =~= keys.take(n as int));
        prefix_position(keys, key, n + 1);
    } else {
        assert(keys.take(n as int) =~= keys);
    }
}

/// A repeat found in a prefix is the first repeat of the whole.
pub proof fn prefix_repeat(keys: Seq<Seq<char>>, n: nat)
    requires
        n <= keys.len(),
        first_repeat(keys.take(n as int)) is Some,
    ensures
        first_repeat(keys) == first_repeat(keys.take(n as int)),
    decreases keys.len() - n,
{
    if n < keys.len() {
        assert(keys.take(n as int + 1).drop_last() =~= keys.take(n as int));
        prefix_repeat(keys, n + 1);
    } else {
        assert(keys.take(n as int) =~= keys);
    }
}

/// The first key among `keys` that repeats one before it.
pub fn repeated(keys: &Vec<String>) -> (found: Option<usize>)
    ensures
        found is None <==> first_repeat(texts(keys@)) is None,
        found matches Some(i) ==> first_repeat(texts(keys@)) == Some(i as nat),
        found matches Some(i) ==> i < keys.len(),
{
    let mut seen: Vec<String> = Vec::new();
    let mut i: usize = 0;
    while i < keys.len()
        invariant
            i <= keys.len(),
            seen@ == keys@.take(i as int),
            first_repeat(texts(keys@).take(i as int)) is None,
        decreases keys.len() - i,
    {
        proof {
            assert(texts(keys@).take(i + 1).drop_last() =~= texts(keys@).take(i as int));
            assert(texts(seen@) =~= texts(keys@).take(i as int));
            assert(texts(keys@).take(i + 1).last() == keys@[i as int]@);
        }
        if position(&seen, keys[i].as_str()).is_some() {
            proof {
                prefix_repeat(texts(keys@), (i + 1) as nat);
            }
            return Some(i);
        }
        seen.push(keys[i].clone());
        i = i + 1;
    }
    proof {
        assert(texts(keys@).take(i as int) =~= texts(keys@));
    }
    None
}

} // verus!
