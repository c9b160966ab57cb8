//! Small dictionaries keyed by text, kept as lists of pairs in which no key
//! stands twice. Writing under a key that is present replaces its value.
use crate::text::same_text;
use vstd::prelude::*;

verus! {

/// The keys of a list of pairs, as texts.
pub open spec fn keys<V>(pairs: Seq<(String, V)>) -> Seq<Seq<char>> {
    pairs.map_values(|p: (String, V)| p.0@)
}

/// No key stands twice.
pub open spec fn distinct(keys: Seq<Seq<char>>) -> bool {
    forall|i: int, j: int| 0 <= i < j < keys.len() ==> keys[i] != keys[j]
}

/// The dictionary that a list of pairs spells out: each pair is written in
/// turn, so of two pairs with one key the later one stays.
pub open spec fn map_of<W>(pairs: Seq<(Seq<char>, W)>) -> Map<Seq<char>, W>
    decreases pairs.len(),
{
    if pairs.len() == 0 {
        Map::empty()
    } else {
        map_of(pairs.drop_last()).insert(pairs.last().0, pairs.last().1)
    }
}

/// Replacing the value of a pair replaces it in the dictionary, where no
/// key stands twice.
pub proof fn lemma_map_of_update<W>(pairs: Seq<(Seq<char>, W)>, j: int, value: W)
    requires
        0 <= j < pairs.len(),
        forall|a: int, b: int| 0 <= a < b < pairs.len() ==> pairs[a].0 != pairs[b].0,
    ensures
        map_of(pairs.update(j, (pairs[j].0, value))) == map_of(pairs).insert(pairs[j].0, value),
    decreases pairs.len(),
{
    let key = pairs[j].0;
    let changed = pairs.update(j, (key, value));
    let before = pairs.drop_last();
    if j == pairs.len() - 1 {
        assert(changed.drop_last() =~= before);
        assert(map_of(changed) =~= map_of(pairs).insert(key, value));
    } else {
        lemma_map_of_update(before, j, value);
        assert(changed.drop_last() =~= before.update(j, (key, value)));
        assert(changed.last() == pairs.last());
        assert(pairs.last().0 != key);
        assert(map_of(changed) =~= map_of(pairs).insert(key, value));
    }
}

/// The first position at which a key stands, or the number of keys where
/// it stands nowhere.
pub open spec fn slot(keys: Seq<Seq<char>>, key: Seq<char>) -> int
    decreases keys.len(),
{
    if keys.len() == 0 {
        0
    } else if keys[0] == key {
        0
    } else {
        1 + slot(keys.drop_first(), key)
    }
}

/// `slot` is the least position of the key.
pub proof fn lemma_slot(keys: Seq<Seq<char>>, key: Seq<char>)
    ensures
        0 <= slot(keys, key) <= keys.len(),
        slot(keys, key) < keys.len() ==> keys[slot(keys, key)] == key,
        forall|i: int| 0 <= i < slot(keys, key) ==> keys[i] != key,
    decreases keys.len(),
{
    if keys.len() > 0 && keys[0] != key {
        let rest = keys.drop_first();
        lemma_slot(rest, key);
        assert forall|i: int| 0 <= i < slot(keys, key) implies keys[i] != key by {
            if i > 0 {
                assert(keys[i] == rest[i - 1]);
            }
        }
    }
}

/// The list of pairs after `value` is written under `key`: in place of the
/// value that stands under that key, or at the end where the key is new.
pub open spec fn written<V>(pairs: Seq<(String, V)>, key: String, value: V) -> Seq<(String, V)> {
    let j = slot(keys(pairs), key@);
    if j < pairs.len() {
        pairs.update(j, (key, value))
    } else {
        pairs.push((key, value))
    }
}

/// The position of a key among the keys.
fn position<V>(pairs: &Vec<(String, V)>, key: &str) -> (r: Option<usize>)
    ensures
        match r {
            Some(j) => j == slot(keys(pairs@), key@) && j < pairs.len(),
            None => slot(keys(pairs@), key@) == pairs.len(),
        },
{
    proof {
        lemma_slot(keys(pairs@), key@);
    }
    let mut i: usize = 0;
    while i < pairs.len()
        invariant
            i <= pairs.len(),
            forall|k: int| 0 <= k < i ==> keys(pairs@)[k] != key@,
        decreases pairs.len() - i,
    {
        if same_text(pairs[i].0.as_str(), key) {
            proof {
                lemma_slot(keys(pairs@), key@);
                assert(keys(pairs@)[i as int] == key@);
            }
            return Some(i);
        }
        i += 1;
    }
    None
}

/// Writes a value under a key.
pub fn put<V>(pairs: &mut Vec<(String, V)>, key: String, value: V)
    requires
        distinct(keys(old(pairs)@)),
    ensures
        distinct(keys(final(pairs)@)),
        final(pairs)@ == written(old(pairs)@, key, value),
{
    let ghost before = pairs@;
    proof {
        lemma_slot(keys(before), key@);
    }
    match position(pairs, key.as_str()) {
        Some(j) => {
            pairs.set(j, (key, value));
            proof {
                assert(keys(pairs@) =~= keys(before));
            }
        },
        None => {
            pairs.push((key, value));
            proof {
                assert(keys(pairs@) =~= keys(before).push(key@));
            }
        },
    }
}

/// The last position at which a key stands.
pub open spec fn last_slot(keys: Seq<Seq<char>>, key: Seq<char>) -> Option<int>
    decreases keys.len(),
{
    if keys.len() == 0 {
        None
    } else if keys.last() == key {
        Some(keys.len() - 1)
    } else {
        last_slot(keys.drop_last(), key)
    }
}

/// The first halves of a list of pairs.
pub open spec fn firsts<W>(pairs: Seq<(Seq<char>, W)>) -> Seq<Seq<char>> {
    pairs.map_values(|p: (Seq<char>, W)| p.0)
}

/// A dictionary holds a key exactly where the key stands among its pairs,
/// and holds under it the value of the last pair with that key.
pub proof fn lemma_map_of_lookup<W>(pairs: Seq<(Seq<char>, W)>, key: Seq<char>)
    ensures
        match last_slot(firsts(pairs), key) {
            Some(i) => 0 <= i < pairs.len() && pairs[i].0 == key && map_of(pairs).contains_key(key)
                && map_of(pairs)[key] == pairs[i].1,
            None => !map_of(pairs).contains_key(key),
        },
    decreases pairs.len(),
{
    if pairs.len() > 0 {
        assert(firsts(pairs).drop_last() =~= firsts(pairs.drop_last()));
        assert(firsts(pairs).last() == pairs.last().0);
        lemma_map_of_lookup(pairs.drop_last(), key);
    }
}

/// The last position at which a key stands among the pairs.
pub fn find_last<V>(pairs: &Vec<(String, V)>, key: &str) -> (r: Option<usize>)
    ensures
        match r {
            Some(i) => i < pairs.len() && last_slot(keys(pairs@), key@) == Some(i as int),
            None => last_slot(keys(pairs@), key@) is None,
        },
{
    let ghost all = keys(pairs@);
    let mut end: usize = pairs.len();
    assert(all.take(end as int) == all);
    while end > 0
        invariant
            end <= pairs.len(),
            all == keys(pairs@),
            last_slot(all, key@) == last_slot(all.take(end as int), key@),
        decreases end,
    {
        assert(all.take(end as int).last() == pairs@[end - 1].0@);
        if same_text(pairs[end - 1].0.as_str(), key) {
            return Some(end - 1);
        }
        assert(all.take(end as int).drop_last() == all.take(end - 1));
        end -= 1;
    }
    None
}

/// Writing under a key writes into the dictionary: whatever the values are
/// taken for, the dictionary of the new list is that of the old one with
/// the key set.
pub proof fn lemma_written<V, W>(
    pairs: Seq<(String, V)>,
    key: String,
    value: V,
    before: Seq<(Seq<char>, W)>,
    after: Seq<(Seq<char>, W)>,
    w: W,
)
    requires
        distinct(keys(pairs)),
        before.len() == pairs.len(),
        after.len() == written(pairs, key, value).len(),
        forall|i: int| 0 <= i < pairs.len() ==> (#[trigger] before[i]).0 == pairs[i].0@,
        forall|i: int|
            0 <= i < after.len() ==> #[trigger] after[i] == (if i == slot(keys(pairs), key@) {
                (key@, w)
            } else {
                before[i]
            }),
    ensures
        map_of(after) == map_of(before).insert(key@, w),
{
    lemma_slot(keys(pairs), key@);
    let j = slot(keys(pairs), key@);
    if j < pairs.len() {
        assert(before[j].0 == key@);
        assert forall|a: int, b: int| 0 <= a < b < before.len() implies before[a].0 != before[b].0 by {
            assert(keys(pairs)[a] != keys(pairs)[b]);
        }
        lemma_map_of_update(before, j, w);
        assert(after =~= before.update(j, (before[j].0, w)));
    } else {
        assert(after.drop_last() =~= before);
    }
}

} // verus!
