use vstd::prelude::*;

verus! {

/// Ordered association lists keyed by strings: the shape of header lists,
/// query lists, route-parameter lists and the attribute store.
///
/// The first index at or after `i` whose key is exactly `name`.
pub open spec fn assoc_index_from<V>(hs: Seq<(Seq<char>, V)>, name: Seq<char>, i: int) -> Option<
    int,
>
    decreases hs.len() - i,
{
    if i < 0 || i >= hs.len() {
        None
    } else if hs[i].0 == name {
        Some(i)
    } else {
        assoc_index_from(hs, name, i + 1)
    }
}

/// The first index whose key is exactly `name`, if any.
pub open spec fn assoc_index<V>(hs: Seq<(Seq<char>, V)>, name: Seq<char>) -> Option<int> {
    assoc_index_from(hs, name, 0)
}

/// The value under key `name`, if any.
pub open spec fn assoc_get<V>(hs: Seq<(Seq<char>, V)>, name: Seq<char>) -> Option<V> {
    match assoc_index(hs, name) {
        Some(i) => Some(hs[i].1),
        None => None,
    }
}

/// The list after setting `name` to `value`: the first pair with exactly
/// that key is replaced, or the pair is appended when the key is absent.
pub open spec fn assoc_set<V>(hs: Seq<(Seq<char>, V)>, name: Seq<char>, value: V) -> Seq<
    (Seq<char>, V),
> {
    match assoc_index(hs, name) {
        Some(i) => hs.update(i, (name, value)),
        None => hs.push((name, value)),
    }
}

/// The list after removing the first pair with exactly key `name`, if any.
pub open spec fn assoc_remove<V>(hs: Seq<(Seq<char>, V)>, name: Seq<char>) -> Seq<(Seq<char>, V)> {
    match assoc_index(hs, name) {
        Some(i) => hs.remove(i),
        None => hs,
    }
}

/// The position of the pair with exactly key `key`, if any.
fn pair_index(v: &Vec<(String, String)>, key: &str) -> (r: Option<usize>)
    ensures
        (match r {
            Some(i) => i < v@.len() && assoc_index(v.deep_view(), key@) == Some(i as int),
            None => assoc_index(v.deep_view(), key@) is None,
        }),
{
    let n: usize = v.len();
    let mut i: usize = 0;
    while i < n
        invariant
            n == v@.len(),
            i <= n,
            assoc_index(v.deep_view(), key@) == assoc_index_from(v.deep_view(), key@, i as int),
        decreases n - i,
    {
        assert(v.deep_view()[i as int] == (v@[i as int].0@, v@[i as int].1@));
        if crate::text::str_eq(v[i].0.as_str(), key) {
            return Some(i);
        }
        i += 1;
    }
    None
}

/// Sets `key` to `value` in a pair list, exactly as [`assoc_set`] says.
pub fn set_pair_in(v: &mut Vec<(String, String)>, key: &str, value: &str)
    ensures
        final(v).deep_view() == assoc_set(old(v).deep_view(), key@, value@),
{
    let ghost old_model = v.deep_view();
    match pair_index(v, key) {
        Some(i) => {
            v.set(i, (key.to_owned(), value.to_owned()));
            proof {
                assert(v.deep_view() =~= old_model.update(i as int, (key@, value@)));
            }
        },
        None => {
            v.push((key.to_owned(), value.to_owned()));
            proof {
                assert(v.deep_view() =~= old_model.push((key@, value@)));
            }
        },
    }
}

/// The value under `key` in a pair list, exactly as [`assoc_get`] says.
pub fn get_pair_in(v: &Vec<(String, String)>, key: &str) -> (r: Option<String>)
    ensures
        (match r {
            Some(val) => assoc_get(v.deep_view(), key@) == Some(val@),
            None => assoc_get(v.deep_view(), key@) is None,
        }),
{
    match pair_index(v, key) {
        Some(i) => Some(v[i].1.clone()),
        None => None,
    }
}

} // verus!
