//! Pairing a declared resource with at most one remote record: by stable
//! identifier when one is declared, by exact name otherwise.

use vstd::prelude::*;
use crate::models::Certificate;
use crate::strutil::str_eq;

verus! {

/// Whether a remote certificate matches the declared key. When an id is
/// declared only the id counts, even if the name would match another
/// record; without one, the name must match exactly, case-sensitively.
pub open spec fn cert_matches(c: Certificate, yaml_id: Option<i64>, yaml_name: Seq<char>) -> bool {
    match yaml_id {
        Option::Some(id) => c.id == id,
        Option::None => c.name@ == yaml_name,
    }
}

/// The index of the first remote certificate that the declared key
/// matches, if any.
pub open spec fn spec_find_cert(
    list: Seq<Certificate>,
    yaml_id: Option<i64>,
    name: Seq<char>,
) -> Option<int>
    decreases list.len(),
{
    if list.len() == 0 {
        Option::None
    } else if cert_matches(list.first(), yaml_id, name) {
        Option::Some(0)
    } else {
        match spec_find_cert(list.drop_first(), yaml_id, name) {
            Option::None => Option::None,
            Option::Some(i) => Option::Some(i + 1),
        }
    }
}

/// The first-match function finds exactly the first matching index: a hit
/// is a match with none before it, and a miss means nothing matches.
pub proof fn lemma_find_cert_first(list: Seq<Certificate>, yaml_id: Option<i64>, name: Seq<char>)
    ensures
        match spec_find_cert(list, yaml_id, name) {
            Option::Some(i) => 0 <= i < list.len() && cert_matches(list[i], yaml_id, name)
                && forall|k: int| 0 <= k < i ==> !cert_matches(list[k], yaml_id, name),
            Option::None => forall|k: int|
                0 <= k < list.len() ==> !cert_matches(list[k], yaml_id, name),
        },
    decreases list.len(),
{
    if list.len() == 0 {
    } else if cert_matches(list.first(), yaml_id, name) {
    } else {
        lemma_find_cert_first(list.drop_first(), yaml_id, name);
        assert(forall|k: int| 1 <= k < list.len() ==> list[k] == list.drop_first()[k - 1]);
    }
}

/// Finds the first remote certificate that the declared key matches.
/// `None` means the resource does not exist remotely yet, and callers
/// proceed to create it.
pub fn find_existing_by_id_or_name(
    list: &Vec<Certificate>,
    yaml_id: Option<i64>,
    yaml_name: &str,
) -> (r: Option<usize>)
    ensures
        match r {
            Option::Some(i) => i < list@.len() && cert_matches(list@[i as int], yaml_id, yaml_name@)
                && forall|k: int|
                0 <= k < i ==> !cert_matches(list@[k], yaml_id, yaml_name@),
            Option::None => forall|k: int|
                0 <= k < list@.len() ==> !cert_matches(list@[k], yaml_id, yaml_name@),
        },
{
    let n = list.len();
    let mut i: usize = 0;
    while i < n
        invariant
            i <= n,
            n == list@.len(),
            forall|k: int| 0 <= k < i ==> !cert_matches(list@[k], yaml_id, yaml_name@),
        decreases n - i,
    {
        let hit = match yaml_id {
            Option::Some(id) => list[i].id == id,
            Option::None => str_eq(list[i].name.as_str(), yaml_name),
        };
        if hit {
            return Some(i);
        }
        i = i + 1;
    }
    None
}

} // verus!
