use vstd::prelude::*;
use crate::error::MvcError;
use crate::number::{decimal_of, parse_decimal, reads_as_u32, render_decimal, u32_value};
use crate::text::str_eq;

verus! {

/// The snapshot identifier that a metadata file name stands for: the name
/// must be exactly `<id>.json`, with `<id>` in decimal without leading zeros.
pub open spec fn id_of_name(name: Seq<char>) -> Option<nat> {
    if name.len() >= 5 && name.skip(name.len() - 5) == ".json"@ && reads_as_u32(
        name.take(name.len() - 5),
    ) && name.take(name.len() - 5) == decimal_of(u32_value(name.take(name.len() - 5))) {
        Some(u32_value(name.take(name.len() - 5)))
    } else {
        None
    }
}

/// Two metadata file names that stand for the same identifier are the same
/// name.
pub proof fn lemma_id_names_unique(a: Seq<char>, b: Seq<char>)
    requires
        id_of_name(a) is Some,
        id_of_name(a) == id_of_name(b),
    ensures
        a == b,
{
    assert(a =~= a.take(a.len() - 5) + a.skip(a.len() - 5));
    assert(b =~= b.take(b.len() - 5) + b.skip(b.len() - 5));
}

pub open spec fn strictly_ascending(v: Seq<u32>) -> bool {
    forall|i: int, j: int| 0 <= i < j < v.len() ==> v[i] < v[j]
}

/// The identifier of a metadata file, if its name has the form `<id>.json`.
pub fn snapshot_id_of(name: &str) -> (r: Option<u32>)
    ensures
        r matches Some(v) ==> id_of_name(name@) == Some(v as nat),
        r is None ==> id_of_name(name@) is None,
{
    let n = name.unicode_len();
    if n < 5 {
        return None;
    }
    let suffix = name.substring_char(n - 5, n);
    assert(suffix@ =~= name@.skip(n - 5));
    if !str_eq(suffix, ".json") {
        return None;
    }
    let stem = name.substring_char(0, n - 5);
    assert(stem@ =~= name@.take(n - 5));
    match parse_decimal(stem) {
        Some(v) => {
            let canonical = render_decimal(v);
            if str_eq(stem, canonical.as_str()) {
                Some(v)
            } else {
                None
            }
        },
        None => None,
    }
}

fn insert_sorted(v: &mut Vec<u32>, x: u32) -> (added: bool)
    requires
        strictly_ascending(old(v)@),
    ensures
        added == !old(v)@.contains(x),
        added ==> final(v)@.len() == old(v)@.len() + 1,
        strictly_ascending(final(v)@),
        forall|y: u32| final(v)@.contains(y) <==> (old(v)@.contains(y) || y == x),
{
    let mut i: usize = 0;
    while i < v.len() && v[i] < x
        invariant
            v@ == old(v)@,
            i <= v@.len(),
            forall|k: int| 0 <= k < i ==> v@[k] < x,
        decreases v@.len() - i,
    {
        i = i + 1;
    }
    if i < v.len() && v[i] == x {
        assert(v@[i as int] == x);
        return false;
    }
    let ghost before = v@;
    v.insert(i, x);
    assert(v@ =~= before.take(i as int).push(x) + before.skip(i as int));
    assert forall|y: u32| v@.contains(y) <==> (before.contains(y) || y == x) by {
        if v@.contains(y) {
            let k = choose|k: int| 0 <= k < v@.len() && v@[k] == y;
            if k < i {
                assert(before[k] == y);
            } else if k > i {
                assert(before[k - 1] == y);
            }
        }
        if before.contains(y) {
            let k = choose|k: int| 0 <= k < before.len() && before[k] == y;
            if k < i {
                assert(v@[k] == y);
            } else {
                assert(v@[k + 1] == y);
            }
        }
        if y == x {
            assert(v@[i as int] == y);
        }
    }
    assert(!before.contains(x)) by {
        if before.contains(x) {
            let k = choose|k: int| 0 <= k < before.len() && before[k] == x;
            if k >= i {
                assert(before[i as int] <= before[k]);
            }
        }
    }
    true
}

/// Every name is an `<id>.json` metadata file name, and no name repeats.
pub open spec fn well_formed_listing(names: Seq<String>) -> bool {
    (forall|i: int| 0 <= i < names.len() ==> (#[trigger] id_of_name(names[i]@)) is Some) && (
    forall|i: int, j: int| 0 <= i < j < names.len() ==> names[i]@ != names[j]@)
}

/// The identifiers of the snapshots whose metadata files are named in
/// `names`, one for each name, in ascending order. A name that is not the
/// metadata file name of an identifier, or a repeated name, leaves the
/// listing unreadable.
pub fn snapshot_ids(names: &Vec<String>) -> (r: Result<Vec<u32>, MvcError>)
    ensures
        r is Ok <==> well_formed_listing(names@),
        r is Err ==> r == Err::<Vec<u32>, MvcError>(MvcError::InvalidState),
        r matches Ok(ids) ==> {
            &&& strictly_ascending(ids@)
            &&& ids@.len() == names@.len()
            &&& forall|id: u32|
                ids@.contains(id) <==> exists|i: int|
                    0 <= i < names@.len() && id_of_name(#[trigger] names@[i]@) == Some(id as nat)
        },
{
    let mut ids: Vec<u32> = Vec::new();
    let mut i: usize = 0;
    while i < names.len()
        invariant
            i <= names@.len(),
            strictly_ascending(ids@),
            ids@.len() == i,
            well_formed_listing(names@.take(i as int)),
            forall|id: u32|
                ids@.contains(id) <==> exists|k: int|
                    0 <= k < i && id_of_name(#[trigger] names@[k]@) == Some(id as nat),
        decreases names@.len() - i,
    {
        let found = snapshot_id_of(names[i].as_str());
        let ghost before = ids@;
        let v = match found {
            Some(v) => v,
            None => {
                assert(!well_formed_listing(names@)) by {
                    assert(id_of_name(names@[i as int]@) is None);
                }
                return Err(MvcError::InvalidState);
            },
        };
        if !insert_sorted(&mut ids, v) {
            assert(!well_formed_listing(names@)) by {
                let k = choose|k: int|
                    0 <= k < i && id_of_name(#[trigger] names@[k]@) == Some(v as nat);
                lemma_id_names_unique(names@[k]@, names@[i as int]@);
            }
            return Err(MvcError::InvalidState);
        }
        assert forall|id: u32|
            ids@.contains(id) <==> exists|k: int|
                0 <= k < i + 1 && id_of_name(#[trigger] names@[k]@) == Some(id as nat) by {
            if ids@.contains(id) && !before.contains(id) {
                assert(id_of_name(names@[i as int]@) == Some(id as nat));
            }
            if exists|k: int| 0 <= k < i + 1 && id_of_name(#[trigger] names@[k]@) == Some(id as nat) {
                let k = choose|k: int| 0 <= k < i + 1 && id_of_name(#[trigger] names@[k]@) == Some(id as nat);
                if k < i {
                    assert(before.contains(id));
                }
            }
        }
        assert(well_formed_listing(names@.take(i + 1))) by {
            let t = names@.take(i + 1);
            assert forall|a: int, b: int| 0 <= a < b < t.len() implies t[a]@ != t[b]@ by {
                if b == i {
                    if t[a]@ == t[b]@ {
                        assert(id_of_name(names@[a]@) == Some(v as nat));
                        assert(before.contains(v));
                    }
                } else {
                    assert(names@.take(i as int)[a] == t[a]);
                    assert(names@.take(i as int)[b] == t[b]);
                }
            }
            assert forall|a: int| 0 <= a < t.len() implies (#[trigger] id_of_name(t[a]@)) is Some by {
                if a < i {
                    assert(names@.take(i as int)[a] == t[a]);
                }
            }
        }
        i = i + 1;
    }
    assert(names@.take(names@.len() as int) =~= names@);
    Ok(ids)
}

} // verus!
