//! Validation of a mapping that is held in an `indexmap::IndexMap`, which
//! keeps its entries in the order in which they were inserted.

use indexmap::IndexMap;
use vstd::prelude::*;
use crate::assemble::{keyed_trees, lemma_keyed_trees_empty, lemma_keyed_trees_push, outcome_view};
use crate::error::{distinct_keys, ErrorTree, Errors};
use crate::fitness::{checked_view, value_is_well_formed, Malformed};
use crate::outcome::{
    entry_outcomes, failing, lemma_failing_ends, lemma_failing_step, lemma_mapping_well_formed,
    value_outcome, value_well_formed,
};
use crate::validate::{object_errors, validate_value, Validate};
use crate::value::{Value, ValueView};
use crate::wellformed::lemma_value_outcome_well_formed;

verus! {

/// `indexmap::IndexMap`, as a type of which only what the items below say is known.
#[verifier::external_type_specification]
#[verifier::external_body]
#[verifier::reject_recursive_types(K)]
#[verifier::reject_recursive_types(V)]
#[verifier::reject_recursive_types(S)]
pub struct ExIndexMap<K, V, S>(IndexMap<K, V, S>);

/// The entries that the map holds, in its order: each key with the value
/// stored under it.
pub uninterp spec fn held(map: IndexMap<String, Value>) -> Seq<(Seq<char>, ValueView)>;

/// `IndexMap::len`: the number of key-value pairs in the map.
#[verifier::external_body]
fn entry_count(map: &IndexMap<String, Value>) -> (count: usize)
    ensures
        count == held(*map).len(),
{
    map.len()
}

/// `IndexMap::get_index`: the key-value pair at `index`, where `index` is
/// less than the number of pairs, else nothing. The pairs stand in a compact
/// range without holes.
#[verifier::external_body]
fn entry_at(map: &IndexMap<String, Value>, index: usize) -> (entry: Option<(&String, &Value)>)
    ensures
        entry is Some <==> index < held(*map).len(),
        entry matches Some(pair) ==> pair.0@ == held(*map)[index as int].0 && pair.1@ == held(
            *map,
        )[index as int].1,
{
    map.get_index(index)
}

/// Whether no two entries of the map have the same key. A map keeps its keys
/// apart as long as they are changed only through the map; since a key can
/// also be changed in place, every pair of keys is compared.
pub fn index_map_keys_distinct(map: &IndexMap<String, Value>) -> (ok: bool)
    ensures
        ok == distinct_keys(held(*map)),
{
    let ghost entries = held(*map);
    let count = entry_count(map);
    let mut j: usize = 0;
    while j < count
        invariant
            j <= count,
            count == entries.len(),
            entries == held(*map),
            forall|a: int, b: int|
                0 <= a < b < j ==> (#[trigger] entries[a]).0 != (#[trigger] entries[b]).0,
        decreases count - j,
    {
        match entry_at(map, j) {
            Some(later) => {
                let mut i: usize = 0;
                while i < j
                    invariant
                        i <= j,
                        j < count,
                        count == entries.len(),
                        entries == held(*map),
                        later.0@ == entries[j as int].0,
                        forall|a: int| 0 <= a < i ==> (#[trigger] entries[a]).0 != entries[j as int].0,
                    decreases j - i,
                {
                    match entry_at(map, i) {
                        Some(earlier) => {
                            if *earlier.0 == *later.0 {
                                assert(entries[i as int].0 == entries[j as int].0);
                                return false;
                            }
                        },
                        None => {},
                    }
                    i += 1;
                }
            },
            None => {},
        }
        j += 1;
    }
    true
}

/// Whether the map is fit for validation: no two of its entries have the
/// same key, and every value of it is fit.
pub fn index_map_is_well_formed(map: &IndexMap<String, Value>) -> (ok: bool)
    ensures
        ok == value_well_formed(ValueView::Mapping(held(*map))),
{
    let ghost entries = held(*map);
    proof {
        lemma_mapping_well_formed(entries);
    }
    if !index_map_keys_distinct(map) {
        return false;
    }
    let count = entry_count(map);
    let mut i: usize = 0;
    while i < count
        invariant
            i <= count,
            count == entries.len(),
            entries == held(*map),
            forall|k: int| 0 <= k < i ==> value_well_formed((#[trigger] entries[k]).1),
        decreases count - i,
    {
        match entry_at(map, i) {
            Some(pair) => {
                if !value_is_well_formed(pair.1) {
                    return false;
                }
            },
            None => {},
        }
        i += 1;
    }
    true
}

fn collect_index_map(map: &IndexMap<String, Value>) -> (properties: Vec<(String, Errors)>)
    requires
        forall|i: int|
            0 <= i < held(*map).len() ==> value_well_formed((#[trigger] held(*map)[i]).1),
    ensures
        keyed_trees(properties@) == failing(entry_outcomes(held(*map))),
{
    let ghost entries = held(*map);
    let ghost all = entry_outcomes(entries);
    let count = entry_count(map);
    let mut properties: Vec<(String, Errors)> = Vec::new();
    let mut i: usize = 0;
    proof {
        lemma_failing_ends(all);
        lemma_keyed_trees_empty::<String>();
    }
    while i < count
        invariant
            i <= count,
            count == entries.len(),
            entries == held(*map),
            all == entry_outcomes(entries),
            forall|k: int| 0 <= k < entries.len() ==> value_well_formed((#[trigger] entries[k]).1),
            keyed_trees(properties@) == failing(all.take(i as int)),
        decreases count - i,
    {
        proof {
            assert(all[i as int] == (entries[i as int].0, value_outcome(entries[i as int].1)));
            lemma_failing_step(all, i as int);
        }
        match entry_at(map, i) {
            Some(pair) => {
                assert(value_well_formed(entries[i as int].1));
                match validate_value(pair.1) {
                    Ok(_) => {},
                    Err(tree) => {
                        let key = pair.0.clone();
                        proof {
                            lemma_keyed_trees_push(properties@, key, tree);
                        }
                        properties.push((key, tree));
                    },
                }
            },
            None => {},
        }
        i += 1;
    }
    properties
}

/// Validates the value of every entry of the map, in the map's order, and
/// reports the failing ones by key, as for a mapping.
pub fn validate_index_map(map: &IndexMap<String, Value>) -> (result: Result<(), Errors>)
    requires
        value_well_formed(ValueView::Mapping(held(*map))),
    ensures
        outcome_view(result) == value_outcome(ValueView::Mapping(held(*map))),
        result matches Err(errors) ==> errors@.well_formed(),
{
    proof {
        lemma_mapping_well_formed(held(*map));
        lemma_value_outcome_well_formed(ValueView::Mapping(held(*map)));
        lemma_keyed_trees_empty::<String>();
    }
    let properties = collect_index_map(map);
    object_errors(Vec::new(), properties)
}

/// Validates a map after making sure that every value of it is fit for
/// validation. A map with a value that is not fit is refused.
pub fn try_validate_index_map(map: &IndexMap<String, Value>) -> (result: Result<
    Result<(), Errors>,
    Malformed,
>)
    ensures
        checked_view(result) == (if value_well_formed(ValueView::Mapping(held(*map))) {
            Some(value_outcome(ValueView::Mapping(held(*map))))
        } else {
            None
        }),
        result matches Ok(Err(errors)) ==> errors@.well_formed(),
{
    if index_map_is_well_formed(map) {
        Ok(validate_index_map(map))
    } else {
        Err(Malformed)
    }
}

impl Validate for IndexMap<String, Value> {
    open spec fn well_formed(&self) -> bool {
        value_well_formed(ValueView::Mapping(held(*self)))
    }

    open spec fn outcome(&self) -> Option<ErrorTree> {
        value_outcome(ValueView::Mapping(held(*self)))
    }

    fn is_well_formed(&self) -> (ok: bool) {
        index_map_is_well_formed(self)
    }

    fn validate(&self) -> (result: Result<(), Errors>) {
        validate_index_map(self)
    }

    proof fn outcome_is_well_formed(&self) {
        lemma_value_outcome_well_formed(ValueView::Mapping(held(*self)));
    }
}

} // verus!
