//! The canonical text form of an error tree: a JSON object with the key
//! `errors`, which lists the messages of the failures attached to the
//! aggregate itself, and, where the tree has entries, the key `properties`
//! (entries by field name) or `items` (entries by decimal index).

use vstd::prelude::*;
use crate::error::{
    failure_views, item_views, lemma_array_view, lemma_object_view, property_views, ErrorTree,
    Errors, Failure, FailureView,
};
use crate::text::{natural_digits, push_natural, push_quoted, push_str, quoted, string_from_chars};

verus! {

/// The comma that stands before every element of a list but the first.
pub open spec fn separator(position: int) -> Seq<char> {
    if position > 0 {
        ","@
    } else {
        Seq::empty()
    }
}

/// The messages of `errors` as JSON string literals, separated by commas.
pub open spec fn message_list(errors: Seq<FailureView>) -> Seq<char>
    decreases errors.len(),
{
    if errors.len() == 0 {
        Seq::empty()
    } else {
        message_list(errors.drop_last()) + separator(errors.len() - 1) + quoted(
            errors.last().message,
        )
    }
}

/// The opening of a tree's text and its own failures: the key `errors` with
/// the list of their messages.
pub open spec fn render_own(errors: Seq<FailureView>) -> Seq<char> {
    "{\"errors\":["@ + message_list(errors) + "]"@
}

/// The entries of a tree in its text: nothing where there is no entry, else
/// the key of the entries, opened by `label`, with their members.
pub open spec fn render_entries(label: Seq<char>, members: Seq<char>, count: nat) -> Seq<char> {
    if count == 0 {
        Seq::empty()
    } else {
        label + members + "}"@
    }
}

/// The text form of a tree.
pub open spec fn render(tree: ErrorTree) -> Seq<char>
    decreases tree,
{
    match tree {
        ErrorTree::Named { errors, properties } => render_own(errors) + render_entries(
            ",\"properties\":{"@,
            render_properties(properties),
            properties.len(),
        ) + "}"@,
        ErrorTree::Indexed { errors, items } => render_own(errors) + render_entries(
            ",\"items\":{"@,
            render_items(items),
            items.len(),
        ) + "}"@,
        ErrorTree::Flat { errors } => render_own(errors) + "}"@,
    }
}

/// The members of a `properties` object: each name as a string literal, a
/// colon, and the entry's tree.
pub open spec fn render_properties(properties: Seq<(Seq<char>, ErrorTree)>) -> Seq<char>
    decreases properties,
{
    if properties.len() == 0 {
        Seq::empty()
    } else {
        render_properties(properties.drop_last()) + separator(properties.len() - 1) + quoted(
            properties.last().0,
        ) + ":"@ + render(properties.last().1)
    }
}

/// The members of an `items` object: each index as the string literal of its
/// decimal numeral, a colon, and the entry's tree.
pub open spec fn render_items(items: Seq<(nat, ErrorTree)>) -> Seq<char>
    decreases items,
{
    if items.len() == 0 {
        Seq::empty()
    } else {
        render_items(items.drop_last()) + separator(items.len() - 1) + quoted(
            natural_digits(items.last().0),
        ) + ":"@ + render(items.last().1)
    }
}

fn push_separator(out: &mut Vec<char>, position: usize)
    ensures
        final(out)@ == old(out)@ + separator(position as int),
{
    if position > 0 {
        push_str(out, ",");
    } else {
        assert(out@ =~= out@ + Seq::<char>::empty());
    }
}

fn push_messages(out: &mut Vec<char>, errors: &Vec<Failure>)
    ensures
        final(out)@ == old(out)@ + message_list(failure_views(errors@)),
{
    let ghost before = out@;
    let ghost all = failure_views(errors@);
    let mut i: usize = 0;
    assert(out@ =~= before + message_list(all.take(0)));
    while i < errors.len()
        invariant
            i <= errors.len(),
            all == failure_views(errors@),
            out@ == before + message_list(all.take(i as int)),
        decreases errors.len() - i,
    {
        push_separator(out, i);
        push_quoted(out, errors[i].message.as_str());
        proof {
            let next = all.take(i + 1);
            assert(next.drop_last() =~= all.take(i as int));
            assert(next.last() == errors@[i as int]@);
            assert(out@ =~= before + message_list(next));
        }
        i += 1;
    }
    assert(all.take(errors.len() as int) =~= all);
}

fn push_index_key(out: &mut Vec<char>, index: usize)
    ensures
        final(out)@ == old(out)@ + quoted(natural_digits(index as nat)),
{
    let mut digits: Vec<char> = Vec::new();
    push_natural(&mut digits, index as u128);
    assert(digits@ =~= natural_digits(index as nat));
    let key = string_from_chars(digits);
    push_quoted(out, key.as_str());
}

fn push_own(out: &mut Vec<char>, own: &Vec<Failure>)
    ensures
        final(out)@ == old(out)@ + render_own(failure_views(own@)),
{
    let ghost before = out@;
    push_str(out, "{\"errors\":[");
    push_messages(out, own);
    push_str(out, "]");
    assert(out@ =~= before + render_own(failure_views(own@)));
}

/// Appends the text form of `errors` to `out`.
pub fn push_tree(out: &mut Vec<char>, errors: &Errors)
    ensures
        final(out)@ == old(out)@ + render(errors@),
    decreases errors, 0nat,
{
    match errors {
        Errors::Object { errors: own, properties } => {
            proof {
                lemma_object_view(*own, *properties);
            }
            push_object(out, own, properties);
        },
        Errors::Array { errors: own, items } => {
            proof {
                lemma_array_view(*own, *items);
            }
            push_array(out, own, items);
        },
        Errors::NewType { errors: own } => {
            let ghost before = out@;
            push_own(out, own);
            push_str(out, "}");
            assert(out@ =~= before + (render_own(failure_views(own@)) + "}"@));
        },
    }
}

fn push_object(out: &mut Vec<char>, own: &Vec<Failure>, properties: &Vec<(String, Errors)>)
    ensures
        final(out)@ == old(out)@ + (render_own(failure_views(own@)) + render_entries(
            ",\"properties\":{"@,
            render_properties(property_views(properties@)),
            properties@.len(),
        ) + "}"@),
    decreases properties, 2nat,
{
    let ghost before = out@;
    let ghost head = render_own(failure_views(own@));
    let ghost members = render_properties(property_views(properties@));
    push_own(out, own);
    if properties.len() > 0 {
        push_str(out, ",\"properties\":{");
        push_properties(out, properties);
        push_str(out, "}");
        assert(out@ =~= before + head + (",\"properties\":{"@ + members + "}"@));
    } else {
        assert(out@ =~= before + head + Seq::<char>::empty());
    }
    let ghost entries = render_entries(",\"properties\":{"@, members, properties@.len());
    assert(out@ == before + head + entries);
    push_str(out, "}");
    assert(out@ =~= before + (head + entries + "}"@));
}

fn push_array(out: &mut Vec<char>, own: &Vec<Failure>, items: &Vec<(usize, Errors)>)
    ensures
        final(out)@ == old(out)@ + (render_own(failure_views(own@)) + render_entries(
            ",\"items\":{"@,
            render_items(item_views(items@)),
            items@.len(),
        ) + "}"@),
    decreases items, 2nat,
{
    let ghost before = out@;
    let ghost head = render_own(failure_views(own@));
    let ghost members = render_items(item_views(items@));
    push_own(out, own);
    if items.len() > 0 {
        push_str(out, ",\"items\":{");
        push_items(out, items);
        push_str(out, "}");
        assert(out@ =~= before + head + (",\"items\":{"@ + members + "}"@));
    } else {
        assert(out@ =~= before + head + Seq::<char>::empty());
    }
    let ghost entries = render_entries(",\"items\":{"@, members, items@.len());
    assert(out@ == before + head + entries);
    push_str(out, "}");
    assert(out@ =~= before + (head + entries + "}"@));
}

fn push_properties(out: &mut Vec<char>, properties: &Vec<(String, Errors)>)
    ensures
        final(out)@ == old(out)@ + render_properties(property_views(properties@)),
    decreases properties, 1nat,
{
    let ghost before = out@;
    let ghost entries = property_views(properties@);
    let mut i: usize = 0;
    assert(out@ =~= before + render_properties(entries.take(0)));
    while i < properties.len()
        invariant
            i <= properties.len(),
            entries == property_views(properties@),
            out@ == before + render_properties(entries.take(i as int)),
        decreases properties.len() - i,
    {
        push_separator(out, i);
        push_quoted(out, properties[i].0.as_str());
        push_str(out, ":");
        proof {
            assert(decreases_to!(properties@ => properties@[i as int]));
        }
        push_tree(out, &properties[i].1);
        proof {
            let next = entries.take(i + 1);
            assert(next.drop_last() =~= entries.take(i as int));
            assert(next.last() == entries[i as int]);
            assert(out@ =~= before + render_properties(next));
        }
        i += 1;
    }
    assert(entries.take(properties.len() as int) =~= entries);
}

fn push_items(out: &mut Vec<char>, items: &Vec<(usize, Errors)>)
    ensures
        final(out)@ == old(out)@ + render_items(item_views(items@)),
    decreases items, 1nat,
{
    let ghost before = out@;
    let ghost entries = item_views(items@);
    let mut i: usize = 0;
    assert(out@ =~= before + render_items(entries.take(0)));
    while i < items.len()
        invariant
            i <= items.len(),
            entries == item_views(items@),
            out@ == before + render_items(entries.take(i as int)),
        decreases items.len() - i,
    {
        push_separator(out, i);
        push_index_key(out, items[i].0);
        push_str(out, ":");
        proof {
            assert(decreases_to!(items@ => items@[i as int]));
        }
        push_tree(out, &items[i].1);
        proof {
            let next = entries.take(i + 1);
            assert(next.drop_last() =~= entries.take(i as int));
            assert(next.last() == entries[i as int]);
            assert(out@ =~= before + render_items(next));
        }
        i += 1;
    }
    assert(entries.take(items.len() as int) =~= entries);
}

impl Errors {
    /// The canonical text form of the tree.
    pub fn to_string(&self) -> (text: String)
        ensures
            text@ == render(self@),
    {
        let mut out: Vec<char> = Vec::new();
        push_tree(&mut out, self);
        assert(out@ =~= render(self@));
        string_from_chars(out)
    }
}

} // verus!
