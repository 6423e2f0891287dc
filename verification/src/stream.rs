//! The lines of the bridge's update stream: a data line holds a JSON array
//! of envelopes, and each envelope an array of updates under `data`.

use crate::json::{
    as_elements, json_model, json_parsed, json_rendered, member, parse, render, JsonModel,
};
use crate::text::strip_prefix;
use vstd::prelude::*;

verus! {

/// The compact texts of the first `n` of `items`, in order.
pub open spec fn rendered_all(items: Seq<JsonModel>, n: int) -> Seq<Seq<char>>
    decreases n,
{
    if n <= 0 {
        Seq::empty()
    } else {
        rendered_all(items, n - 1).push(json_rendered(items[n - 1]))
    }
}

/// The updates of one envelope: the elements of its member `data`, if that is
/// an array.
pub open spec fn updates_of(envelope: JsonModel) -> Seq<Seq<char>> {
    match envelope.member("data"@) {
        Some(data) => match data.elements() {
            Some(items) => rendered_all(items, items.len() as int),
            None => Seq::empty(),
        },
        None => Seq::empty(),
    }
}

/// The updates of the first `n` envelopes, in order.
pub open spec fn updates_in(envelopes: Seq<JsonModel>, n: int) -> Seq<Seq<char>>
    decreases n,
{
    if n <= 0 {
        Seq::empty()
    } else {
        updates_in(envelopes, n - 1) + updates_of(envelopes[n - 1])
    }
}

/// The updates that follow the prefix of a data line: none unless what
/// follows is a JSON array.
pub open spec fn updates_of_data(data: Seq<char>) -> Seq<Seq<char>> {
    match json_parsed(data) {
        Some(doc) => match doc.elements() {
            Some(envelopes) => updates_in(envelopes, envelopes.len() as int),
            None => Seq::empty(),
        },
        None => Seq::empty(),
    }
}

/// The updates of one line of the stream: none unless the line starts with
/// `data: `.
pub open spec fn updates_of_line(line: Seq<char>) -> Seq<Seq<char>> {
    if "data: "@.is_prefix_of(line) {
        updates_of_data(line.subrange("data: "@.len() as int, line.len() as int))
    } else {
        Seq::empty()
    }
}

/// Appends the updates of one envelope to `updates`.
fn collect_updates(updates: &mut Vec<String>, envelope: &serde_json::Value)
    ensures
        final(updates).deep_view() == old(updates).deep_view() + updates_of(json_model(*envelope)),
{
    let ghost start = updates.deep_view();
    match member(envelope, "data") {
        Some(data) => match as_elements(data) {
            Some(items) => {
                let ghost models = items@.map_values(|x: serde_json::Value| json_model(x));
                let mut k: usize = 0;
                assert(updates.deep_view() =~= start + rendered_all(models, 0));
                while k < items.len()
                    invariant
                        k <= items@.len(),
                        models == items@.map_values(|x: serde_json::Value| json_model(x)),
                        updates.deep_view() == start + rendered_all(models, k as int),
                    decreases items@.len() - k,
                {
                    let ghost so_far = updates.deep_view();
                    let text = render(&items[k]);
                    updates.push(text);
                    assert(updates.deep_view() =~= so_far.push(text@));
                    assert(models[k as int] == json_model(items@[k as int]));
                    assert(so_far.push(text@) =~= start + rendered_all(models, k + 1));
                    k += 1;
                }
            },
            None => {
                assert(updates.deep_view() =~= start + Seq::<Seq<char>>::empty());
            },
        },
        None => {
            assert(updates.deep_view() =~= start + Seq::<Seq<char>>::empty());
        },
    }
}

/// The updates that one line of the stream carries, each as compact JSON
/// text. A line that is no data line, or whose data is malformed, carries
/// none.
pub fn updates_in_line(line: &str) -> (updates: Vec<String>)
    ensures
        updates.deep_view() == updates_of_line(line@),
{
    let mut updates: Vec<String> = Vec::new();
    assert(updates.deep_view() =~= Seq::empty());
    match strip_prefix(line, "data: ") {
        Some(data) => {
            assert("data: "@.is_prefix_of(line@)) by {
                assert(line@.subrange(0, "data: "@.len() as int) =~= "data: "@);
            }
            assert(line@.subrange("data: "@.len() as int, line@.len() as int) =~= data@);
            match parse(data) {
                Some(doc) => match as_elements(&doc) {
                    Some(envelopes) => {
                        let ghost models = envelopes@.map_values(
                            |x: serde_json::Value| json_model(x),
                        );
                        let mut i: usize = 0;
                        while i < envelopes.len()
                            invariant
                                i <= envelopes@.len(),
                                models == envelopes@.map_values(
                                    |x: serde_json::Value| json_model(x),
                                ),
                                updates.deep_view() == updates_in(models, i as int),
                            decreases envelopes@.len() - i,
                        {
                            assert(models[i as int] == json_model(envelopes@[i as int]));
                            collect_updates(&mut updates, &envelopes[i]);
                            i += 1;
                        }
                    },
                    None => {},
                },
                None => {},
            }
        },
        None => {},
    }
    updates
}

} // verus!
