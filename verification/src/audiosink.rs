//! The sink cycler: which physical sink is the default, and which comes next.

use vstd::prelude::*;
use vstd::string::StringExecFns;
use crate::cycle::{after_steps, distinct, first_position, following, is_first, place_after};
use crate::cycle::{lemma_cycle_closes, lemma_first_is_position, lemma_following_in_distinct};
use crate::cycle::{lemma_found, lemma_nowhere_no_position, lemma_position_is_first};
use crate::cycle::lemma_position_of;
use crate::error::{text_of, SwitchError};
use crate::json::{document, read, said, values, Json, JsonValue};
use crate::text::{decimal, same_text, to_decimal};

verus! {

/// What stands under `key` among a sink's properties.
pub open spec fn property_value(sink: JsonValue, key: Seq<char>) -> Option<JsonValue> {
    match sink.member("properties"@) {
        Some(properties) => properties.member(key),
        None => None,
    }
}

/// The text under `key` among a sink's properties.
pub open spec fn property(sink: JsonValue, key: Seq<char>) -> Option<Seq<char>> {
    match property_value(sink, key) {
        Some(value) => value.text(),
        None => None,
    }
}

/// A sink counts as physical unless its properties say, in so many words, that
/// it is virtual: a sink that lacks the property is physical, and so is one
/// under whose property anything stands but the text `true`.
pub open spec fn is_physical(sink: JsonValue) -> bool {
    property(sink, "node.virtual"@) != Some("true"@)
}

/// The test that keeps the physical sinks.
pub open spec fn physical_only() -> spec_fn(JsonValue) -> bool {
    |sink: JsonValue| is_physical(sink)
}

/// The name of a sink, where it has one.
pub open spec fn named(sink: JsonValue) -> Option<Seq<char>> {
    sink.text_member("name"@)
}

/// The index that the server gave a sink, where it has one.
pub open spec fn indexed(sink: JsonValue) -> Option<u64> {
    match sink.member("index"@) {
        Some(index) => index.unsigned(),
        None => None,
    }
}

/// The physical sinks of a listing, in the order of the listing.
pub open spec fn physical(listing: JsonValue) -> Result<Seq<JsonValue>, SwitchError> {
    match listing.items() {
        Some(all) => Ok(all.filter(physical_only())),
        None => Err(SwitchError::NotAnArray),
    }
}

/// The physical sinks according to what the server wrote when asked to list its sinks.
pub open spec fn listed_sinks(output: Seq<u8>) -> Result<Seq<JsonValue>, SwitchError> {
    match document(output) {
        Ok(listing) => physical(listing),
        Err(error) => Err(error),
    }
}

/// A result that holds sinks, with each sink taken as what it says.
pub open spec fn sinks_of(outcome: Result<Vec<Json>, SwitchError>) -> Result<
    Seq<JsonValue>,
    SwitchError,
> {
    match outcome {
        Ok(sinks) => Ok(values(sinks@)),
        Err(error) => Err(error),
    }
}

/// The server's status, from what it wrote when asked for it.
pub fn get_pactl_status(output: &[u8]) -> (status: Result<Json, SwitchError>)
    ensures
        said(status) == document(output@),
{
    read(output)
}

/// Whether a sink is physical.
pub fn is_physical_sink(sink: &Json) -> (kept: bool)
    ensures
        kept == is_physical(sink@),
{
    match sink.get("properties") {
        Some(properties) => match properties.text_member("node.virtual") {
            Some(flag) => !same_text(flag, "true"),
            None => true,
        },
        None => true,
    }
}

/// The physical sinks of a listing, in the order of the listing.
pub fn physical_sinks(listing: Json) -> (sinks: Result<Vec<Json>, SwitchError>)
    ensures
        sinks_of(sinks) == physical(listing@),
{
    match listing {
        Json::Array(items) => {
            let ghost all = values(items@);
            let ghost keep = physical_only();
            proof {
                crate::json::lemma_array_says(items);
            }
            let mut kept: Vec<Json> = Vec::new();
            for sink in each: items.into_iter()
                invariant
                    all == values(items@),
                    each.seq() == items@,
                    keep == physical_only(),
                    values(kept@) == all.take(each.index() as int).filter(keep),
            {
                proof {
                    let seen = each.index() as int;
                    reveal(Seq::filter);
                    assert(all.take(seen + 1).drop_last() =~= all.take(seen));
                    assert(all.take(seen + 1).last() == sink@);
                }
                if is_physical_sink(&sink) {
                    proof {
                        assert(values(kept@.push(sink)) =~= values(kept@).push(sink@));
                    }
                    kept.push(sink);
                }
            }
            proof {
                assert(all.take(all.len() as int) =~= all);
            }
            Ok(kept)
        },
        _ => Err(SwitchError::NotAnArray),
    }
}

/// The physical sinks, from what the server wrote when asked to list its sinks.
pub fn get_sinks(output: &[u8]) -> (sinks: Result<Vec<Json>, SwitchError>)
    ensures
        sinks_of(sinks) == listed_sinks(output@),
{
    match read(output) {
        Ok(listing) => physical_sinks(listing),
        Err(error) => Err(error),
    }
}

/// The name of the default sink according to the server's status.
pub open spec fn default_sink(status: JsonValue) -> Result<Seq<char>, SwitchError> {
    match status.text_member("default_sink_name"@) {
        Some(name) => Ok(name),
        None => Err(SwitchError::MissingDefaultSink),
    }
}

/// Where the search for the sink called `name` ends: at a sink of that name,
/// or at a sink without a name, which cannot be told from the one sought.
pub open spec fn ends_search(name: Seq<char>) -> spec_fn(JsonValue) -> bool {
    |sink: JsonValue| named(sink) is None || named(sink) == Some(name)
}

/// The place of the default sink among `sinks`: that of the first sink that
/// bears the default sink's name, provided that every sink before it has a name.
pub open spec fn current_place(status: JsonValue, sinks: Seq<JsonValue>) -> Result<
    int,
    SwitchError,
> {
    match default_sink(status) {
        Err(error) => Err(error),
        Ok(name) => match first_position(sinks, ends_search(name)) {
            None => Err(SwitchError::UnknownSink),
            Some(at) => if named(sinks[at]) is None {
                Err(SwitchError::MissingSinkName)
            } else {
                Ok(at)
            },
        },
    }
}

/// The index that the server gave the default sink.
pub open spec fn current_index(status: JsonValue, sinks: Seq<JsonValue>) -> Result<
    u64,
    SwitchError,
> {
    match current_place(status, sinks) {
        Err(error) => Err(error),
        Ok(at) => match indexed(sinks[at]) {
            Some(index) => Ok(index),
            None => Err(SwitchError::MissingSinkIndex),
        },
    }
}

/// The indices of `sinks`, in their order, where each sink has one.
pub open spec fn indices(sinks: Seq<JsonValue>) -> Option<Seq<u64>> {
    if forall|at: int| 0 <= at < sinks.len() ==> indexed(#[trigger] sinks[at]) is Some {
        Some(sinks.map_values(|sink: JsonValue| indexed(sink).unwrap()))
    } else {
        None
    }
}

/// The index of the sink to switch to: the one that follows the default
/// sink's index in the list of all indices, the first after the last.
pub open spec fn next_index(status: JsonValue, sinks: Seq<JsonValue>) -> Result<u64, SwitchError> {
    match current_index(status, sinks) {
        Err(error) => Err(error),
        Ok(current) => match indices(sinks) {
            None => Err(SwitchError::MissingSinkIndex),
            // The default sink's index is one of them, so one follows it
            // (`lemma_current_index_listed`).
            Some(all) => Ok(following(all, current).unwrap()),
        },
    }
}

/// What to show for the default sink: its nickname where it has one, and else
/// the name of the default sink.
pub open spec fn description(status: JsonValue, sinks: Seq<JsonValue>) -> Result<
    Seq<char>,
    SwitchError,
> {
    match current_place(status, sinks) {
        Err(error) => Err(error),
        Ok(at) => match property(sinks[at], "node.nick"@) {
            Some(nick) => Ok(nick),
            None => default_sink(status),
        },
    }
}

/// The line that tells the user which sink was set.
pub open spec fn sink_confirmation(status: JsonValue) -> Result<Seq<char>, SwitchError> {
    match default_sink(status) {
        Ok(name) => Ok("Set sink to "@ + name),
        Err(error) => Err(error),
    }
}

/// The sink to make the default: its index, and the index as the server's
/// control utility takes it, written in decimal.
#[derive(Debug, PartialEq, Eq)]
pub struct SinkChange {
    pub index: u64,
    pub argument: String,
}

/// The name of the default sink, from the server's status.
pub fn get_current_sink_name(status: &Json) -> (name: Result<String, SwitchError>)
    ensures
        text_of(name) == default_sink(status@),
{
    match status.text_member("default_sink_name") {
        Some(name) => Ok(String::from_str(name)),
        None => Err(SwitchError::MissingDefaultSink),
    }
}

/// The place of the default sink among `sinks`.
fn current_sink_place(status: &Json, sinks: &Vec<Json>) -> (place: Result<usize, SwitchError>)
    ensures
        match place {
            Ok(at) => at < sinks.len() && current_place(status@, values(sinks@)) == Ok::<
                int,
                SwitchError,
            >(at as int),
            Err(error) => current_place(status@, values(sinks@)) == Err::<int, SwitchError>(error),
        },
{
    let name = match status.text_member("default_sink_name") {
        Some(name) => name,
        None => {
            return Err(SwitchError::MissingDefaultSink);
        },
    };
    let ghost all = values(sinks@);
    let ghost hit = ends_search(name@);
    let mut at: usize = 0;
    while at < sinks.len()
        invariant
            at <= sinks.len(),
            all == values(sinks@),
            default_sink(status@) == Ok::<Seq<char>, SwitchError>(name@),
            hit == ends_search(name@),
            forall|k: int| 0 <= k < at ==> !hit(#[trigger] all[k]),
        decreases sinks.len() - at,
    {
        match sinks[at].text_member("name") {
            Some(found) => {
                if same_text(found, name) {
                    proof {
                        assert(is_first(all, hit, at as int));
                        lemma_first_is_position(all, hit, at as int);
                    }
                    return Ok(at);
                }
            },
            None => {
                proof {
                    assert(is_first(all, hit, at as int));
                    lemma_first_is_position(all, hit, at as int);
                }
                return Err(SwitchError::MissingSinkName);
            },
        }
        at += 1;
    }
    proof {
        lemma_nowhere_no_position(all, hit);
    }
    Err(SwitchError::UnknownSink)
}

/// The default sink: the one among `sinks` that bears the name that the
/// server's status gives.
pub fn get_current_sink_data<'a>(status: &Json, sinks: &'a Vec<Json>) -> (sink: Result<
    &'a Json,
    SwitchError,
>)
    ensures
        match sink {
            Ok(found) => current_place(status@, values(sinks@)) matches Ok(at) && *found
                == sinks@[at],
            Err(error) => current_place(status@, values(sinks@)) == Err::<int, SwitchError>(error),
        },
{
    match current_sink_place(status, sinks) {
        Ok(at) => Ok(&sinks[at]),
        Err(error) => Err(error),
    }
}

/// The index of a sink.
fn sink_index(sink: &Json) -> (index: Option<u64>)
    ensures
        index == indexed(sink@),
{
    match sink.get("index") {
        Some(index) => index.as_u64(),
        None => None,
    }
}

/// The index that the server gave the default sink.
pub fn get_current_sink_index(status: &Json, sinks: &Vec<Json>) -> (index: Result<
    u64,
    SwitchError,
>)
    ensures
        index == current_index(status@, values(sinks@)),
{
    match current_sink_place(status, sinks) {
        Ok(at) => match sink_index(&sinks[at]) {
            Some(index) => Ok(index),
            None => Err(SwitchError::MissingSinkIndex),
        },
        Err(error) => Err(error),
    }
}

/// The indices of `sinks`, in their order.
fn sink_indices(sinks: &Vec<Json>) -> (all: Option<Vec<u64>>)
    ensures
        match all {
            Some(all) => indices(values(sinks@)) == Some(all@),
            None => indices(values(sinks@)) is None,
        },
{
    let ghost said = values(sinks@);
    let mut all: Vec<u64> = Vec::new();
    let mut at: usize = 0;
    while at < sinks.len()
        invariant
            at <= sinks.len(),
            said == values(sinks@),
            all@.len() == at,
            forall|k: int| 0 <= k < at ==> indexed(#[trigger] said[k]) == Some(all@[k]),
        decreases sinks.len() - at,
    {
        match sink_index(&sinks[at]) {
            Some(index) => {
                all.push(index);
            },
            None => {
                assert(indexed(said[at as int]) is None);
                return None;
            },
        }
        at += 1;
    }
    proof {
        assert(indices(said).unwrap() =~= all@);
    }
    Some(all)
}

/// The index of the sink to switch to.
pub fn get_next_sink_pulseaudio_index(status: &Json, sinks: &Vec<Json>) -> (index: Result<
    u64,
    SwitchError,
>)
    ensures
        index == next_index(status@, values(sinks@)),
{
    let current = match get_current_sink_index(status, sinks) {
        Ok(current) => current,
        Err(error) => {
            return Err(error);
        },
    };
    let all = match sink_indices(sinks) {
        Some(all) => all,
        None => {
            return Err(SwitchError::MissingSinkIndex);
        },
    };
    let ghost place = current_place(status@, values(sinks@)).unwrap();
    proof {
        lemma_current_index_listed(status@, values(sinks@));
    }
    let mut at: usize = 0;
    while all[at] != current
        invariant
            at <= place < all.len(),
            all@[place] == current,
            forall|k: int| 0 <= k < at ==> all@[k] != current,
        decreases all.len() - at,
    {
        at += 1;
    }
    proof {
        lemma_found(all@, current, at as int);
    }
    let len: usize = all.len();
    Ok(all[(at + 1) % len])
}

/// What to show for the default sink.
pub fn get_current_sink_description(status: &Json, sinks: &Vec<Json>) -> (shown: Result<
    String,
    SwitchError,
>)
    ensures
        text_of(shown) == description(status@, values(sinks@)),
{
    let sink = match get_current_sink_data(status, sinks) {
        Ok(sink) => sink,
        Err(error) => {
            return Err(error);
        },
    };
    let nick = match sink.get("properties") {
        Some(properties) => properties.text_member("node.nick"),
        None => None,
    };
    match nick {
        Some(nick) => Ok(String::from_str(nick)),
        None => get_current_sink_name(status),
    }
}

/// The sink to make the default in place of the present one.
pub fn set_next_sink(status: &Json, sinks: &Vec<Json>) -> (change: Result<SinkChange, SwitchError>)
    ensures
        match change {
            Ok(change) => next_index(status@, values(sinks@)) == Ok::<u64, SwitchError>(
                change.index,
            ) && change.argument@ == decimal(change.index as nat),
            Err(error) => next_index(status@, values(sinks@)) == Err::<u64, SwitchError>(error),
        },
{
    match get_next_sink_pulseaudio_index(status, sinks) {
        Ok(index) => Ok(SinkChange { index, argument: to_decimal(index) }),
        Err(error) => Err(error),
    }
}

/// The line that confirms the switch, from the status that the server gives
/// once the default sink is set.
pub fn confirm_sink(status: &Json) -> (line: Result<String, SwitchError>)
    ensures
        text_of(line) == sink_confirmation(status@),
{
    match status.text_member("default_sink_name") {
        Some(name) => Ok(String::from_str("Set sink to ").concat(name)),
        None => Err(SwitchError::MissingDefaultSink),
    }
}

/// The default sink's place is a place among the sinks, and the index found
/// there is listed among the indices of all sinks, at that place.
pub proof fn lemma_current_index_listed(status: JsonValue, sinks: Seq<JsonValue>)
    ensures
        current_place(status, sinks) matches Ok(at) ==> 0 <= at < sinks.len() && named(sinks[at])
            == Some(default_sink(status).unwrap()),
        current_index(status, sinks) matches Ok(current) ==> (indices(sinks) matches Some(all)
            ==> {
            &&& all.len() == sinks.len()
            &&& all[current_place(status, sinks).unwrap()] == current
            &&& following(all, current) is Some
        }),
{
    if let Ok(name) = default_sink(status) {
        lemma_position_is_first(sinks, ends_search(name));
    }
    if let Ok(current) = current_index(status, sinks) {
        if let Some(all) = indices(sinks) {
            let at = current_place(status, sinks).unwrap();
            assert(all[at] == current);
            lemma_position_of(all, current);
        }
    }
}

/// Which sinks are kept. A sink without the property `node.virtual` is
/// physical; one with the text `true` under it is not; one with anything else
/// under it is. A listing's physical sinks are its sinks that are physical,
/// and no others.
pub proof fn lemma_sink_filtering(sink: JsonValue, all: Seq<JsonValue>)
    ensures
        property_value(sink, "node.virtual"@) is None ==> is_physical(sink),
        property_value(sink, "node.virtual"@) == Some(JsonValue::String("true"@)) ==> !is_physical(
            sink,
        ),
        property_value(sink, "node.virtual"@) matches Some(value) ==> (value != JsonValue::String(
            "true"@,
        ) ==> is_physical(sink)),
        all.filter(physical_only()).contains(sink) <==> all.contains(sink) && is_physical(sink),
{
    let kept = all.filter(physical_only());
    if kept.contains(sink) {
        let at = choose|at: int| 0 <= at < kept.len() && kept[at] == sink;
        all.lemma_filter_pred(physical_only(), at);
        all.lemma_filter_contains_rev(physical_only(), sink);
    }
    if all.contains(sink) && is_physical(sink) {
        let at = choose|at: int| 0 <= at < all.len() && all[at] == sink;
        all.lemma_filter_contains(physical_only(), at);
    }
}

/// Without a nickname the description is the sink's own name: where the
/// default sink has no text under `node.nick`, what is shown for it is what
/// stands under its `name`.
pub proof fn lemma_description_falls_back(status: JsonValue, sinks: Seq<JsonValue>)
    requires
        current_place(status, sinks) is Ok,
        property(sinks[current_place(status, sinks).unwrap()], "node.nick"@) is None,
    ensures
        description(status, sinks) == Ok::<Seq<char>, SwitchError>(
            named(sinks[current_place(status, sinks).unwrap()]).unwrap(),
        ),
{
    lemma_current_index_listed(status, sinks);
}

/// Stepping through sinks whose indices differ: from the default sink the next
/// index is the one that stands one place further on, the first after the
/// last; and as many steps as there are sinks lead back to the index they
/// began with.
pub proof fn lemma_sinks_cycle(status: JsonValue, sinks: Seq<JsonValue>)
    requires
        current_place(status, sinks) is Ok,
        indices(sinks) is Some,
        distinct(indices(sinks).unwrap()),
    ensures
        ({
            let at = current_place(status, sinks).unwrap();
            let all = indices(sinks).unwrap();
            &&& current_index(status, sinks) == Ok::<u64, SwitchError>(all[at])
            &&& next_index(status, sinks) == Ok::<u64, SwitchError>(
                all[place_after(at, all.len() as int)],
            )
            &&& after_steps(all, all[at], all.len()) == Some(all[at])
        }),
{
    let at = current_place(status, sinks).unwrap();
    let all = indices(sinks).unwrap();
    lemma_current_index_listed(status, sinks);
    assert(indexed(sinks[at]) == Some(all[at]));
    lemma_following_in_distinct(all, at);
    lemma_cycle_closes(all, at);
}

} // verus!
