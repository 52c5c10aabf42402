//! Events that scripts send by name.

use vstd::prelude::*;

use crate::text::{contains_text, texts};

verus! {

/// Under this key the warnings about all unknown events are counted together, so that names made up
/// by scripts cannot grow what the warner remembers.
pub const UNKNOWN_EVENT_KEY: &'static str = "<unknown event>";

/// What is done first about an event that a script sends.
#[derive(Clone, Copy, Debug, PartialEq, Eq, Structural)]
pub enum EventLookup {
    /// The node drives no application: the event is dropped.
    NoApp,
    /// No event is registered: the event is dropped.
    NothingRegistered,
    /// No event of that name is registered: the event is dropped.
    Unknown,
    /// The mapper of that name is to be called with the payload.
    CallMapper,
}

/// What is done about an event whose mapper was called.
#[derive(Clone, Copy, Debug, PartialEq, Eq, Structural)]
pub enum EventDelivery {
    /// The mapper refused the payload: the event is dropped.
    Rejected,
    /// The application has no event channel: the event is dropped.
    NoChannel,
    /// The event is to be put into the channel.
    Send,
}

/// What is done first about an event that a script sends.
pub open spec fn lookup(
    has_app: bool,
    registered: Option<Seq<Seq<char>>>,
    name: Seq<char>,
) -> EventLookup {
    if !has_app {
        EventLookup::NoApp
    } else {
        match registered {
            None => EventLookup::NothingRegistered,
            Some(names) => if names.contains(name) {
                EventLookup::CallMapper
            } else {
                EventLookup::Unknown
            },
        }
    }
}

/// The names that are registered, if any events are.
pub open spec fn registered_names(registered: Option<&Vec<String>>) -> Option<Seq<Seq<char>>> {
    match registered {
        Some(names) => Some(texts(names@)),
        None => None,
    }
}

/// What is done first about an event that a script sends, given the names that are registered.
pub fn gd_send_event(has_app: bool, registered: Option<&Vec<String>>, name: &str) -> (r:
    EventLookup)
    ensures
        r == lookup(has_app, registered_names(registered), name@),
{
    if !has_app {
        return EventLookup::NoApp;
    }
    match registered {
        None => EventLookup::NothingRegistered,
        Some(names) => if contains_text(names, name) {
            EventLookup::CallMapper
        } else {
            EventLookup::Unknown
        },
    }
}

/// What is done about an event whose mapper was called.
pub open spec fn delivery(accepted: bool, has_channel: bool) -> EventDelivery {
    if !accepted {
        EventDelivery::Rejected
    } else if !has_channel {
        EventDelivery::NoChannel
    } else {
        EventDelivery::Send
    }
}

/// What is done about an event whose mapper was called.
pub fn event_delivery(accepted: bool, has_channel: bool) -> (r: EventDelivery)
    ensures
        r == delivery(accepted, has_channel),
{
    if !accepted {
        EventDelivery::Rejected
    } else if !has_channel {
        EventDelivery::NoChannel
    } else {
        EventDelivery::Send
    }
}

/// The key under which the warner counts, where it is asked at all: for an unknown name the common
/// one, for a payload that the mapper of a name refused that name.
pub open spec fn warner_key(looked_up: EventLookup, accepted: bool, name: Seq<char>) -> Option<
    Seq<char>,
> {
    match looked_up {
        EventLookup::Unknown => Some(UNKNOWN_EVENT_KEY@),
        EventLookup::CallMapper => if accepted {
            None
        } else {
            Some(name)
        },
        _ => None,
    }
}

/// The key under which the warner counts, where it is asked at all.
pub fn warning_key<'a>(looked_up: EventLookup, accepted: bool, name: &'a str) -> (r: Option<
    &'a str,
>)
    ensures
        match r {
            Some(key) => warner_key(looked_up, accepted, name@) == Some(key@),
            None => warner_key(looked_up, accepted, name@) is None,
        },
{
    match looked_up {
        EventLookup::Unknown => Some(UNKNOWN_EVENT_KEY),
        EventLookup::CallMapper => if accepted {
            None
        } else {
            Some(name)
        },
        EventLookup::NoApp => None,
        EventLookup::NothingRegistered => None,
    }
}

/// One event that a script sent: whether there was an application, the name, and whether its mapper,
/// if it was called, took the payload.
pub struct EventCall {
    pub has_app: bool,
    pub name: Seq<char>,
    pub accepted: bool,
}

/// The key that the warner was asked about for an event.
pub open spec fn key_of(registered: Seq<Seq<char>>, call: EventCall) -> Option<Seq<char>> {
    warner_key(lookup(call.has_app, Some(registered), call.name), call.accepted, call.name)
}

/// All keys that the warner was asked about.
pub open spec fn keys_asked(registered: Seq<Seq<char>>, calls: Seq<EventCall>) -> Set<Seq<char>> {
    Set::new(
        |key: Seq<char>|
            exists|i: int|
                0 <= i < calls.len() && key_of(registered, #[trigger] calls[i]) == Some(key),
    )
}

/// Whatever names scripts make up, the warner is asked about no more keys than there are registered
/// names and one.
pub proof fn law_warner_stays_bounded(registered: Seq<Seq<char>>, calls: Seq<EventCall>)
    ensures
        keys_asked(registered, calls).subset_of(registered.to_set().insert(UNKNOWN_EVENT_KEY@)),
        keys_asked(registered, calls).len() <= registered.len() + 1,
{
    let asked = keys_asked(registered, calls);
    let allowed = registered.to_set().insert(UNKNOWN_EVENT_KEY@);
    assert forall|key: Seq<char>| asked.contains(key) implies allowed.contains(key) by {
        let i = choose|i: int|
            0 <= i < calls.len() && key_of(registered, #[trigger] calls[i]) == Some(key);
        assert(lookup(calls[i].has_app, Some(registered), calls[i].name) is CallMapper ==> registered.contains(
            calls[i].name,
        ));
    }
    registered.lemma_cardinality_of_set();
    vstd::set_lib::lemma_len_subset(asked, allowed);
}

/// An event is put into the channel just when there is an application, the name is registered, its
/// mapper takes the payload, and there is a channel.
pub proof fn law_event_is_sent(
    has_app: bool,
    registered: Option<Seq<Seq<char>>>,
    name: Seq<char>,
    accepted: bool,
    has_channel: bool,
)
    ensures
        lookup(has_app, registered, name) is CallMapper && delivery(accepted, has_channel) is Send
            <==> has_app && registered is Some && registered->Some_0.contains(name) && accepted
            && has_channel,
{
}

/// What becomes of an event that a script sends: without an application it is dropped; without any
/// events registered, too; with some, its mapper is called if its name is among them, and it is
/// unknown if not.
pub proof fn law_event_is_looked_up_by_name(
    has_app: bool,
    registered: Option<Seq<Seq<char>>>,
    name: Seq<char>,
)
    ensures
        lookup(has_app, registered, name) == EventLookup::NoApp <==> !has_app,
        lookup(has_app, registered, name) == EventLookup::NothingRegistered <==> has_app
            && registered is None,
        lookup(has_app, registered, name) == EventLookup::CallMapper <==> has_app && registered
            is Some && registered->Some_0.contains(name),
        lookup(has_app, registered, name) == EventLookup::Unknown <==> has_app && registered is Some
            && !registered->Some_0.contains(name),
{
}

/// What becomes of an event whose mapper was called: it is sent if the mapper took the payload and
/// there is a channel; that the mapper refused it counts first.
pub proof fn law_event_is_delivered_or_dropped(accepted: bool, has_channel: bool)
    ensures
        delivery(accepted, has_channel) == EventDelivery::Rejected <==> !accepted,
        delivery(accepted, has_channel) == EventDelivery::NoChannel <==> accepted && !has_channel,
        delivery(accepted, has_channel) == EventDelivery::Send <==> accepted && has_channel,
{
}

/// The warner is asked about an unknown name, under the common key, and about a payload that was
/// refused, under the name of the event; and about nothing else.
pub proof fn law_warner_is_asked_where_something_is_wrong(
    looked_up: EventLookup,
    accepted: bool,
    name: Seq<char>,
)
    ensures
        looked_up == EventLookup::Unknown ==> warner_key(looked_up, accepted, name) == Some(
            "<unknown event>"@,
        ),
        looked_up == EventLookup::CallMapper && !accepted ==> warner_key(looked_up, accepted, name)
            == Some(name),
        looked_up == EventLookup::CallMapper && accepted ==> warner_key(looked_up, accepted, name)
            is None,
        looked_up == EventLookup::NoApp || looked_up == EventLookup::NothingRegistered
            ==> warner_key(looked_up, accepted, name) is None,
{
}

/// The names that are registered are looked up as they stand.
pub proof fn law_registered_names_are_all_known(names: &Vec<String>, i: int)
    ensures
        registered_names(None) is None,
        registered_names(Some(names)) is Some,
        registered_names(Some(names))->Some_0.len() == names@.len(),
        0 <= i < names@.len() ==> registered_names(Some(names))->Some_0[i] == names@[i]@,
{
}

} // verus!
