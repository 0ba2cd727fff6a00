//! Decoding inbound webhook events into actions.
//!
//! Transport, signature verification and JSON framing stay outside; this
//! module receives plain event values and decides, for each, which action
//! — if any — the dispatcher runs. Unknown postback paths are rejected;
//! unknown event kinds and modes are dropped.

use vstd::prelude::*;
use crate::client::{ChannelKind, ChannelView, Client, LineChannel};
use crate::coordinates::{Coordinates, MICRO_MAGNITUDE_CAP};
use crate::dispatch::{Action, ActionView};
use crate::message::{MessageContent, MessageView};
use crate::meal::Meal;
use crate::strutil::str_eq;
use crate::user_action::{spec_from_data, UserAction};

verus! {

/// The conversation source descriptor of an inbound event.
#[derive(Debug, Clone)]
pub struct EventSource {
    pub source_type: String,
    pub user_id: Option<String>,
    pub room_id: Option<String>,
    pub group_id: Option<String>,
}

pub ghost struct EventSourceView {
    pub source_type: Seq<char>,
    pub user_id: Option<Seq<char>>,
    pub room_id: Option<Seq<char>>,
    pub group_id: Option<Seq<char>>,
}

pub open spec fn opt_sv(o: Option<String>) -> Option<Seq<char>> {
    match o {
        Some(s) => Some(s@),
        None => None,
    }
}

impl View for EventSource {
    type V = EventSourceView;

    open spec fn view(&self) -> EventSourceView {
        EventSourceView {
            source_type: self.source_type@,
            user_id: opt_sv(self.user_id),
            room_id: opt_sv(self.room_id),
            group_id: opt_sv(self.group_id),
        }
    }
}

/// A postback: the payload the pressed button re-submitted.
#[derive(Debug, Clone)]
pub struct Postback {
    pub data: String,
}

impl View for Postback {
    type V = Seq<char>;

    open spec fn view(&self) -> Seq<char> {
        self.data@
    }
}

/// One inbound webhook event.
#[derive(Debug, Clone)]
pub struct Event {
    pub event_type: String,
    pub mode: String,
    pub source: EventSource,
    pub postback: Option<Postback>,
    pub message: Option<MessageContent>,
}

pub ghost struct EventView {
    pub event_type: Seq<char>,
    pub mode: Seq<char>,
    pub source: EventSourceView,
    pub postback: Option<Seq<char>>,
    pub message: Option<MessageView>,
}

impl View for Event {
    type V = EventView;

    open spec fn view(&self) -> EventView {
        EventView {
            event_type: self.event_type@,
            mode: self.mode@,
            source: self.source@,
            postback: match self.postback {
                Some(ref p) => Some(p.data@),
                None => None,
            },
            message: match self.message {
                Some(ref m) => Some(m@),
                None => None,
            },
        }
    }
}

/// An inbound payload: the bot it was delivered to and its events.
#[derive(Debug, Clone)]
pub struct Payload {
    pub destination: String,
    pub events: Vec<Event>,
}

/// The conversation a source descriptor denotes, if its ids are complete.
pub open spec fn spec_to_client(v: EventSourceView) -> Option<ChannelView> {
    if v.source_type == "user"@ {
        match v.user_id {
            Some(u) => Some(ChannelView { kind: ChannelKind::User, id: u, user_id: Some(u) }),
            None => None,
        }
    } else if v.source_type == "group"@ {
        match v.group_id {
            Some(g) => Some(ChannelView { kind: ChannelKind::Group, id: g, user_id: v.user_id }),
            None => None,
        }
    } else if v.source_type == "room"@ {
        match v.room_id {
            Some(r) => Some(ChannelView { kind: ChannelKind::Room, id: r, user_id: v.user_id }),
            None => None,
        }
    } else {
        None
    }
}

impl EventSource {
    /// Rebuilds the conversation reference, when the descriptor names one.
    pub fn to_client(&self) -> (r: Option<Client>)
        ensures
            match r {
                Some(c) => spec_to_client(self@) == Some(c@),
                None => spec_to_client(self@) is None,
            },
    {
        if str_eq(self.source_type.as_str(), "user") {
            match &self.user_id {
                Some(id) => Some(Client::Line(LineChannel::User(id.clone()))),
                None => None,
            }
        } else if str_eq(self.source_type.as_str(), "group") {
            match &self.group_id {
                Some(id) => Some(
                    Client::Line(
                        LineChannel::Group {
                            id: id.clone(),
                            user_id: match &self.user_id {
                                Some(u) => Some(u.clone()),
                                None => None,
                            },
                        },
                    ),
                ),
                None => None,
            }
        } else if str_eq(self.source_type.as_str(), "room") {
            match &self.room_id {
                Some(id) => Some(
                    Client::Line(
                        LineChannel::Room {
                            id: id.clone(),
                            user_id: match &self.user_id {
                                Some(u) => Some(u.clone()),
                                None => None,
                            },
                        },
                    ),
                ),
                None => None,
            }
        } else {
            None
        }
    }
}

/// What case folding a message text yields; the folding itself is the
/// platform library's.
pub uninterp spec fn lower_of(s: Seq<char>) -> Seq<char>;

/// Relies on str::to_lowercase: the lowercase mapping of the text,
/// depending on its characters alone.
#[verifier::external_body]
fn lowercase(s: &str) -> (r: String)
    ensures
        r@ == lower_of(s@),
{
    s.to_lowercase()
}

/// What trimming the surrounding whitespace off a text yields.
pub uninterp spec fn trim_of(s: Seq<char>) -> Seq<char>;

/// Relies on str::trim: the text without leading and trailing whitespace,
/// depending on its characters alone.
#[verifier::external_body]
fn trimmed(s: &str) -> (r: String)
    ensures
        r@ == trim_of(s@),
{
    s.trim().to_owned()
}

/// The two text commands a free-text message can give.
#[derive(Debug, Clone, Copy, PartialEq, Eq, Structural)]
pub enum TextCommand {
    Refresh,
    WhoAmI,
}

/// Which command a folded, trimmed text names.
pub open spec fn spec_match_command(t: Seq<char>) -> Option<TextCommand> {
    if t == "refresh"@ || t == "更新"@ {
        Some(TextCommand::Refresh)
    } else if t == "whoami"@ {
        Some(TextCommand::WhoAmI)
    } else {
        None
    }
}

/// Matches an already folded and trimmed text against the known commands.
pub fn match_command(t: &str) -> (r: Option<TextCommand>)
    ensures
        r == spec_match_command(t@),
{
    if str_eq(t, "refresh") {
        Some(TextCommand::Refresh)
    } else if str_eq(t, "更新") {
        Some(TextCommand::Refresh)
    } else if str_eq(t, "whoami") {
        Some(TextCommand::WhoAmI)
    } else {
        None
    }
}

/// The action a free-text or location message gives: the two text
/// commands, or a shared location with both components present and small
/// enough to render.
pub open spec fn spec_message_to_action(c: Option<ChannelView>, m: MessageView) -> Option<
    ActionView,
> {
    match c {
        None => None,
        Some(c) => {
            if m.message_type == "text"@ {
                match m.text {
                    None => None,
                    Some(t) => match spec_match_command(trim_of(lower_of(t))) {
                        Some(TextCommand::Refresh) => Some(ActionView::Refresh(c)),
                        Some(TextCommand::WhoAmI) => Some(ActionView::WhoAmI(c)),
                        None => None,
                    },
                }
            } else if m.message_type == "location"@ {
                match (m.latitude, m.longitude) {
                    (Some(la), Some(lo)) => if -MICRO_MAGNITUDE_CAP < la < MICRO_MAGNITUDE_CAP
                        && -MICRO_MAGNITUDE_CAP < lo < MICRO_MAGNITUDE_CAP {
                        Some(ActionView::Location(c, Coordinates { latitude: la, longitude: lo }))
                    } else {
                        None
                    },
                    _ => None,
                }
            } else {
                None
            }
        },
    }
}

/// Decodes a message event.
pub fn message_to_action(event: &Event) -> (r: Option<Action>)
    ensures
        ({
            let spec_r = match event@.message {
                Some(m) => spec_message_to_action(spec_to_client(event@.source), m),
                None => None,
            };
            match r {
                Some(a) => spec_r == Some(a@),
                None => spec_r is None,
            }
        }),
{
    let message = match &event.message {
        Some(m) => m,
        None => {
            return None;
        },
    };
    let client = match event.source.to_client() {
        Some(c) => c,
        None => {
            return None;
        },
    };
    if str_eq(message.message_type.as_str(), "text") {
        match &message.text {
            None => None,
            Some(t) => {
                let folded = trimmed(lowercase(t.as_str()).as_str());
                match match_command(folded.as_str()) {
                    Some(TextCommand::Refresh) => Some(Action::Refresh(client)),
                    Some(TextCommand::WhoAmI) => Some(Action::WhoAmI(client)),
                    None => None,
                }
            },
        }
    } else if str_eq(message.message_type.as_str(), "location") {
        match (message.latitude, message.longitude) {
            (Some(la), Some(lo)) => {
                if -MICRO_MAGNITUDE_CAP < la && la < MICRO_MAGNITUDE_CAP && -MICRO_MAGNITUDE_CAP
                    < lo && lo < MICRO_MAGNITUDE_CAP {
                    Some(Action::Location(client, Coordinates { latitude: la, longitude: lo }))
                } else {
                    None
                }
            },
            _ => None,
        }
    } else {
        None
    }
}

/// The action a postback payload gives; an add postback has no server-side
/// action, and unknown payloads are rejected.
pub open spec fn spec_postback_to_action(c: Option<ChannelView>, data: Seq<char>) -> Option<
    ActionView,
> {
    match c {
        None => None,
        Some(c) => match spec_from_data(data) {
            Some(UserAction::Draw(m, coords)) => Some(ActionView::Draw(c, m, coords)),
            Some(UserAction::Postpone(coords)) => Some(ActionView::PostponeCurrent(c, coords)),
            Some(UserAction::DeleteCurrent(coords)) => Some(
                ActionView::RemoveCurrent(c, coords),
            ),
            Some(UserAction::ArchiveCurrent(coords)) => Some(
                ActionView::ArchiveCurrent(c, coords),
            ),
            Some(UserAction::ClearLocation) => Some(ActionView::ClearLocation(c)),
            Some(UserAction::Add) => None,
            Some(UserAction::Refresh) => Some(ActionView::Refresh(c)),
            None => None,
        },
    }
}

/// The action one event gives: only message and postback events in the
/// active mode are acted on.
pub open spec fn spec_event_action(e: EventView) -> Option<ActionView> {
    if e.event_type == "message"@ {
        match e.message {
            Some(m) => spec_message_to_action(spec_to_client(e.source), m),
            None => None,
        }
    } else if e.event_type == "postback"@ {
        match e.postback {
            Some(d) => spec_postback_to_action(spec_to_client(e.source), d),
            None => None,
        }
    } else {
        None
    }
}

/// Decodes one event.
pub fn event_action(event: &Event) -> (r: Option<Action>)
    ensures
        match r {
            Some(a) => spec_event_action(event@) == Some(a@),
            None => spec_event_action(event@) is None,
        },
{
    if str_eq(event.event_type.as_str(), "message") {
        message_to_action(event)
    } else if str_eq(event.event_type.as_str(), "postback") {
        let client = match event.source.to_client() {
            Some(c) => c,
            None => {
                return None;
            },
        };
        let postback = match &event.postback {
            Some(p) => p,
            None => {
                return None;
            },
        };
        match UserAction::from_data(postback.data.as_str()) {
            Some(UserAction::Draw(m, coords)) => Some(Action::Draw(client, m, coords)),
            Some(UserAction::Postpone(coords)) => Some(
                Action::PostponeCurrent(client, coords),
            ),
            Some(UserAction::DeleteCurrent(coords)) => Some(
                Action::RemoveCurrent(client, coords),
            ),
            Some(UserAction::ArchiveCurrent(coords)) => Some(
                Action::ArchiveCurrent(client, coords),
            ),
            Some(UserAction::ClearLocation) => Some(Action::ClearLocation(client)),
            Some(UserAction::Add) => None,
            Some(UserAction::Refresh) => Some(Action::Refresh(client)),
            None => None,
        }
    } else {
        None
    }
}

/// The action an add-place form submission gives: a known source kind and
/// a known time choice, or nothing.
pub open spec fn spec_form_action(
    source_type: Seq<char>,
    source_id: Seq<char>,
    place: Seq<char>,
    time: Seq<char>,
) -> Option<ActionView> {
    let channel: Option<ChannelView> = if source_type == "user"@ {
        Some(ChannelView { kind: ChannelKind::User, id: source_id, user_id: Some(source_id) })
    } else if source_type == "group"@ {
        Some(ChannelView { kind: ChannelKind::Group, id: source_id, user_id: None })
    } else if source_type == "room"@ {
        Some(ChannelView { kind: ChannelKind::Room, id: source_id, user_id: None })
    } else {
        None
    };
    match channel {
        None => None,
        Some(c) => {
            let meals: Option<Seq<Meal>> = if time == "both"@ {
                Some(seq![Meal::Lunch, Meal::Dinner])
            } else if time == "lunch"@ {
                Some(seq![Meal::Lunch])
            } else if time == "dinner"@ {
                Some(seq![Meal::Dinner])
            } else {
                None
            };
            match meals {
                Some(m) => Some(ActionView::Add(c, place, m)),
                None => None,
            }
        },
    }
}

/// Decodes an add-place form submission.
pub fn form_to_action(source_type: &str, source_id: &str, place: &str, time: &str) -> (r:
    Option<Action>)
    ensures
        match r {
            Some(a) => spec_form_action(source_type@, source_id@, place@, time@) == Some(a@),
            None => spec_form_action(source_type@, source_id@, place@, time@) is None,
        },
{
    let channel: Option<LineChannel> = if str_eq(source_type, "user") {
        Some(LineChannel::User(String::from_str(source_id)))
    } else if str_eq(source_type, "group") {
        Some(LineChannel::Group { id: String::from_str(source_id), user_id: None })
    } else if str_eq(source_type, "room") {
        Some(LineChannel::Room { id: String::from_str(source_id), user_id: None })
    } else {
        None
    };
    let channel = match channel {
        Some(c) => c,
        None => {
            return None;
        },
    };
    let mut meals: Vec<Meal> = Vec::new();
    if str_eq(time, "both") {
        meals.push(Meal::Lunch);
        meals.push(Meal::Dinner);
    } else if str_eq(time, "lunch") {
        meals.push(Meal::Lunch);
    } else if str_eq(time, "dinner") {
        meals.push(Meal::Dinner);
    } else {
        return None;
    }
    proof {
        if time@ == "both"@ {
            assert(meals@ =~= seq![Meal::Lunch, Meal::Dinner]);
        } else if time@ == "lunch"@ {
            assert(meals@ =~= seq![Meal::Lunch]);
        } else {
            assert(meals@ =~= seq![Meal::Dinner]);
        }
    }
    Some(Action::Add(Client::Line(channel), String::from_str(place), meals))
}

pub open spec fn evs(s: Seq<Event>) -> Seq<EventView> {
    s.map_values(|e: Event| e@)
}

pub open spec fn avs(s: Seq<Action>) -> Seq<ActionView> {
    s.map_values(|a: Action| a@)
}

/// The actions a batch of events gives, in order: events outside the
/// active mode, and events giving no action, are dropped.
pub open spec fn spec_parse_events(events: Seq<EventView>) -> Seq<ActionView>
    decreases events.len(),
{
    if events.len() == 0 {
        Seq::<ActionView>::empty()
    } else {
        let rest = spec_parse_events(events.skip(1));
        if events[0].mode == "active"@ {
            match spec_event_action(events[0]) {
                Some(a) => seq![a] + rest,
                None => rest,
            }
        } else {
            rest
        }
    }
}

/// Decodes a batch of events into the actions to dispatch.
pub fn parse_webhook_events(payload: &Payload) -> (r: Vec<Action>)
    ensures
        avs(r@) == spec_parse_events(evs(payload.events@)),
{
    let events = &payload.events;
    let n = events.len();
    let mut out: Vec<Action> = Vec::new();
    let mut i: usize = 0;
    proof {
        assert(evs(events@).skip(0) =~= evs(events@));
        assert(avs(out@) + spec_parse_events(evs(events@)) =~= spec_parse_events(evs(events@)));
    }
    while i < n
        invariant
            0 <= i <= n,
            n == events@.len(),
            spec_parse_events(evs(events@)) == avs(out@) + spec_parse_events(
                evs(events@).skip(i as int),
            ),
        decreases n - i,
    {
        let ghost pre = avs(out@);
        let ghost tail = evs(events@).skip(i as int);
        proof {
            assert(tail.len() > 0);
            assert(tail[0] == evs(events@)[i as int]);
            assert(tail.skip(1) =~= evs(events@).skip(i + 1));
        }
        let event = &events[i];
        if str_eq(event.mode.as_str(), "active") {
            match event_action(event) {
                Some(a) => {
                    let ghost av = a@;
                    out.push(a);
                    proof {
                        assert(avs(out@) =~= pre.push(av));
                        assert(seq![av] + spec_parse_events(tail.skip(1)) =~= Seq::<
                            ActionView,
                        >::empty().push(av) + spec_parse_events(tail.skip(1)));
                        assert(pre + (seq![av] + spec_parse_events(tail.skip(1))) =~= avs(out@)
                            + spec_parse_events(tail.skip(1)));
                    }
                },
                None => {
                    proof {
                        assert(pre + spec_parse_events(tail) =~= pre + spec_parse_events(
                            tail.skip(1),
                        ));
                    }
                },
            }
        } else {
            proof {
                assert(pre + spec_parse_events(tail) =~= pre + spec_parse_events(tail.skip(1)));
            }
        }
        i += 1;
    }
    proof {
        assert(evs(events@).skip(n as int).len() == 0);
        assert(avs(out@) + spec_parse_events(evs(events@).skip(n as int)) =~= avs(out@));
    }
    out
}

} // verus!
