//! The action dispatcher: one decoded intent plus the jar's state go in,
//! the state transition and the outbound messages come out.
//!
//! The surrounding program performs the remote reads that build the
//! [`JarStore`] snapshot, hands over the random pick, the store-assigned key
//! of a created place and the geocoder's answer where the intent needs
//! them, and afterwards mirrors the state change with REST writes and
//! sends the messages. A backend failure never reaches these functions:
//! the caller renders it with [`error_outbound`] and stops.

use vstd::prelude::*;
use crate::client::{ChannelView, Client};
use crate::coordinates::Coordinates;
use crate::meal::Meal;
use crate::message::{
    spec_error_message, spec_replies_for, spec_text_message, MessageContent, MessageView,
    QuickReplyState,
};
use crate::store::{
    dists_view, spec_candidates, spec_current_draw, spec_slot_of, spec_with_current, JarStore,
    JarView, Place,
};
use crate::user_action::{coords_in_range, opt_coords_in_range};

verus! {

/// A user intent bound to the conversation it came from.
#[derive(Debug)]
pub enum Action {
    Add(Client, String, Vec<Meal>),
    Draw(Client, Meal, Option<Coordinates>),
    PostponeCurrent(Client, Option<Coordinates>),
    ArchiveCurrent(Client, Option<Coordinates>),
    RemoveCurrent(Client, Option<Coordinates>),
    Refresh(Client),
    WhoAmI(Client),
    Location(Client, Coordinates),
    ClearLocation(Client),
}

/// The mathematical shape of an action.
pub ghost enum ActionView {
    Add(ChannelView, Seq<char>, Seq<Meal>),
    Draw(ChannelView, Meal, Option<Coordinates>),
    PostponeCurrent(ChannelView, Option<Coordinates>),
    ArchiveCurrent(ChannelView, Option<Coordinates>),
    RemoveCurrent(ChannelView, Option<Coordinates>),
    Refresh(ChannelView),
    WhoAmI(ChannelView),
    Location(ChannelView, Coordinates),
    ClearLocation(ChannelView),
}

impl View for Action {
    type V = ActionView;

    open spec fn view(&self) -> ActionView {
        match self {
            Action::Add(c, name, meals) => ActionView::Add(c@, name@, meals@),
            Action::Draw(c, meal, coords) => ActionView::Draw(c@, *meal, *coords),
            Action::PostponeCurrent(c, coords) => ActionView::PostponeCurrent(c@, *coords),
            Action::ArchiveCurrent(c, coords) => ActionView::ArchiveCurrent(c@, *coords),
            Action::RemoveCurrent(c, coords) => ActionView::RemoveCurrent(c@, *coords),
            Action::Refresh(c) => ActionView::Refresh(c@),
            Action::WhoAmI(c) => ActionView::WhoAmI(c@),
            Action::Location(c, coords) => ActionView::Location(c@, *coords),
            Action::ClearLocation(c) => ActionView::ClearLocation(c@),
        }
    }
}

/// One message to push, and whom to push it to.
#[derive(Debug, Clone)]
pub struct Outbound {
    pub to: String,
    pub message: MessageContent,
}

pub ghost struct OutboundView {
    pub to: Seq<char>,
    pub message: MessageView,
}

impl View for Outbound {
    type V = OutboundView;

    open spec fn view(&self) -> OutboundView {
        OutboundView { to: self.to@, message: self.message@ }
    }
}

pub open spec fn ovs(s: Seq<Outbound>) -> Seq<OutboundView> {
    s.map_values(|o: Outbound| o@)
}

/// A message to every participant of the conversation.
pub open spec fn spec_to_all(c: ChannelView, m: MessageView) -> OutboundView {
    OutboundView { to: c.id, message: m }
}

/// A message view with buttons attached.
pub open spec fn spec_with_replies(
    m: MessageView,
    state: QuickReplyState,
    c: ChannelView,
    host: Seq<char>,
) -> MessageView {
    MessageView { replies: Some(spec_replies_for(state, c, host)), ..m }
}

pub open spec fn spec_already_drawn_text(name: Seq<char>) -> Seq<char> {
    "「"@ + name + "」が既に出ています"@
}

pub open spec fn spec_drawn_text(name: Seq<char>) -> Seq<char> {
    "「"@ + name + "」が出ました"@
}

pub open spec fn spec_no_shops_text() -> Seq<char> {
    "何も出ませんでした"@
}

pub open spec fn spec_no_shops_near_text() -> Seq<char> {
    "指定位置の近くに店ありません"@
}

pub open spec fn spec_postponed_text(name: Seq<char>) -> Seq<char> {
    name + "を延期しました"@
}

pub open spec fn spec_deleted_text(name: Seq<char>) -> Seq<char> {
    "「"@ + name + "」を削除しました"@
}

pub open spec fn spec_archived_text(name: Seq<char>) -> Seq<char> {
    "「"@ + name + "」は完食になりました"@
}

pub open spec fn spec_refresh_active_text(name: Seq<char>) -> Seq<char> {
    "予定中:"@ + name
}

pub open spec fn spec_refresh_idle_text() -> Seq<char> {
    "無予定"@
}

pub open spec fn spec_added_text() -> Seq<char> {
    "新しい店が追加されました"@
}

pub open spec fn spec_located_text() -> Seq<char> {
    "店の位置は見つかりました。"@
}

pub open spec fn spec_not_located_text(name: Seq<char>) -> Seq<char> {
    name + "の位置は見つかりませんでした。"@
}

pub open spec fn spec_location_saved_text() -> Seq<char> {
    "位置取得済み"@
}

pub open spec fn spec_location_cleared_text() -> Seq<char> {
    "位置を消しました"@
}

/// What a draw intent does: with a draw already active, only a reminder is
/// sent; otherwise one candidate is drawn and announced, and an empty
/// candidate set is announced with the message variant matching whether an
/// origin narrowed the candidates.
pub open spec fn spec_try_draw(
    v: JarView,
    c: ChannelView,
    host: Seq<char>,
    meal: Meal,
    origin: Option<Coordinates>,
    dists: Option<Seq<(Seq<char>, u64)>>,
    pick: int,
) -> (JarView, Seq<OutboundView>) {
    match spec_current_draw(v) {
        Some(p) => (
            v,
            seq![
                spec_to_all(
                    c,
                    spec_with_replies(
                        spec_text_message(spec_already_drawn_text(p.name)),
                        QuickReplyState::ActiveDraw(origin),
                        c,
                        host,
                    ),
                ),
            ],
        ),
        None => {
            let cands = spec_candidates(spec_slot_of(v, meal), dists);
            if cands.len() == 0 {
                let m = match origin {
                    None => spec_with_replies(
                        spec_text_message(spec_no_shops_text()),
                        QuickReplyState::NoShops(meal),
                        c,
                        host,
                    ),
                    Some(o) => spec_with_replies(
                        spec_text_message(spec_no_shops_near_text()),
                        QuickReplyState::NoShopsClosedBy(meal, o),
                        c,
                        host,
                    ),
                };
                (v, seq![spec_to_all(c, m)])
            } else {
                let key = cands[pick % cands.len() as int];
                let name = if v.names.contains_key(key) {
                    v.names[key]
                } else {
                    ""@
                };
                (
                    spec_with_current(v, Some(key)),
                    seq![
                        spec_to_all(
                            c,
                            spec_with_replies(
                                spec_text_message(spec_drawn_text(name)),
                                QuickReplyState::ActiveDraw(origin),
                                c,
                                host,
                            ),
                        ),
                    ],
                )
            }
        },
    }
}

/// What a postpone does: with no active draw nothing is sent; otherwise the
/// pointer is cleared — the place stays eligible — and announced.
pub open spec fn spec_postpone(
    v: JarView,
    c: ChannelView,
    host: Seq<char>,
    coords: Option<Coordinates>,
) -> (JarView, Seq<OutboundView>) {
    match spec_current_draw(v) {
        None => (v, Seq::<OutboundView>::empty()),
        Some(p) => (
            spec_with_current(v, None),
            seq![
                spec_to_all(
                    c,
                    spec_with_replies(
                        spec_text_message(spec_postponed_text(p.name)),
                        QuickReplyState::Idle(coords),
                        c,
                        host,
                    ),
                ),
            ],
        ),
    }
}

/// What a remove or archive does: with no active draw nothing is sent;
/// otherwise the drawn place is deleted everywhere and the removal is
/// announced, as a deletion or as a completion.
pub open spec fn spec_delete_current(
    v: JarView,
    c: ChannelView,
    host: Seq<char>,
    coords: Option<Coordinates>,
    archive: bool,
) -> (JarView, Seq<OutboundView>) {
    match spec_current_draw(v) {
        None => (v, Seq::<OutboundView>::empty()),
        Some(p) => (
            crate::store::spec_delete_place(v, p.key),
            seq![
                spec_to_all(
                    c,
                    spec_with_replies(
                        spec_text_message(
                            if archive {
                                spec_archived_text(p.name)
                            } else {
                                spec_deleted_text(p.name)
                            },
                        ),
                        QuickReplyState::Idle(coords),
                        c,
                        host,
                    ),
                ),
            ],
        ),
    }
}

/// The refresh reply for a given text: buttons for an active draw or for an
/// idle jar, with no coordinates context.
pub open spec fn spec_refresh_reply(v: JarView, c: ChannelView, host: Seq<char>, text: Seq<char>) -> Seq<
    OutboundView,
> {
    match spec_current_draw(v) {
        Some(_) => seq![
            spec_to_all(
                c,
                spec_with_replies(
                    spec_text_message(text),
                    QuickReplyState::ActiveDraw(None),
                    c,
                    host,
                ),
            ),
        ],
        None => seq![
            spec_to_all(
                c,
                spec_with_replies(spec_text_message(text), QuickReplyState::Idle(None), c, host),
            ),
        ],
    }
}

/// What a refresh reports: the pending place, or that nothing is pending.
pub open spec fn spec_refresh(v: JarView, c: ChannelView, host: Seq<char>) -> Seq<OutboundView> {
    match spec_current_draw(v) {
        Some(p) => spec_refresh_reply(v, c, host, spec_refresh_active_text(p.name)),
        None => spec_refresh_reply(v, c, host, spec_refresh_idle_text()),
    }
}

/// What a whoami answers: the acting member's own id, to that member alone;
/// nothing when the platform did not report one.
pub open spec fn spec_whoami(c: ChannelView) -> Seq<OutboundView> {
    match c.user_id {
        Some(u) => seq![OutboundView { to: u, message: spec_text_message(u) }],
        None => Seq::<OutboundView>::empty(),
    }
}

/// What the geocoding step after an add does: found coordinates are stored
/// and announced with a refresh; a miss is reported to the acting member.
pub open spec fn spec_add_coordinates(
    v: JarView,
    c: ChannelView,
    host: Seq<char>,
    place: PlaceViewPair,
    geocoded: Option<Coordinates>,
) -> (JarView, Seq<OutboundView>) {
    match geocoded {
        Some(g) => {
            let v2 = crate::store::spec_set_coordinates(v, place.key, g);
            (v2, spec_refresh_reply(v2, c, host, spec_located_text()))
        },
        None => (
            v,
            match c.user_id {
                Some(u) => seq![
                    OutboundView {
                        to: u,
                        message: spec_text_message(spec_not_located_text(place.name)),
                    },
                ],
                None => Seq::<OutboundView>::empty(),
            },
        ),
    }
}

/// A key/name pair at the spec level.
pub ghost struct PlaceViewPair {
    pub key: Seq<char>,
    pub name: Seq<char>,
}

/// What an add does: the place is registered under the store-assigned key,
/// the addition is announced with a refresh, and the geocoding step
/// follows.
pub open spec fn spec_add(
    v: JarView,
    c: ChannelView,
    host: Seq<char>,
    name: Seq<char>,
    meals: Seq<Meal>,
    new_key: Seq<char>,
    geocoded: Option<Coordinates>,
) -> (JarView, Seq<OutboundView>) {
    let v1 = crate::store::spec_add_place(v, new_key, name, meals);
    let first = spec_refresh_reply(v1, c, host, spec_added_text());
    let step = spec_add_coordinates(
        v1,
        c,
        host,
        PlaceViewPair { key: new_key, name },
        geocoded,
    );
    (step.0, first + step.1)
}

/// What a shared location does: it is echoed into the idle buttons so later
/// intents carry it.
pub open spec fn spec_update_location(c: ChannelView, host: Seq<char>, coords: Coordinates) -> Seq<
    OutboundView,
> {
    seq![
        spec_to_all(
            c,
            spec_with_replies(
                spec_text_message(spec_location_saved_text()),
                QuickReplyState::Idle(Some(coords)),
                c,
                host,
            ),
        ),
    ]
}

/// What a cleared location does.
pub open spec fn spec_clear_location(c: ChannelView, host: Seq<char>) -> Seq<OutboundView> {
    seq![
        spec_to_all(
            c,
            spec_with_replies(
                spec_text_message(spec_location_cleared_text()),
                QuickReplyState::Idle(None),
                c,
                host,
            ),
        ),
    ]
}

/// One message pushed to the whole conversation.
fn push_to_all(out: &mut Vec<Outbound>, client: &Client, message: MessageContent)
    ensures
        ovs(final(out)@) == ovs(old(out)@).push(
            spec_to_all(client@, message@),
        ),
{
    let ghost m = message@;
    out.push(Outbound { to: client.channel_id().clone(), message });
    proof {
        assert(ovs(out@) =~= ovs(old(out)@).push(spec_to_all(client@, m)));
    }
}

/// Renders a backend failure for the conversation; the caller sends it
/// instead of dispatching.
pub fn error_outbound(client: &Client, detail: &str) -> (r: Vec<Outbound>)
    ensures
        ovs(r@) == seq![spec_to_all(client@, spec_error_message(detail@))],
{
    let mut out: Vec<Outbound> = Vec::new();
    push_to_all(&mut out, client, MessageContent::error_message(detail));
    proof {
        assert(ovs(out@) =~= seq![spec_to_all(client@, spec_error_message(detail@))]);
    }
    out
}

/// Renders a backend failure for the acting member alone, as the add flow
/// reports its failures; nothing is sent when the platform did not name
/// one.
pub fn error_to_single_user(client: &Client, detail: &str) -> (r: Vec<Outbound>)
    ensures
        ovs(r@) == match client@.user_id {
            Some(u) => seq![OutboundView { to: u, message: spec_error_message(detail@) }],
            None => Seq::<OutboundView>::empty(),
        },
{
    let mut out: Vec<Outbound> = Vec::new();
    match client.single_user_id() {
        Some(u) => {
            let to = u.clone();
            out.push(Outbound { to, message: MessageContent::error_message(detail) });
        },
        None => {},
    }
    proof {
        match client@.user_id {
            Some(u) => {
                assert(ovs(out@) =~= seq![
                    OutboundView { to: u, message: spec_error_message(detail@) },
                ]);
            },
            None => {
                assert(ovs(out@) =~= Seq::<OutboundView>::empty());
            },
        }
    }
    out
}

/// Handles a draw intent. `origin` is the user's location context, `dists`
/// its distance table over the stored coordinates, and `pick` the injected
/// random number selecting among the candidates.
pub fn try_draw(
    store: &mut JarStore,
    client: &Client,
    host: &str,
    meal: Meal,
    origin: Option<Coordinates>,
    dists: Option<&Vec<(String, u64)>>,
    pick: usize,
) -> (r: Vec<Outbound>)
    requires
        opt_coords_in_range(origin),
        (dists is Some) == (origin is Some),
        match dists {
            Some(d) => forall|i: int|
                0 <= i < d@.len() ==> old(store)@.coords.contains_key(#[trigger] d@[i].0@),
            None => true,
        },
    ensures
        ({
            let step = spec_try_draw(old(store)@, client@, host@, meal, origin, match dists {
                Some(d) => Some(dists_view(d@)),
                None => None,
            }, pick as int);
            final(store)@ == step.0 && ovs(r@) == step.1
        }),
{
    let ghost step = spec_try_draw(old(store)@, client@, host@, meal, origin, match dists {
        Some(d) => Some(dists_view(d@)),
        None => None,
    }, pick as int);
    let mut out: Vec<Outbound> = Vec::new();
    match store.get_current_draw() {
        Some(p) => {
            let mut t = String::from_str("「");
            t.append(p.name.as_str());
            t.append("」が既に出ています");
            let m = MessageContent::text(t.as_str()).with_quick_replies(
                client,
                host,
                QuickReplyState::ActiveDraw(origin),
            );
            push_to_all(&mut out, client, m);
        },
        None => {
            match store.draw(meal, dists, pick) {
                Some(p) => {
                    let mut t = String::from_str("「");
                    t.append(p.name.as_str());
                    t.append("」が出ました");
                    let m = MessageContent::text(t.as_str()).with_quick_replies(
                        client,
                        host,
                        QuickReplyState::ActiveDraw(origin),
                    );
                    push_to_all(&mut out, client, m);
                },
                None => {
                    let m = match origin {
                        None => MessageContent::text("何も出ませんでした").with_quick_replies(
                            client,
                            host,
                            QuickReplyState::NoShops(meal),
                        ),
                        Some(o) => MessageContent::text(
                            "指定位置の近くに店ありません",
                        ).with_quick_replies(
                            client,
                            host,
                            QuickReplyState::NoShopsClosedBy(meal, o),
                        ),
                    };
                    push_to_all(&mut out, client, m);
                },
            }
        },
    }
    proof {
        assert(ovs(out@) =~= step.1);
    }
    out
}

/// Handles a postpone intent: the current draw is cleared but the place
/// stays eligible for future draws.
pub fn postpone(
    store: &mut JarStore,
    client: &Client,
    host: &str,
    coordinates: Option<Coordinates>,
) -> (r: Vec<Outbound>)
    requires
        opt_coords_in_range(coordinates),
    ensures
        ({
            let step = spec_postpone(old(store)@, client@, host@, coordinates);
            final(store)@ == step.0 && ovs(r@) == step.1
        }),
{
    let mut out: Vec<Outbound> = Vec::new();
    match store.get_current_draw() {
        None => {},
        Some(draw) => {
            store.remove_drawn_place(Some(&draw));
            let mut t = String::from_str(draw.name.as_str());
            t.append("を延期しました");
            let m = MessageContent::text(t.as_str()).with_quick_replies(
                client,
                host,
                QuickReplyState::Idle(coordinates),
            );
            push_to_all(&mut out, client, m);
            proof {
                assert(store@ =~= spec_with_current(old(store)@, None));
            }
        },
    }
    proof {
        assert(ovs(out@) =~= spec_postpone(old(store)@, client@, host@, coordinates).1);
    }
    out
}

/// Handles a remove or archive intent: the drawn place is deleted from
/// every table; only the announcement differs.
pub fn delete_current(
    store: &mut JarStore,
    client: &Client,
    host: &str,
    coordinates: Option<Coordinates>,
    archive: bool,
) -> (r: Vec<Outbound>)
    requires
        opt_coords_in_range(coordinates),
    ensures
        ({
            let step = spec_delete_current(old(store)@, client@, host@, coordinates, archive);
            final(store)@ == step.0 && ovs(r@) == step.1
        }),
{
    let mut out: Vec<Outbound> = Vec::new();
    match store.get_current_draw() {
        None => {},
        Some(draw) => {
            let _ = store.delete_place(&draw);
            let mut t = String::from_str("「");
            t.append(draw.name.as_str());
            if archive {
                t.append("」は完食になりました");
            } else {
                t.append("」を削除しました");
            }
            let m = MessageContent::text(t.as_str()).with_quick_replies(
                client,
                host,
                QuickReplyState::Idle(coordinates),
            );
            push_to_all(&mut out, client, m);
        },
    }
    proof {
        assert(ovs(out@) =~= spec_delete_current(
            old(store)@,
            client@,
            host@,
            coordinates,
            archive,
        ).1);
    }
    out
}

/// The refresh reply carrying `text`, with buttons matching whether a draw
/// is active.
pub fn refresh_message(store: &JarStore, client: &Client, host: &str, text: &str) -> (r: Vec<
    Outbound,
>)
    ensures
        ovs(r@) == spec_refresh_reply(store@, client@, host@, text@),
{
    let mut out: Vec<Outbound> = Vec::new();
    let state = match store.get_current_draw() {
        Some(_) => QuickReplyState::ActiveDraw(None),
        None => QuickReplyState::Idle(None),
    };
    let m = MessageContent::text(text).with_quick_replies(client, host, state);
    push_to_all(&mut out, client, m);
    proof {
        assert(ovs(out@) =~= spec_refresh_reply(store@, client@, host@, text@));
    }
    out
}

/// Handles a refresh intent: reports the pending place or that nothing is
/// pending.
pub fn refresh(store: &JarStore, client: &Client, host: &str) -> (r: Vec<Outbound>)
    ensures
        ovs(r@) == spec_refresh(store@, client@, host@),
{
    match store.get_current_draw() {
        Some(draw) => {
            let mut t = String::from_str("予定中:");
            t.append(draw.name.as_str());
            refresh_message(store, client, host, t.as_str())
        },
        None => refresh_message(store, client, host, "無予定"),
    }
}

/// Handles a whoami intent: the acting member's own id, sent to that
/// member alone.
pub fn whoami(client: &Client) -> (r: Vec<Outbound>)
    ensures
        ovs(r@) == spec_whoami(client@),
{
    let mut out: Vec<Outbound> = Vec::new();
    match client.single_user_id() {
        Some(u) => {
            let to = u.clone();
            let m = MessageContent::text(u.as_str());
            out.push(Outbound { to, message: m });
        },
        None => {},
    }
    proof {
        match client@.user_id {
            Some(u) => {
                assert(ovs(out@) =~= seq![
                    OutboundView { to: u, message: spec_text_message(u) },
                ]);
            },
            None => {
                assert(ovs(out@) =~= Seq::<OutboundView>::empty());
            },
        }
    }
    out
}

/// Handles an add intent: registers the place under the key the store
/// assigned, announces it, then stores and announces the geocoder's
/// answer — or reports the miss to the acting member.
pub fn add_place_flow(
    store: &mut JarStore,
    client: &Client,
    host: &str,
    place_name: &str,
    meals: &Vec<Meal>,
    new_key: &str,
    geocoded: Option<Coordinates>,
) -> (r: Vec<Outbound>)
    ensures
        ({
            let step = spec_add(
                old(store)@,
                client@,
                host@,
                place_name@,
                meals@,
                new_key@,
                geocoded,
            );
            final(store)@ == step.0 && ovs(r@) == step.1
        }),
{
    let ghost step = spec_add(
        old(store)@,
        client@,
        host@,
        place_name@,
        meals@,
        new_key@,
        geocoded,
    );
    let place = store.add_place(new_key, place_name, meals);
    let mut out = refresh_message(store, client, host, "新しい店が追加されました");
    match geocoded {
        Some(g) => {
            store.set_place_coordinates(&place, g);
            let mut more = refresh_message(store, client, host, "店の位置は見つかりました。");
            out.append(&mut more);
        },
        None => {
            match client.single_user_id() {
                Some(u) => {
                    let to = u.clone();
                    let mut t = String::from_str(place_name);
                    t.append("の位置は見つかりませんでした。");
                    out.push(Outbound { to, message: MessageContent::text(t.as_str()) });
                },
                None => {},
            }
        },
    }
    proof {
        assert(ovs(out@) =~= step.1);
    }
    out
}

/// Handles a shared location: echoes it into the idle buttons so later
/// intents carry it.
pub fn update_location(client: &Client, host: &str, coordinates: Coordinates) -> (r: Vec<
    Outbound,
>)
    requires
        coords_in_range(coordinates),
    ensures
        ovs(r@) == spec_update_location(client@, host@, coordinates),
{
    let mut out: Vec<Outbound> = Vec::new();
    let m = MessageContent::text("位置取得済み").with_quick_replies(
        client,
        host,
        QuickReplyState::Idle(Some(coordinates)),
    );
    push_to_all(&mut out, client, m);
    proof {
        assert(ovs(out@) =~= spec_update_location(client@, host@, coordinates));
    }
    out
}

/// Handles a cleared location.
pub fn clear_location(client: &Client, host: &str) -> (r: Vec<Outbound>)
    ensures
        ovs(r@) == spec_clear_location(client@, host@),
{
    let mut out: Vec<Outbound> = Vec::new();
    let m = MessageContent::text("位置を消しました").with_quick_replies(
        client,
        host,
        QuickReplyState::Idle(None),
    );
    push_to_all(&mut out, client, m);
    proof {
        assert(ovs(out@) =~= spec_clear_location(client@, host@));
    }
    out
}

/// The inputs an intent may need beyond the jar itself: the injected
/// random pick, the distance table of the user's location context, the
/// store-assigned key for a created place, and the geocoder's answer for
/// it.
pub open spec fn spec_handle_requires(action: &Action, dists: Option<Seq<(Seq<char>, u64)>>) -> bool {
    match action {
        Action::Draw(_, _, origin) => (dists is Some) == (*origin is Some)
            && opt_coords_in_range(*origin),
        Action::PostponeCurrent(_, c) => opt_coords_in_range(*c),
        Action::ArchiveCurrent(_, c) => opt_coords_in_range(*c),
        Action::RemoveCurrent(_, c) => opt_coords_in_range(*c),
        Action::Location(_, c) => coords_in_range(*c),
        _ => true,
    }
}

/// What dispatching an action does to the jar and what it sends.
pub open spec fn spec_handle_action(
    v: JarView,
    host: Seq<char>,
    action: &Action,
    new_key: Seq<char>,
    geocoded: Option<Coordinates>,
    dists: Option<Seq<(Seq<char>, u64)>>,
    pick: int,
) -> (JarView, Seq<OutboundView>) {
    match action {
        Action::Draw(c, meal, origin) => spec_try_draw(v, c@, host, *meal, *origin, dists, pick),
        Action::PostponeCurrent(c, coords) => spec_postpone(v, c@, host, *coords),
        Action::RemoveCurrent(c, coords) => spec_delete_current(v, c@, host, *coords, false),
        Action::ArchiveCurrent(c, coords) => spec_delete_current(v, c@, host, *coords, true),
        Action::Refresh(c) => (v, spec_refresh(v, c@, host)),
        Action::WhoAmI(c) => (v, spec_whoami(c@)),
        Action::Add(c, name, meals) => spec_add(v, c@, host, name@, meals@, new_key, geocoded),
        Action::Location(c, coords) => (v, spec_update_location(c@, host, *coords)),
        Action::ClearLocation(c) => (v, spec_clear_location(c@, host)),
    }
}

/// Dispatches one intent against the jar: one state transition, one batch
/// of outbound messages. The caller hands in what the intent needs: the
/// random pick for a draw, the distance table when the draw carries an
/// origin, and — for an add — the key the store assigned and what the
/// geocoder found.
pub fn handle_action(
    store: &mut JarStore,
    host: &str,
    action: &Action,
    new_key: &str,
    geocoded: Option<Coordinates>,
    dists: Option<&Vec<(String, u64)>>,
    pick: usize,
) -> (r: Vec<Outbound>)
    requires
        spec_handle_requires(action, match dists {
            Some(d) => Some(dists_view(d@)),
            None => None,
        }),
        match dists {
            Some(d) => forall|i: int|
                0 <= i < d@.len() ==> old(store)@.coords.contains_key(#[trigger] d@[i].0@),
            None => true,
        },
    ensures
        ({
            let step = spec_handle_action(old(store)@, host@, action, new_key@, geocoded, match
                dists {
                Some(d) => Some(dists_view(d@)),
                None => None,
            }, pick as int);
            final(store)@ == step.0 && ovs(r@) == step.1
        }),
{
    match action {
        Action::Draw(client, meal, origin) => try_draw(
            store,
            client,
            host,
            *meal,
            *origin,
            dists,
            pick,
        ),
        Action::PostponeCurrent(client, coords) => postpone(store, client, host, *coords),
        Action::RemoveCurrent(client, coords) => delete_current(
            store,
            client,
            host,
            *coords,
            false,
        ),
        Action::ArchiveCurrent(client, coords) => delete_current(
            store,
            client,
            host,
            *coords,
            true,
        ),
        Action::Refresh(client) => refresh(store, client, host),
        Action::WhoAmI(client) => whoami(client),
        Action::Add(client, place_name, meals) => add_place_flow(
            store,
            client,
            host,
            place_name.as_str(),
            meals,
            new_key,
            geocoded,
        ),
        Action::Location(client, coords) => update_location(client, host, *coords),
        Action::ClearLocation(client) => clear_location(client, host),
    }
}

} // verus!
