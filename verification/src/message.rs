//! Outbound messages: a text body plus zero or more quick-reply buttons,
//! each either a postback button re-submitting an intent payload or a uri
//! button deep-linking into the add-place form.

use vstd::prelude::*;
use crate::client::{ChannelView, Client};
use crate::coordinates::Coordinates;
use crate::jar::spec_kind_token;
use crate::meal::Meal;
use crate::user_action::{
    coords_in_range, opt_coords_in_range, spec_action_coords, spec_action_data,
    spec_action_label, UserAction,
};

verus! {

/// An empty reply body.
#[derive(Debug, Clone)]
pub struct Empty {}

/// A push payload: the recipient and the messages to show.
#[derive(Debug, Clone)]
pub struct Message {
    pub to: String,
    pub messages: Vec<MessageContent>,
}

/// The platform's webhook-endpoint update payload.
pub struct WebHookPayload {
    pub endpoint: String,
}

/// A rich-menu identifier as the platform returns it.
#[derive(Debug, Clone)]
pub struct RichMenuId {
    pub rich_menu_id: String,
}

/// One quick-reply button.
#[derive(Debug, Clone)]
pub struct QuickReply {
    pub quick_reply_type: String,
    pub image_url: Option<String>,
    pub action: QuickReplyAction,
}

/// What a quick-reply button does when pressed.
#[derive(Debug, Clone)]
pub struct QuickReplyAction {
    pub quick_reply_action_type: String,
    pub label: String,
    pub data: Option<String>,
    pub uri: Option<String>,
}

pub ghost struct QrView {
    pub qr_type: Seq<char>,
    pub icon: Option<Seq<char>>,
    pub action_type: Seq<char>,
    pub label: Seq<char>,
    pub data: Option<Seq<char>>,
    pub uri: Option<Seq<char>>,
}

pub open spec fn opt_sv(o: Option<String>) -> Option<Seq<char>> {
    match o {
        Some(s) => Some(s@),
        None => None,
    }
}

impl View for QuickReply {
    type V = QrView;

    open spec fn view(&self) -> QrView {
        QrView {
            qr_type: self.quick_reply_type@,
            icon: opt_sv(self.image_url),
            action_type: self.action.quick_reply_action_type@,
            label: self.action.label@,
            data: opt_sv(self.action.data),
            uri: opt_sv(self.action.uri),
        }
    }
}

/// The buttons of a message.
#[derive(Debug, Clone)]
pub struct QuickReplyItems {
    pub items: Vec<QuickReply>,
}

/// One message body: its type, the text or location it carries, and its
/// buttons.
#[derive(Debug, Clone)]
pub struct MessageContent {
    pub message_type: String,
    pub text: Option<String>,
    pub latitude: Option<i64>,
    pub longitude: Option<i64>,
    pub quick_replies: Option<QuickReplyItems>,
}

#[verifier::ext_equal]
pub ghost struct MessageView {
    pub message_type: Seq<char>,
    pub text: Option<Seq<char>>,
    pub latitude: Option<i64>,
    pub longitude: Option<i64>,
    pub replies: Option<Seq<QrView>>,
}

pub open spec fn qr_views(s: Seq<QuickReply>) -> Seq<QrView> {
    s.map_values(|q: QuickReply| q@)
}

impl View for MessageContent {
    type V = MessageView;

    open spec fn view(&self) -> MessageView {
        MessageView {
            message_type: self.message_type@,
            text: opt_sv(self.text),
            latitude: self.latitude,
            longitude: self.longitude,
            replies: match self.quick_replies {
                Some(ref items) => Some(qr_views(items.items@)),
                None => None,
            },
        }
    }
}

/// Which buttons a reply carries, depending on where the conversation
/// stands.
#[derive(Debug, Clone, Copy)]
pub enum QuickReplyState {
    Idle(Option<Coordinates>),
    ActiveDraw(Option<Coordinates>),
    NoShops(Meal),
    NoShopsClosedBy(Meal, Coordinates),
}

/// The coordinates a reply state threads through to its buttons.
pub open spec fn spec_state_coords(s: QuickReplyState) -> Option<Coordinates> {
    match s {
        QuickReplyState::Idle(c) => c,
        QuickReplyState::ActiveDraw(c) => c,
        QuickReplyState::NoShops(_) => None,
        QuickReplyState::NoShopsClosedBy(_, c) => Some(c),
    }
}

/// The location-pin icon shown on location buttons.
pub open spec fn spec_location_icon() -> Seq<char> {
    "https://cdn.iconscout.com/icon/free/png-256/pin-191-119557.png"@
}

/// A postback button: label and re-submitted payload from the action.
pub open spec fn spec_postback_qr(a: UserAction, icon: Option<Seq<char>>) -> QrView {
    QrView {
        qr_type: "action"@,
        icon,
        action_type: "postback"@,
        label: spec_action_label(a),
        data: Some(spec_action_data(a)),
        uri: None,
    }
}

/// A uri button.
pub open spec fn spec_uri_qr(label: Seq<char>, uri: Seq<char>, icon: Option<Seq<char>>) -> QrView {
    QrView {
        qr_type: "action"@,
        icon,
        action_type: "uri"@,
        label,
        data: None,
        uri: Some(uri),
    }
}

/// The share-location button.
pub open spec fn spec_location_qr() -> QrView {
    QrView {
        qr_type: "action"@,
        icon: Some(spec_location_icon()),
        action_type: "location"@,
        label: "決"@,
        data: None,
        uri: None,
    }
}

/// The clear-location postback button.
pub open spec fn spec_clear_location_qr() -> QrView {
    spec_postback_qr(UserAction::ClearLocation, Some(spec_location_icon()))
}

/// The deep link into this system's own add-place form, parameterized by
/// host and conversation source.
pub open spec fn spec_add_uri(c: ChannelView, host: Seq<char>) -> Seq<char> {
    "https://"@ + host + "/line/draw?source=line&source_type="@ + spec_kind_token(c.kind)
        + "&source_id="@ + c.id
}

/// The add-place uri button.
pub open spec fn spec_add_place_qr(c: ChannelView, host: Seq<char>) -> QrView {
    spec_uri_qr("+ 加"@, spec_add_uri(c, host), None)
}

/// The buttons of each reply state.
pub open spec fn spec_replies_for(state: QuickReplyState, c: ChannelView, host: Seq<char>) -> Seq<
    QrView,
> {
    match state {
        QuickReplyState::Idle(coords) => {
            let base = seq![
                spec_add_place_qr(c, host),
                spec_postback_qr(UserAction::Draw(Meal::Lunch, coords), None),
                spec_postback_qr(UserAction::Draw(Meal::Dinner, coords), None),
                spec_location_qr(),
            ];
            if coords is Some {
                base.push(spec_clear_location_qr())
            } else {
                base
            }
        },
        QuickReplyState::ActiveDraw(coords) => seq![
            spec_add_place_qr(c, host),
            spec_postback_qr(UserAction::ArchiveCurrent(coords), None),
            spec_postback_qr(UserAction::Postpone(coords), None),
            spec_postback_qr(UserAction::DeleteCurrent(coords), None),
        ],
        QuickReplyState::NoShops(_) => seq![spec_add_place_qr(c, host)],
        QuickReplyState::NoShopsClosedBy(_, _) => seq![
            spec_add_place_qr(c, host),
            spec_location_qr(),
            spec_clear_location_qr(),
        ],
    }
}

/// A plain text message.
pub open spec fn spec_text_message(t: Seq<char>) -> MessageView {
    MessageView {
        message_type: "text"@,
        text: Some(t),
        latitude: None,
        longitude: None,
        replies: None,
    }
}

/// The user-visible rendering of a backend failure.
pub open spec fn spec_error_message(detail: Seq<char>) -> MessageView {
    spec_text_message("Error "@ + detail)
}

impl Client {
    /// The uri button that opens the add-place form for this conversation.
    pub fn add_place_quick_reply(&self, host: &str) -> (r: QuickReply)
        ensures
            r@ == spec_add_place_qr(self@, host@),
    {
        let mut uri = String::from_str("https://");
        uri.append(host);
        uri.append("/line/draw?source=line&source_type=");
        uri.append(self.kind_token());
        uri.append("&source_id=");
        uri.append(self.channel_id().as_str());
        MessageContent::uri_quick_reply("+ 加", uri.as_str(), None)
    }

    /// The token naming this conversation's channel kind.
    pub fn kind_token(&self) -> (r: &'static str)
        ensures
            r@ == spec_kind_token(self@.kind),
    {
        match self {
            Client::Line(channel) => match channel {
                crate::client::LineChannel::User(_) => "user",
                crate::client::LineChannel::Room { .. } => "room",
                crate::client::LineChannel::Group { .. } => "group",
            },
        }
    }
}

impl MessageContent {
    /// A postback button for an intent; a refresh has no button.
    pub fn postback_quick_reply(user_action: &UserAction, icon: Option<String>) -> (r: QuickReply)
        requires
            !(*user_action matches UserAction::Refresh),
            opt_coords_in_range(spec_action_coords(*user_action)),
        ensures
            r@ == spec_postback_qr(*user_action, opt_sv(icon)),
    {
        let serialized_action = user_action.to_data();
        QuickReply {
            quick_reply_type: String::from_str("action"),
            image_url: icon,
            action: QuickReplyAction {
                quick_reply_action_type: String::from_str("postback"),
                label: user_action.label(),
                data: Some(serialized_action),
                uri: None,
            },
        }
    }

    /// A uri button.
    pub fn uri_quick_reply(label: &str, uri: &str, icon: Option<String>) -> (r: QuickReply)
        ensures
            r@ == spec_uri_qr(label@, uri@, opt_sv(icon)),
    {
        QuickReply {
            quick_reply_type: String::from_str("action"),
            image_url: icon,
            action: QuickReplyAction {
                quick_reply_action_type: String::from_str("uri"),
                label: String::from_str(label),
                data: None,
                uri: Some(String::from_str(uri)),
            },
        }
    }

    /// The share-location button.
    pub fn location_quick_reply() -> (r: QuickReply)
        ensures
            r@ == spec_location_qr(),
    {
        QuickReply {
            quick_reply_type: String::from_str("action"),
            image_url: Some(
                String::from_str("https://cdn.iconscout.com/icon/free/png-256/pin-191-119557.png"),
            ),
            action: QuickReplyAction {
                quick_reply_action_type: String::from_str("location"),
                label: String::from_str("決"),
                data: None,
                uri: None,
            },
        }
    }

    /// The clear-location button.
    pub fn clear_location_quick_reply() -> (r: QuickReply)
        ensures
            r@ == spec_clear_location_qr(),
    {
        MessageContent::postback_quick_reply(
            &UserAction::ClearLocation,
            Some(
                String::from_str("https://cdn.iconscout.com/icon/free/png-256/pin-191-119557.png"),
            ),
        )
    }

    /// A plain text message.
    pub fn text(message: &str) -> (r: MessageContent)
        ensures
            r@ == spec_text_message(message@),
    {
        MessageContent {
            message_type: String::from_str("text"),
            text: Some(String::from_str(message)),
            latitude: None,
            longitude: None,
            quick_replies: None,
        }
    }

    /// The user-visible rendering of a backend failure; `detail` is the
    /// failure's description.
    pub fn error_message(detail: &str) -> (r: MessageContent)
        ensures
            r@ == spec_error_message(detail@),
    {
        let mut t = String::from_str("Error ");
        t.append(detail);
        MessageContent {
            message_type: String::from_str("text"),
            text: Some(t),
            latitude: None,
            longitude: None,
            quick_replies: None,
        }
    }

    /// Attaches the buttons of a reply state to this message.
    pub fn with_quick_replies(self, client: &Client, host: &str, state: QuickReplyState) -> (r:
        MessageContent)
        requires
            opt_coords_in_range(spec_state_coords(state)),
        ensures
            r@ == (MessageView {
                replies: Some(spec_replies_for(state, client@, host@)),
                ..self@
            }),
    {
        let mut items: Vec<QuickReply> = Vec::new();
        match state {
            QuickReplyState::Idle(coordinates) => {
                items.push(client.add_place_quick_reply(host));
                items.push(
                    MessageContent::postback_quick_reply(
                        &UserAction::Draw(Meal::Lunch, coordinates),
                        None,
                    ),
                );
                items.push(
                    MessageContent::postback_quick_reply(
                        &UserAction::Draw(Meal::Dinner, coordinates),
                        None,
                    ),
                );
                items.push(MessageContent::location_quick_reply());
                if coordinates.is_some() {
                    items.push(MessageContent::clear_location_quick_reply());
                }
            },
            QuickReplyState::ActiveDraw(coordinates) => {
                items.push(client.add_place_quick_reply(host));
                items.push(
                    MessageContent::postback_quick_reply(
                        &UserAction::ArchiveCurrent(coordinates),
                        None,
                    ),
                );
                items.push(
                    MessageContent::postback_quick_reply(
                        &UserAction::Postpone(coordinates),
                        None,
                    ),
                );
                items.push(
                    MessageContent::postback_quick_reply(
                        &UserAction::DeleteCurrent(coordinates),
                        None,
                    ),
                );
            },
            QuickReplyState::NoShops(_) => {
                items.push(client.add_place_quick_reply(host));
            },
            QuickReplyState::NoShopsClosedBy(_, _) => {
                items.push(client.add_place_quick_reply(host));
                items.push(MessageContent::location_quick_reply());
                items.push(MessageContent::clear_location_quick_reply());
            },
        }
        proof {
            assert(qr_views(items@) =~= spec_replies_for(state, client@, host@));
        }
        let r = MessageContent {
            message_type: self.message_type,
            text: self.text,
            latitude: self.latitude,
            longitude: self.longitude,
            quick_replies: Some(QuickReplyItems { items }),
        };
        proof {
            assert(r@ =~= MessageView {
                replies: Some(spec_replies_for(state, client@, host@)),
                ..self@
            });
        }
        r
    }
}

} // verus!
