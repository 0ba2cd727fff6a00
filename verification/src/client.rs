//! Conversation references: which chat channel an event came from and, when
//! known, which member of it acted.

use vstd::prelude::*;

verus! {

/// The three channel kinds a conversation can live in.
pub enum ChannelKind {
    User,
    Group,
    Room,
}

/// The mathematical shape of a channel reference: its kind, the channel id,
/// and the acting member where the platform reports one.
pub ghost struct ChannelView {
    pub kind: ChannelKind,
    pub id: Seq<char>,
    pub user_id: Option<Seq<char>>,
}

/// An inbound conversation reference: a direct user, a room, or a group,
/// the latter two optionally carrying the acting member's id.
#[derive(Debug)]
pub enum LineChannel {
    User(String),
    Room { id: String, user_id: Option<String> },
    Group { id: String, user_id: Option<String> },
}

impl View for LineChannel {
    type V = ChannelView;

    open spec fn view(&self) -> ChannelView {
        match self {
            LineChannel::User(id) => ChannelView {
                kind: ChannelKind::User,
                id: id@,
                user_id: Some(id@),
            },
            LineChannel::Room { id, user_id } => ChannelView {
                kind: ChannelKind::Room,
                id: id@,
                user_id: match user_id {
                    Some(u) => Some(u@),
                    None => None,
                },
            },
            LineChannel::Group { id, user_id } => ChannelView {
                kind: ChannelKind::Group,
                id: id@,
                user_id: match user_id {
                    Some(u) => Some(u@),
                    None => None,
                },
            },
        }
    }
}

/// The client a reply goes back through; only one messaging platform is
/// wired up.
#[derive(Debug)]
pub enum Client {
    Line(LineChannel),
}

impl View for Client {
    type V = ChannelView;

    open spec fn view(&self) -> ChannelView {
        match self {
            Client::Line(c) => c@,
        }
    }
}

impl Client {
    /// The id every participant of the conversation can be reached under.
    pub fn channel_id(&self) -> (r: &String)
        ensures
            r@ == self@.id,
    {
        match self {
            Client::Line(channel) => match channel {
                LineChannel::User(id) => id,
                LineChannel::Room { id, .. } => id,
                LineChannel::Group { id, .. } => id,
            },
        }
    }

    /// The acting member's id, where the platform reported one.
    pub fn single_user_id(&self) -> (r: Option<&String>)
        ensures
            match r {
                Some(u) => self@.user_id == Some(u@),
                None => self@.user_id is None,
            },
    {
        match self {
            Client::Line(channel) => match channel {
                LineChannel::User(id) => Some(id),
                LineChannel::Room { user_id, .. } => user_id.as_ref(),
                LineChannel::Group { user_id, .. } => user_id.as_ref(),
            },
        }
    }
}

} // verus!
