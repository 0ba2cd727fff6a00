//! Deriving the storage partition key — the "jar" — from a conversation
//! reference, and reading it back.
//!
//! The derivation is `{kind}_{id}`; splitting a key at its first underscore
//! recovers the kind and the raw id, so the encoding is reversible for every
//! channel. Deployments may consolidate legacy identifiers through a static
//! alias table, applied after derivation; a key without an alias entry is
//! used unmodified.

use vstd::prelude::*;
use crate::client::{ChannelKind, ChannelView, Client, LineChannel};
use crate::strutil::{find_char, spec_find_char, str_eq};

verus! {

/// The storage partition key of one conversation's state.
#[derive(Debug)]
pub struct Jar(pub String);

impl View for Jar {
    type V = Seq<char>;

    open spec fn view(&self) -> Seq<char> {
        self.0@
    }
}

/// A key that does not parse back into a channel reference.
#[derive(Debug)]
pub struct JarError;

pub open spec fn spec_kind_token(k: ChannelKind) -> Seq<char> {
    match k {
        ChannelKind::User => "user"@,
        ChannelKind::Group => "group"@,
        ChannelKind::Room => "room"@,
    }
}

/// The partition key a channel reference derives to.
pub open spec fn spec_jar_key(c: ChannelView) -> Seq<char> {
    spec_kind_token(c.kind) + "_"@ + c.id
}

/// The channel reference a partition key splits back into: the text before
/// the first underscore must be a known kind, the rest is the id.
pub open spec fn spec_line_channel(k: Seq<char>) -> Option<ChannelView> {
    match spec_find_char(k, '_') {
        Some(i) => {
            let prefix = k.take(i);
            let id = k.skip(i + 1);
            if prefix == "user"@ {
                Some(ChannelView { kind: ChannelKind::User, id, user_id: Some(id) })
            } else if prefix == "group"@ {
                Some(ChannelView { kind: ChannelKind::Group, id, user_id: None })
            } else if prefix == "room"@ {
                Some(ChannelView { kind: ChannelKind::Room, id, user_id: None })
            } else {
                None
            }
        },
        None => None,
    }
}

impl Jar {
    pub fn new(name: &str) -> (r: Self)
        ensures
            r@ == name@,
    {
        Jar(String::from_str(name))
    }

    /// The key itself, for building request paths.
    pub fn as_str(&self) -> (r: &str)
        ensures
            r@ == self@,
    {
        self.0.as_str()
    }

    /// Derives the jar of a conversation: `{kind}_{id}`.
    pub fn from_client(client: &Client) -> (r: Self)
        ensures
            r@ == spec_jar_key(client@),
    {
        let (prefix, id): (&str, &String) = match client {
            Client::Line(channel) => match channel {
                LineChannel::User(id) => ("user", id),
                LineChannel::Room { id, .. } => ("room", id),
                LineChannel::Group { id, .. } => ("group", id),
            },
        };
        let mut key = String::from_str(prefix);
        key.append("_");
        key.append(id.as_str());
        Jar(key)
    }

    /// Splits the key at its first underscore and rebuilds the channel
    /// reference; fails on a key without an underscore or with an unknown
    /// kind prefix.
    pub fn line_channel(&self) -> (r: Result<LineChannel, JarError>)
        ensures
            match r {
                Ok(c) => spec_line_channel(self@) == Some(c@),
                Err(_) => spec_line_channel(self@) is None,
            },
    {
        let len = self.0.as_str().unicode_len();
        match find_char(self.0.as_str(), '_') {
            None => Err(JarError),
            Some(i) => {
                proof {
                    crate::strutil::lemma_find_char(self@, '_');
                }
                let prefix = self.0.as_str().substring_char(0, i);
                let id = self.0.as_str().substring_char(i + 1, len);
                proof {
                    assert(prefix@ =~= self@.take(i as int));
                    assert(id@ =~= self@.skip(i + 1));
                }
                if str_eq(prefix, "user") {
                    Ok(LineChannel::User(String::from_str(id)))
                } else if str_eq(prefix, "group") {
                    Ok(LineChannel::Group { id: String::from_str(id), user_id: None })
                } else if str_eq(prefix, "room") {
                    Ok(LineChannel::Room { id: String::from_str(id), user_id: None })
                } else {
                    Err(JarError)
                }
            },
        }
    }
}

/// A static table consolidating legacy partition keys; resolution takes the
/// first matching entry and falls back to the derived key itself.
pub struct AliasTable {
    pub entries: Vec<(String, String)>,
}

/// The key an alias table resolves `k` to.
pub open spec fn spec_alias_resolve(entries: Seq<(String, String)>, k: Seq<char>) -> Seq<char>
    decreases entries.len(),
{
    if entries.len() == 0 {
        k
    } else if entries[0].0@ == k {
        entries[0].1@
    } else {
        spec_alias_resolve(entries.skip(1), k)
    }
}

impl AliasTable {
    /// A table with no overrides: every key resolves to itself.
    pub fn empty() -> (r: Self)
        ensures
            r.entries@.len() == 0,
    {
        AliasTable { entries: Vec::new() }
    }

    /// Looks the key up, returning the override or the key unchanged.
    pub fn resolve(&self, jar: Jar) -> (r: Jar)
        ensures
            r@ == spec_alias_resolve(self.entries@, jar@),
    {
        let n = self.entries.len();
        let mut i: usize = 0;
        proof {
            assert(self.entries@.skip(0) =~= self.entries@);
        }
        while i < n
            invariant
                0 <= i <= n,
                n == self.entries@.len(),
                spec_alias_resolve(self.entries@, jar@) == spec_alias_resolve(
                    self.entries@.skip(i as int),
                    jar@,
                ),
            decreases n - i,
        {
            let entry = &self.entries[i];
            if str_eq(entry.0.as_str(), jar.as_str()) {
                proof {
                    assert(self.entries@.skip(i as int)[0] == self.entries@[i as int]);
                }
                return Jar(entry.1.clone());
            }
            proof {
                assert(self.entries@.skip(i as int).len() > 0);
                assert(self.entries@.skip(i as int)[0] == self.entries@[i as int]);
                assert(self.entries@.skip(i as int).skip(1) =~= self.entries@.skip(i + 1));
            }
            i += 1;
        }
        proof {
            assert(self.entries@.skip(i as int).len() == 0);
        }
        jar
    }
}

/// Deriving a jar and reading it back recovers the kind and the id for all
/// three channel kinds, whatever the id holds.
pub proof fn lemma_jar_round_trip(c: ChannelView)
    ensures
        spec_line_channel(spec_jar_key(c)) matches Some(back) && back.kind == c.kind && back.id
            == c.id,
{
    reveal_strlit("user");
    reveal_strlit("group");
    reveal_strlit("room");
    reveal_strlit("_");
    let key = spec_jar_key(c);
    let token = spec_kind_token(c.kind);
    assert("_"@.len() == 1 && "_"@[0] == '_');
    assert(key[token.len() as int] == '_');
    assert(forall|j: int| 0 <= j < token.len() ==> key[j] == token[j]);
    match c.kind {
        ChannelKind::User => {
            assert(token.len() == 4);
            assert(token[0] == 'u' && token[1] == 's' && token[2] == 'e' && token[3] == 'r');
        },
        ChannelKind::Group => {
            assert(token.len() == 5);
            assert(token[0] == 'g' && token[1] == 'r' && token[2] == 'o' && token[3] == 'u'
                && token[4] == 'p');
        },
        ChannelKind::Room => {
            assert(token.len() == 4);
            assert(token[0] == 'r' && token[1] == 'o' && token[2] == 'o' && token[3] == 'm');
        },
    }
    assert(forall|j: int| 0 <= j < token.len() ==> key[j] != '_');
    crate::strutil::lemma_find_char_at(key, '_', token.len() as int);
    assert(key.take(token.len() as int) =~= token);
    assert(key.skip(token.len() as int + 1) =~= c.id);
    match c.kind {
        ChannelKind::User => {},
        ChannelKind::Group => {
            assert(token != "user"@);
        },
        ChannelKind::Room => {
            assert(token != "user"@) by {
                assert(token[0] == 'r' && "user"@[0] == 'u');
            }
            assert(token != "group"@);
        },
    }
}

} // verus!
