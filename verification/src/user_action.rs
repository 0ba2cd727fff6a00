//! The closed set of user intents and their postback wire format.
//!
//! An intent travels through the messaging platform as a relative-URL-shaped
//! payload: the path names the intent and the optional `lat`/`long` query
//! parameters carry the coordinates context of the turn. Unknown paths are
//! rejected, never ignored.

use vstd::prelude::*;
use crate::coordinates::{
    spec_format_micro, spec_parse_micro, Coordinates, MICRO_MAGNITUDE_CAP,
};
use crate::meal::Meal;
use crate::strutil::{find_char, spec_find_char, str_eq};

verus! {

/// A user intent decoded from a postback payload.
#[derive(Debug, Clone, Copy, PartialEq, Eq)]
pub enum UserAction {
    Draw(Meal, Option<Coordinates>),
    Postpone(Option<Coordinates>),
    DeleteCurrent(Option<Coordinates>),
    ArchiveCurrent(Option<Coordinates>),
    Add,
    ClearLocation,
    Refresh,
}

/// Magnitudes small enough for the decimal renderer; everything read back
/// from a payload satisfies this.
pub open spec fn coords_in_range(c: Coordinates) -> bool {
    -MICRO_MAGNITUDE_CAP < c.latitude < MICRO_MAGNITUDE_CAP && -MICRO_MAGNITUDE_CAP
        < c.longitude < MICRO_MAGNITUDE_CAP
}

pub open spec fn opt_coords_in_range(c: Option<Coordinates>) -> bool {
    match c {
        Some(c) => coords_in_range(c),
        None => true,
    }
}

/// Which coordinates, if any, an action carries.
pub open spec fn spec_action_coords(a: UserAction) -> Option<Coordinates> {
    match a {
        UserAction::Draw(_, c) => c,
        UserAction::Postpone(c) => c,
        UserAction::DeleteCurrent(c) => c,
        UserAction::ArchiveCurrent(c) => c,
        UserAction::Add => None,
        UserAction::ClearLocation => None,
        UserAction::Refresh => None,
    }
}

/// The payload path that selects an action.
pub open spec fn spec_action_path(a: UserAction) -> Seq<char> {
    match a {
        UserAction::Draw(Meal::Lunch, _) => "lunch_action"@,
        UserAction::Draw(Meal::Dinner, _) => "dinner_action"@,
        UserAction::Postpone(_) => "postpone_action"@,
        UserAction::DeleteCurrent(_) => "delete_action"@,
        UserAction::ArchiveCurrent(_) => "archive_action"@,
        UserAction::Add => "add_action"@,
        UserAction::ClearLocation => "clear_location_action"@,
        UserAction::Refresh => "refresh_action"@,
    }
}

/// The query string carrying a coordinates context.
pub open spec fn spec_coords_query(c: Coordinates) -> Seq<char> {
    "?lat="@ + spec_format_micro(c.latitude as int) + "&long="@ + spec_format_micro(
        c.longitude as int,
    )
}

/// The full payload an action serializes to.
pub open spec fn spec_action_data(a: UserAction) -> Seq<char> {
    match spec_action_coords(a) {
        Some(c) => spec_action_path(a) + spec_coords_query(c),
        None => spec_action_path(a),
    }
}

impl UserAction {
    /// Serializes the action to its payload.
    pub fn to_data(&self) -> (r: String)
        requires
            opt_coords_in_range(spec_action_coords(*self)),
        ensures
            r@ == spec_action_data(*self),
    {
        let path: &str = match self {
            UserAction::Draw(Meal::Lunch, _) => "lunch_action",
            UserAction::Draw(Meal::Dinner, _) => "dinner_action",
            UserAction::Postpone(_) => "postpone_action",
            UserAction::DeleteCurrent(_) => "delete_action",
            UserAction::ArchiveCurrent(_) => "archive_action",
            UserAction::Add => "add_action",
            UserAction::ClearLocation => "clear_location_action",
            UserAction::Refresh => "refresh_action",
        };
        let coords: &Option<Coordinates> = match self {
            UserAction::Draw(_, c) => c,
            UserAction::Postpone(c) => c,
            UserAction::DeleteCurrent(c) => c,
            UserAction::ArchiveCurrent(c) => c,
            UserAction::Add => &None,
            UserAction::ClearLocation => &None,
            UserAction::Refresh => &None,
        };
        let mut out = String::from_str(path);
        match coords {
            Some(c) => {
                out.append("?lat=");
                let lat = Coordinates::format_micro(c.latitude);
                out.append(lat.as_str());
                out.append("&long=");
                let long = Coordinates::format_micro(c.longitude);
                out.append(long.as_str());
            },
            None => {},
        }
        out
    }

    /// The label its quick-reply button shows; a refresh has no button.
    pub fn label(&self) -> (r: String)
        requires
            !(*self matches UserAction::Refresh),
        ensures
            r@ == spec_action_label(*self),
    {
        match self {
            UserAction::Draw(Meal::Lunch, Some(_)) => {
                let mut s = String::from_str("🎲 昼");
                s.append("📍");
                s
            },
            UserAction::Draw(Meal::Lunch, None) => String::from_str("🎲 昼"),
            UserAction::Draw(Meal::Dinner, Some(_)) => {
                let mut s = String::from_str("🎲 夜");
                s.append("📍");
                s
            },
            UserAction::Draw(Meal::Dinner, None) => String::from_str("🎲 夜"),
            UserAction::Postpone(_) => String::from_str("📅 延"),
            UserAction::DeleteCurrent(_) => String::from_str("❌ 削"),
            UserAction::ArchiveCurrent(_) => String::from_str("✓ 完"),
            UserAction::Add => String::from_str("+ 加"),
            UserAction::ClearLocation => String::from_str("消"),
            UserAction::Refresh => String::from_str(""),
        }
    }

    /// Decodes a payload; `None` exactly on unknown paths.
    pub fn from_data(s: &str) -> (r: Option<UserAction>)
        ensures
            r == spec_from_data(s@),
            r matches Some(a) ==> opt_coords_in_range(spec_action_coords(a)),
    {
        let len = s.unicode_len();
        let (path, query): (&str, &str) = match find_char(s, '?') {
            Some(i) => {
                proof {
                    crate::strutil::lemma_find_char(s@, '?');
                }
                (s.substring_char(0, i), s.substring_char(i + 1, len))
            },
            None => (s, ""),
        };
        proof {
            reveal_strlit("");
            assert(spec_split_query(s@) == (path@, query@)) by {
                match spec_find_char(s@, '?') {
                    Some(i) => {
                        assert(path@ =~= s@.take(i));
                        assert(query@ =~= s@.skip(i + 1));
                    },
                    None => {
                        assert(""@ =~= Seq::<char>::empty());
                    },
                }
            }
        }
        let coords = parse_query_coords(query);
        if str_eq(path, "lunch_action") {
            Some(UserAction::Draw(Meal::Lunch, coords))
        } else if str_eq(path, "dinner_action") {
            Some(UserAction::Draw(Meal::Dinner, coords))
        } else if str_eq(path, "postpone_action") {
            Some(UserAction::Postpone(coords))
        } else if str_eq(path, "delete_action") {
            Some(UserAction::DeleteCurrent(coords))
        } else if str_eq(path, "archive_action") {
            Some(UserAction::ArchiveCurrent(coords))
        } else if str_eq(path, "add_action") {
            Some(UserAction::Add)
        } else if str_eq(path, "refresh_action") {
            Some(UserAction::Refresh)
        } else if str_eq(path, "clear_location_action") {
            Some(UserAction::ClearLocation)
        } else {
            None
        }
    }
}

/// The quick-reply label of each action.
pub open spec fn spec_action_label(a: UserAction) -> Seq<char> {
    match a {
        UserAction::Draw(Meal::Lunch, Some(_)) => "🎲 昼"@ + "📍"@,
        UserAction::Draw(Meal::Lunch, None) => "🎲 昼"@,
        UserAction::Draw(Meal::Dinner, Some(_)) => "🎲 夜"@ + "📍"@,
        UserAction::Draw(Meal::Dinner, None) => "🎲 夜"@,
        UserAction::Postpone(_) => "📅 延"@,
        UserAction::DeleteCurrent(_) => "❌ 削"@,
        UserAction::ArchiveCurrent(_) => "✓ 完"@,
        UserAction::Add => "+ 加"@,
        UserAction::ClearLocation => "消"@,
        UserAction::Refresh => ""@,
    }
}

/// The payload split at its first question mark: path and query.
pub open spec fn spec_split_query(s: Seq<char>) -> (Seq<char>, Seq<char>) {
    match spec_find_char(s, '?') {
        Some(i) => (s.take(i), s.skip(i + 1)),
        None => (s, Seq::<char>::empty()),
    }
}

/// One `key=value` pair folded into the running lat/long state; a later
/// occurrence of a key overrides an earlier one, and an unparseable value
/// clears it.
pub open spec fn spec_apply_pair(p: Seq<char>, lat: Option<int>, long: Option<int>) -> (
    Option<int>,
    Option<int>,
) {
    let kv = match spec_find_char(p, '=') {
        Some(j) => (p.take(j), p.skip(j + 1)),
        None => (p, Seq::<char>::empty()),
    };
    if kv.0 == "lat"@ {
        (spec_parse_micro(kv.1), long)
    } else if kv.0 == "long"@ {
        (lat, spec_parse_micro(kv.1))
    } else {
        (lat, long)
    }
}

/// All `&`-separated pairs of a query folded left to right.
pub open spec fn spec_collect_coords(q: Seq<char>, lat: Option<int>, long: Option<int>) -> (
    Option<int>,
    Option<int>,
)
    decreases q.len(),
    via spec_collect_coords_dec
{
    match spec_find_char(q, '&') {
        Some(i) => {
            let next = spec_apply_pair(q.take(i), lat, long);
            spec_collect_coords(q.skip(i + 1), next.0, next.1)
        },
        None => spec_apply_pair(q, lat, long),
    }
}

#[via_fn]
proof fn spec_collect_coords_dec(q: Seq<char>, lat: Option<int>, long: Option<int>) {
    match spec_find_char(q, '&') {
        Some(i) => {
            crate::strutil::lemma_find_char(q, '&');
        },
        None => {},
    }
}

/// The coordinates a query denotes: present only when both parameters
/// parsed.
pub open spec fn spec_query_coords(q: Seq<char>) -> Option<Coordinates> {
    let folded = spec_collect_coords(q, None, None);
    match (folded.0, folded.1) {
        (Some(lat), Some(long)) => Some(
            Coordinates { latitude: lat as i64, longitude: long as i64 },
        ),
        _ => None,
    }
}

/// The action, if any, a payload decodes to.
pub open spec fn spec_from_data(s: Seq<char>) -> Option<UserAction> {
    let parts = spec_split_query(s);
    let path = parts.0;
    let coords = spec_query_coords(parts.1);
    if path == "lunch_action"@ {
        Some(UserAction::Draw(Meal::Lunch, coords))
    } else if path == "dinner_action"@ {
        Some(UserAction::Draw(Meal::Dinner, coords))
    } else if path == "postpone_action"@ {
        Some(UserAction::Postpone(coords))
    } else if path == "delete_action"@ {
        Some(UserAction::DeleteCurrent(coords))
    } else if path == "archive_action"@ {
        Some(UserAction::ArchiveCurrent(coords))
    } else if path == "add_action"@ {
        Some(UserAction::Add)
    } else if path == "refresh_action"@ {
        Some(UserAction::Refresh)
    } else if path == "clear_location_action"@ {
        Some(UserAction::ClearLocation)
    } else {
        None
    }
}

/// The path literals hold no query separator, and the same-length pairs
/// among them differ.
proof fn lemma_path_chars()
    ensures
        forall|j: int| 0 <= j < "lunch_action"@.len() ==> (#[trigger] "lunch_action"@[j]) != '?',
        forall|j: int| 0 <= j < "dinner_action"@.len() ==> (#[trigger] "dinner_action"@[j]) != '?',
        forall|j: int| 0 <= j < "postpone_action"@.len() ==> (#[trigger] "postpone_action"@[j]) != '?',
        forall|j: int| 0 <= j < "delete_action"@.len() ==> (#[trigger] "delete_action"@[j]) != '?',
        forall|j: int| 0 <= j < "archive_action"@.len() ==> (#[trigger] "archive_action"@[j]) != '?',
        forall|j: int| 0 <= j < "add_action"@.len() ==> (#[trigger] "add_action"@[j]) != '?',
        forall|j: int| 0 <= j < "refresh_action"@.len() ==> (#[trigger] "refresh_action"@[j]) != '?',
        forall|j: int| 0 <= j < "clear_location_action"@.len() ==> (#[trigger] "clear_location_action"@[j]) != '?',
        "lunch_action"@.len() == 12,
        "dinner_action"@.len() == 13,
        "postpone_action"@.len() == 15,
        "delete_action"@.len() == 13,
        "archive_action"@.len() == 14,
        "add_action"@.len() == 10,
        "refresh_action"@.len() == 14,
        "clear_location_action"@.len() == 21,
        "delete_action"@ != "dinner_action"@,
        "refresh_action"@ != "archive_action"@,
{
    reveal_strlit("lunch_action");
    reveal_strlit("dinner_action");
    reveal_strlit("postpone_action");
    reveal_strlit("delete_action");
    reveal_strlit("archive_action");
    reveal_strlit("add_action");
    reveal_strlit("refresh_action");
    reveal_strlit("clear_location_action");
    assert("lunch_action"@[0] == 'l' && "lunch_action"@[1] == 'u' && "lunch_action"@[2] == 'n' && "lunch_action"@[3] == 'c');
    assert("lunch_action"@[4] == 'h' && "lunch_action"@[5] == '_' && "lunch_action"@[6] == 'a' && "lunch_action"@[7] == 'c');
    assert("lunch_action"@[8] == 't' && "lunch_action"@[9] == 'i' && "lunch_action"@[10] == 'o' && "lunch_action"@[11] == 'n');
    assert("dinner_action"@[0] == 'd' && "dinner_action"@[1] == 'i' && "dinner_action"@[2] == 'n' && "dinner_action"@[3] == 'n');
    assert("dinner_action"@[4] == 'e' && "dinner_action"@[5] == 'r' && "dinner_action"@[6] == '_' && "dinner_action"@[7] == 'a');
    assert("dinner_action"@[8] == 'c' && "dinner_action"@[9] == 't' && "dinner_action"@[10] == 'i' && "dinner_action"@[11] == 'o');
    assert("dinner_action"@[12] == 'n');
    assert("postpone_action"@[0] == 'p' && "postpone_action"@[1] == 'o' && "postpone_action"@[2] == 's' && "postpone_action"@[3] == 't');
    assert("postpone_action"@[4] == 'p' && "postpone_action"@[5] == 'o' && "postpone_action"@[6] == 'n' && "postpone_action"@[7] == 'e');
    assert("postpone_action"@[8] == '_' && "postpone_action"@[9] == 'a' && "postpone_action"@[10] == 'c' && "postpone_action"@[11] == 't');
    assert("postpone_action"@[12] == 'i' && "postpone_action"@[13] == 'o' && "postpone_action"@[14] == 'n');
    assert("delete_action"@[0] == 'd' && "delete_action"@[1] == 'e' && "delete_action"@[2] == 'l' && "delete_action"@[3] == 'e');
    assert("delete_action"@[4] == 't' && "delete_action"@[5] == 'e' && "delete_action"@[6] == '_' && "delete_action"@[7] == 'a');
    assert("delete_action"@[8] == 'c' && "delete_action"@[9] == 't' && "delete_action"@[10] == 'i' && "delete_action"@[11] == 'o');
    assert("delete_action"@[12] == 'n');
    assert("archive_action"@[0] == 'a' && "archive_action"@[1] == 'r' && "archive_action"@[2] == 'c' && "archive_action"@[3] == 'h');
    assert("archive_action"@[4] == 'i' && "archive_action"@[5] == 'v' && "archive_action"@[6] == 'e' && "archive_action"@[7] == '_');
    assert("archive_action"@[8] == 'a' && "archive_action"@[9] == 'c' && "archive_action"@[10] == 't' && "archive_action"@[11] == 'i');
    assert("archive_action"@[12] == 'o' && "archive_action"@[13] == 'n');
    assert("add_action"@[0] == 'a' && "add_action"@[1] == 'd' && "add_action"@[2] == 'd' && "add_action"@[3] == '_');
    assert("add_action"@[4] == 'a' && "add_action"@[5] == 'c' && "add_action"@[6] == 't' && "add_action"@[7] == 'i');
    assert("add_action"@[8] == 'o' && "add_action"@[9] == 'n');
    assert("refresh_action"@[0] == 'r' && "refresh_action"@[1] == 'e' && "refresh_action"@[2] == 'f' && "refresh_action"@[3] == 'r');
    assert("refresh_action"@[4] == 'e' && "refresh_action"@[5] == 's' && "refresh_action"@[6] == 'h' && "refresh_action"@[7] == '_');
    assert("refresh_action"@[8] == 'a' && "refresh_action"@[9] == 'c' && "refresh_action"@[10] == 't' && "refresh_action"@[11] == 'i');
    assert("refresh_action"@[12] == 'o' && "refresh_action"@[13] == 'n');
    assert("clear_location_action"@[0] == 'c' && "clear_location_action"@[1] == 'l' && "clear_location_action"@[2] == 'e' && "clear_location_action"@[3] == 'a');
    assert("clear_location_action"@[4] == 'r' && "clear_location_action"@[5] == '_' && "clear_location_action"@[6] == 'l' && "clear_location_action"@[7] == 'o');
    assert("clear_location_action"@[8] == 'c' && "clear_location_action"@[9] == 'a' && "clear_location_action"@[10] == 't' && "clear_location_action"@[11] == 'i');
    assert("clear_location_action"@[12] == 'o' && "clear_location_action"@[13] == 'n' && "clear_location_action"@[14] == '_' && "clear_location_action"@[15] == 'a');
    assert("clear_location_action"@[16] == 'c' && "clear_location_action"@[17] == 't' && "clear_location_action"@[18] == 'i' && "clear_location_action"@[19] == 'o');
    assert("clear_location_action"@[20] == 'n');
    assert(forall|j: int| 0 <= j < "lunch_action"@.len() ==> (#[trigger] "lunch_action"@[j]) != '?');
    assert(forall|j: int| 0 <= j < "dinner_action"@.len() ==> (#[trigger] "dinner_action"@[j]) != '?');
    assert(forall|j: int| 0 <= j < "postpone_action"@.len() ==> (#[trigger] "postpone_action"@[j]) != '?');
    assert(forall|j: int| 0 <= j < "delete_action"@.len() ==> (#[trigger] "delete_action"@[j]) != '?');
    assert(forall|j: int| 0 <= j < "archive_action"@.len() ==> (#[trigger] "archive_action"@[j]) != '?');
    assert(forall|j: int| 0 <= j < "add_action"@.len() ==> (#[trigger] "add_action"@[j]) != '?');
    assert(forall|j: int| 0 <= j < "refresh_action"@.len() ==> (#[trigger] "refresh_action"@[j]) != '?');
    assert(forall|j: int| 0 <= j < "clear_location_action"@.len() ==> (#[trigger] "clear_location_action"@[j]) != '?');
}

/// The coordinates context a button encodes survives the turn: the query
/// a draw or postpone button carries parses back to the very coordinates
/// it was rendered from.
pub proof fn lemma_coords_query_round_trip(c: Coordinates)
    requires
        coords_in_range(c),
    ensures
        spec_query_coords(spec_coords_query(c).skip(1)) == Some(c),
{
    reveal_strlit("?lat=");
    reveal_strlit("&long=");
    reveal_strlit("lat");
    reveal_strlit("long");
    let f1 = spec_format_micro(c.latitude as int);
    let f2 = spec_format_micro(c.longitude as int);
    crate::coordinates::lemma_format_micro_chars(c.latitude as int);
    crate::coordinates::lemma_format_micro_chars(c.longitude as int);
    crate::coordinates::lemma_format_micro_round_trip(c.latitude as int);
    crate::coordinates::lemma_format_micro_round_trip(c.longitude as int);
    let full = spec_coords_query(c);
    let q = full.skip(1);
    assert("?lat="@.len() == 5 && "?lat="@[0] == '?' && "?lat="@[1] == 'l' && "?lat="@[2]
        == 'a' && "?lat="@[3] == 't' && "?lat="@[4] == '=');
    assert("&long="@.len() == 6 && "&long="@[0] == '&' && "&long="@[1] == 'l' && "&long="@[2]
        == 'o' && "&long="@[3] == 'n' && "&long="@[4] == 'g' && "&long="@[5] == '=');
    assert("lat"@.len() == 3 && "lat"@[0] == 'l' && "lat"@[1] == 'a' && "lat"@[2] == 't');
    assert("long"@.len() == 4 && "long"@[0] == 'l' && "long"@[1] == 'o' && "long"@[2] == 'n'
        && "long"@[3] == 'g');
    let amp = 4 + f1.len() as int;
    assert(q.len() == 4 + f1.len() + 6 + f2.len());
    assert(q[0] == 'l' && q[1] == 'a' && q[2] == 't' && q[3] == '=');
    assert(forall|j: int| 0 <= j < f1.len() ==> q[4 + j] == f1[j]);
    assert(q[amp] == '&');
    // The first separator closes the latitude pair.
    assert forall|j: int| 0 <= j < amp implies q[j] != '&' by {
        if 4 <= j {
            assert(crate::coordinates::plain_decimal_char(f1[j - 4]));
        }
    }
    crate::strutil::lemma_find_char_at(q, '&', amp);
    let pair1 = q.take(amp);
    assert(pair1[3] == '=');
    assert forall|j: int| 0 <= j < 3 implies pair1[j] != '=' by {}
    crate::strutil::lemma_find_char_at(pair1, '=', 3);
    assert(pair1.take(3) =~= "lat"@);
    assert(pair1.skip(4) =~= f1);
    let step1 = spec_apply_pair(pair1, None, None);
    assert(step1 == (Some(c.latitude as int), Option::<int>::None));
    // The rest is the longitude pair, with no further separator.
    let rest = q.skip(amp + 1);
    assert(rest.len() == 5 + f2.len());
    assert(rest[0] == 'l' && rest[1] == 'o' && rest[2] == 'n' && rest[3] == 'g' && rest[4]
        == '=');
    assert(forall|j: int| 0 <= j < f2.len() ==> rest[5 + j] == f2[j]);
    assert forall|j: int| 0 <= j < rest.len() implies rest[j] != '&' by {
        if 5 <= j {
            assert(crate::coordinates::plain_decimal_char(f2[j - 5]));
        }
    }
    assert(crate::strutil::spec_find_char(rest, '&') is None) by {
        crate::strutil::lemma_find_char(rest, '&');
        match crate::strutil::spec_find_char(rest, '&') {
            Some(i) => {
                assert(rest[i] == '&');
            },
            None => {},
        }
    }
    assert forall|j: int| 0 <= j < 4 implies rest[j] != '=' by {}
    crate::strutil::lemma_find_char_at(rest, '=', 4);
    assert(rest.take(4) =~= "long"@);
    assert(rest.skip(5) =~= f2);
    assert("long"@ != "lat"@);
    let step2 = spec_apply_pair(rest, step1.0, step1.1);
    assert(step2 == (Some(c.latitude as int), Some(c.longitude as int)));
    assert(spec_collect_coords(q, None, None) == spec_collect_coords(rest, step1.0, step1.1));
    assert(spec_collect_coords(rest, step1.0, step1.1) == spec_apply_pair(
        rest,
        step1.0,
        step1.1,
    ));
    assert(spec_collect_coords(q, None, None) == step2);
    assert((c.latitude as int) as i64 == c.latitude);
    assert((c.longitude as int) as i64 == c.longitude);
}

/// Serializing any intent and decoding the payload recovers the intent:
/// the postback wire format loses nothing, for every action whose
/// coordinates the renderer can hold.
pub proof fn lemma_payload_round_trip(a: UserAction)
    requires
        opt_coords_in_range(spec_action_coords(a)),
    ensures
        spec_from_data(spec_action_data(a)) == Some(a),
{
    lemma_path_chars();
    reveal_strlit("lat");
    let path = spec_action_path(a);
    let data = spec_action_data(a);
    match spec_action_coords(a) {
        None => {
            assert(data == path);
            assert(crate::strutil::spec_find_char(data, '?') is None) by {
                crate::strutil::lemma_find_char(data, '?');
                match crate::strutil::spec_find_char(data, '?') {
                    Some(i) => {
                        assert(data[i] == '?');
                    },
                    None => {},
                }
            }
            assert(spec_split_query(data) == (path, Seq::<char>::empty()));
            assert(spec_query_coords(Seq::<char>::empty()) is None) by {
                let empty = Seq::<char>::empty();
                assert(crate::strutil::spec_find_char(empty, '&') is None);
                assert(crate::strutil::spec_find_char(empty, '=') is None);
                assert(spec_apply_pair(empty, None, None) == (
                    Option::<int>::None,
                    Option::<int>::None,
                ));
            }
        },
        Some(c) => {
            reveal_strlit("?lat=");
            let full = spec_coords_query(c);
            assert(full[0] == '?');
            assert(data == path + full);
            assert(data[path.len() as int] == '?');
            assert(forall|j: int| 0 <= j < path.len() ==> data[j] == path[j]);
            crate::strutil::lemma_find_char_at(data, '?', path.len() as int);
            assert(data.take(path.len() as int) =~= path);
            assert(data.skip(path.len() as int + 1) =~= full.skip(1));
            lemma_coords_query_round_trip(c);
            assert(spec_split_query(data) == (path, full.skip(1)));
        },
    }
}

pub open spec fn opt_int_of(o: Option<i64>) -> Option<int> {
    match o {
        Some(v) => Some(v as int),
        None => None,
    }
}

/// Parses the query parameters of a payload into coordinates.
pub fn parse_query_coords(q: &str) -> (r: Option<Coordinates>)
    ensures
        r == spec_query_coords(q@),
        r matches Some(c) ==> coords_in_range(c),
{
    let mut lat: Option<i64> = None;
    let mut long: Option<i64> = None;
    let mut rest: &str = q;
    let mut rest_len = q.unicode_len();
    loop
        invariant
            rest_len == rest@.len(),
            spec_collect_coords(q@, None, None) == spec_collect_coords(
                rest@,
                opt_int_of(lat),
                opt_int_of(long),
            ),
            lat matches Some(v) ==> -MICRO_MAGNITUDE_CAP < v < MICRO_MAGNITUDE_CAP,
            long matches Some(v) ==> -MICRO_MAGNITUDE_CAP < v < MICRO_MAGNITUDE_CAP,
        ensures
            spec_collect_coords(q@, None, None) == (opt_int_of(lat), opt_int_of(long)),
            lat matches Some(v) ==> -MICRO_MAGNITUDE_CAP < v < MICRO_MAGNITUDE_CAP,
            long matches Some(v) ==> -MICRO_MAGNITUDE_CAP < v < MICRO_MAGNITUDE_CAP,
        decreases rest@.len(),
    {
        match find_char(rest, '&') {
            Some(i) => {
                proof {
                    crate::strutil::lemma_find_char(rest@, '&');
                }
                let pair = rest.substring_char(0, i);
                proof {
                    assert(pair@ =~= rest@.take(i as int));
                }
                let applied = apply_pair(pair, lat, long);
                lat = applied.0;
                long = applied.1;
                let tail = rest.substring_char(i + 1, rest_len);
                proof {
                    assert(tail@ =~= rest@.skip(i + 1));
                }
                rest = tail;
                rest_len = rest_len - i - 1;
            },
            None => {
                let applied = apply_pair(rest, lat, long);
                lat = applied.0;
                long = applied.1;
                break;
            },
        }
    }
    match (lat, long) {
        (Some(la), Some(lo)) => Some(Coordinates { latitude: la, longitude: lo }),
        _ => None,
    }
}

/// Folds one pair into the running lat/long state.
fn apply_pair(p: &str, lat: Option<i64>, long: Option<i64>) -> (r: (Option<i64>, Option<i64>))
    requires
        lat matches Some(v) ==> -MICRO_MAGNITUDE_CAP < v < MICRO_MAGNITUDE_CAP,
        long matches Some(v) ==> -MICRO_MAGNITUDE_CAP < v < MICRO_MAGNITUDE_CAP,
    ensures
        (opt_int_of(r.0), opt_int_of(r.1)) == spec_apply_pair(
            p@,
            opt_int_of(lat),
            opt_int_of(long),
        ),
        r.0 matches Some(v) ==> -MICRO_MAGNITUDE_CAP < v < MICRO_MAGNITUDE_CAP,
        r.1 matches Some(v) ==> -MICRO_MAGNITUDE_CAP < v < MICRO_MAGNITUDE_CAP,
{
    let p_len = p.unicode_len();
    let (k, v): (&str, &str) = match find_char(p, '=') {
        Some(j) => {
            proof {
                crate::strutil::lemma_find_char(p@, '=');
            }
            (p.substring_char(0, j), p.substring_char(j + 1, p_len))
        },
        None => (p, ""),
    };
    proof {
        reveal_strlit("");
        match spec_find_char(p@, '=') {
            Some(j) => {
                assert(k@ =~= p@.take(j));
                assert(v@ =~= p@.skip(j + 1));
            },
            None => {
                assert(""@ =~= Seq::<char>::empty());
            },
        }
    }
    if str_eq(k, "lat") {
        (crate::coordinates::parse_micro(v), long)
    } else if str_eq(k, "long") {
        (lat, crate::coordinates::parse_micro(v))
    } else {
        (lat, long)
    }
}

} // verus!
