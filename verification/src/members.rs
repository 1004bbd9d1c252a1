//! The members of JSON objects as a text writes them, in their order and with those that
//! are repeated, which a map of members does not keep.
use crate::text::{chars_of, pair_texts, same_text, string_of, texts};
use vstd::prelude::*;

verus! {

// ---------------------------------------------------------------------------
// What `serde_json` gives
// ---------------------------------------------------------------------------

/// The JSON string that a text begins with, behind any white space, and the text behind
/// it, as a stream of strings from `serde_json` gives them. `None` where the text does
/// not begin with one.
pub uninterp spec fn leading_string(text: Seq<char>) -> Option<(Seq<char>, Seq<char>)>;

/// The text behind the JSON value that a text begins with, behind any white space, as a
/// stream of values from `serde_json` gives it. `None` where the text does not begin with
/// one.
pub uninterp spec fn behind_value(text: Seq<char>) -> Option<Seq<char>>;

/// The first item of `serde_json::Deserializer::from_str(text).into_iter()` at the type
/// `String`, and the text from its `byte_offset` on. A string takes up at least its
/// quotes, so the text behind it is shorter.
#[verifier::external_body]
fn take_string(text: &str) -> (found: Option<(String, String)>)
    ensures
        match found {
            Some((string, rest)) => leading_string(text@) == Some((string@, rest@)) && rest@.len()
                < text@.len(),
            None => leading_string(text@) is None,
        },
{
    let mut strings = serde_json::Deserializer::from_str(text).into_iter::<String>();
    match strings.next() {
        Some(Ok(string)) => Some((string, text[strings.byte_offset()..].to_owned())),
        _ => None,
    }
}

/// The text from the `byte_offset` of
/// `serde_json::Deserializer::from_str(text).into_iter()` on, once its first item was
/// taken at the type `serde::de::IgnoredAny`. A value takes up at least one character, so
/// the text behind it is shorter.
#[verifier::external_body]
fn pass_value(text: &str) -> (rest: Option<String>)
    ensures
        match rest {
            Some(rest) => behind_value(text@) == Some(rest@) && rest@.len() < text@.len(),
            None => behind_value(text@) is None,
        },
{
    let mut values = serde_json::Deserializer::from_str(text).into_iter::<serde::de::IgnoredAny>();
    match values.next() {
        Some(Ok(_)) => Some(text[values.byte_offset()..].to_owned()),
        _ => None,
    }
}

// ---------------------------------------------------------------------------
// Members and items
// ---------------------------------------------------------------------------

/// The character is white space in JSON.
pub open spec fn is_json_space(c: char) -> bool {
    c == ' ' || c == '\t' || c == '\n' || c == '\r'
}

/// The text behind a mark that it begins with, behind any white space.
pub open spec fn behind_mark(text: Seq<char>, mark: char) -> Option<Seq<char>>
    decreases text.len(),
{
    if text.len() == 0 {
        None
    } else if text[0] == mark {
        Some(text.drop_first())
    } else if is_json_space(text[0]) {
        behind_mark(text.drop_first(), mark)
    } else {
        None
    }
}

/// The members of an object whose opening brace the text stands behind: each key, with
/// the text from its value on.
pub open spec fn members_of(text: Seq<char>) -> Seq<(Seq<char>, Seq<char>)>
    decreases text.len(),
{
    match member_of(text) {
        Some((key, value, more)) => match more {
            Some(more) => if more.len() < text.len() {
                seq![(key, value)] + members_of(more)
            } else {
                seq![(key, value)]
            },
            None => seq![(key, value)],
        },
        None => Seq::empty(),
    }
}

/// The member that a text begins with: its key, the text from its value on, and the text
/// behind the comma that follows it.
pub open spec fn member_of(text: Seq<char>) -> Option<(Seq<char>, Seq<char>, Option<Seq<char>>)> {
    match leading_string(text) {
        Some((key, behind)) => match behind_mark(behind, ':') {
            Some(value) => match behind_value(value) {
                Some(rest) => Some((key, value, behind_mark(rest, ','))),
                None => None,
            },
            None => None,
        },
        None => None,
    }
}

/// The items of an array whose opening bracket the text stands behind: the text from each
/// of them on.
pub open spec fn items_of(text: Seq<char>) -> Seq<Seq<char>>
    decreases text.len(),
{
    match behind_value(text) {
        Some(rest) => match behind_mark(rest, ',') {
            Some(more) => if more.len() < text.len() {
                seq![text] + items_of(more)
            } else {
                seq![text]
            },
            None => seq![text],
        },
        None => Seq::empty(),
    }
}

/// A key stands in two members.
pub open spec fn is_repeated(members: Seq<(Seq<char>, Seq<char>)>, key: Seq<char>) -> bool {
    exists|i: int, j: int|
        0 <= i < j < members.len() && #[trigger] members[i].0 == key && #[trigger] members[j].0
            == key
}

proof fn lemma_mark_shortens(text: Seq<char>, mark: char)
    ensures
        behind_mark(text, mark) matches Some(rest) ==> rest.len() < text.len(),
    decreases text.len(),
{
    if text.len() > 0 && text[0] != mark && is_json_space(text[0]) {
        lemma_mark_shortens(text.drop_first(), mark);
    }
}

/// Takes a mark that a text begins with off it.
pub fn take_mark(text: &str, mark: char) -> (rest: Option<String>)
    ensures
        match rest {
            Some(rest) => behind_mark(text@, mark) == Some(rest@) && rest@.len() < text@.len(),
            None => behind_mark(text@, mark) is None,
        },
{
    let chars = chars_of(text);
    let mut i: usize = 0;
    proof {
        lemma_mark_shortens(text@, mark);
        assert(text@.skip(0) =~= text@);
    }
    while i < chars.len()
        invariant
            chars@ == text@,
            i <= chars@.len(),
            behind_mark(text@, mark) == behind_mark(text@.skip(i as int), mark),
            behind_mark(text@, mark) matches Some(rest) ==> rest.len() < text@.len(),
        decreases chars@.len() - i,
    {
        let c: char = chars[i];
        assert(text@.skip(i as int).drop_first() =~= text@.skip(i + 1));
        assert(text@.skip(i as int)[0] == c);
        if c == mark {
            let rest = string_of(&chars, i + 1, chars.len());
            assert(rest@ =~= text@.skip(i + 1));
            return Some(rest);
        }
        if !(c == ' ' || c == '\t' || c == '\n' || c == '\r') {
            return None;
        }
        i += 1;
    }
    None
}

/// Reads the members of an object whose opening brace a text stands behind.
pub fn read_members(text: &str) -> (members: Vec<(String, String)>)
    ensures
        pair_texts(members@) == members_of(text@),
{
    let mut members: Vec<(String, String)> = Vec::new();
    let mut rest: String = text.to_owned();
    assert(pair_texts(members@) + members_of(rest@) =~= members_of(text@));
    loop
        invariant
            pair_texts(members@) + members_of(rest@) == members_of(text@),
        decreases rest@.len(),
    {
        let ghost before = members@;
        let ghost here = rest@;
        let (key, behind) = match take_string(rest.as_str()) {
            Some(found) => found,
            None => {
                assert(pair_texts(members@) =~= members_of(text@));
                return members;
            },
        };
        let value = match take_mark(behind.as_str(), ':') {
            Some(value) => value,
            None => {
                assert(pair_texts(members@) =~= members_of(text@));
                return members;
            },
        };
        let behind = match pass_value(value.as_str()) {
            Some(behind) => behind,
            None => {
                assert(pair_texts(members@) =~= members_of(text@));
                return members;
            },
        };
        let more = take_mark(behind.as_str(), ',');
        members.push((key, value));
        assert(pair_texts(members@) =~= pair_texts(before) + seq![(key@, value@)]);
        match more {
            Some(more) => {
                assert(pair_texts(members@) + members_of(more@) =~= pair_texts(before)
                    + members_of(here));
                rest = more;
            },
            None => {
                assert(pair_texts(members@) =~= members_of(text@));
                return members;
            },
        }
    }
}

/// Reads the items of an array whose opening bracket a text stands behind.
pub fn read_items(text: &str) -> (items: Vec<String>)
    ensures
        texts(items@) == items_of(text@),
{
    let mut items: Vec<String> = Vec::new();
    let mut rest: String = text.to_owned();
    assert(texts(items@) + items_of(rest@) =~= items_of(text@));
    loop
        invariant
            texts(items@) + items_of(rest@) == items_of(text@),
        decreases rest@.len(),
    {
        let ghost before = items@;
        let ghost here = rest@;
        let behind = match pass_value(rest.as_str()) {
            Some(behind) => behind,
            None => {
                assert(texts(items@) =~= items_of(text@));
                return items;
            },
        };
        items.push(rest);
        assert(texts(items@) =~= texts(before) + seq![here]);
        match take_mark(behind.as_str(), ',') {
            Some(more) => {
                assert(texts(items@) + items_of(more@) =~= texts(before) + items_of(here));
                rest = more;
            },
            None => {
                assert(texts(items@) =~= items_of(text@));
                return items;
            },
        }
    }
}

/// Whether a key stands in two members.
pub fn repeats(members: &Vec<(String, String)>, key: &str) -> (b: bool)
    ensures
        b == is_repeated(pair_texts(members@), key@),
{
    let ghost list = pair_texts(members@);
    let mut seen: bool = false;
    let mut i: usize = 0;
    while i < members.len()
        invariant
            list == pair_texts(members@),
            i <= members@.len(),
            seen == (exists|j: int| 0 <= j < i && #[trigger] list[j].0 == key@),
            forall|j: int, k: int|
                0 <= j < k < i && #[trigger] list[j].0 == key@ ==> #[trigger] list[k].0 != key@,
        decreases members@.len() - i,
    {
        assert(list[i as int].0 == members@[i as int].0@);
        if same_text(members[i].0.as_str(), key) {
            if seen {
                let ghost first = choose|j: int| 0 <= j < i && #[trigger] list[j].0 == key@;
                assert(list[first].0 == key@ && list[i as int].0 == key@);
                return true;
            }
            seen = true;
        }
        i += 1;
    }
    false
}

// ---------------------------------------------------------------------------
// Laws
// ---------------------------------------------------------------------------

/// A mark is found at once, or behind spaces, tabs, line feeds and carriage returns alone;
/// what is found is the text behind it.
pub proof fn law_marks_stand_behind_white_space(rest: Seq<char>, c: char, mark: char)
    ensures
        behind_mark(Seq::empty(), mark) is None,
        behind_mark(seq![mark] + rest, mark) == Some(rest),
        c != mark && (c as int == 32 || c as int == 9 || c as int == 10 || c as int == 13)
            ==> behind_mark(seq![c] + rest, mark) == behind_mark(rest, mark),
        c != mark && !(c as int == 32 || c as int == 9 || c as int == 10 || c as int == 13)
            ==> behind_mark(seq![c] + rest, mark) is None,
{
    assert((seq![mark] + rest).drop_first() =~= rest);
    assert((seq![c] + rest).drop_first() =~= rest);
}

/// An object is read member by member: a key, a colon, and a value, then a comma and the
/// members behind it, or no further member.
pub proof fn law_members_are_read_one_by_one(
    text: Seq<char>,
    key: Seq<char>,
    behind: Seq<char>,
    value: Seq<char>,
    rest: Seq<char>,
    more: Seq<char>,
)
    ensures
        leading_string(text) is None ==> members_of(text) == Seq::<(Seq<char>, Seq<char>)>::empty(),
        leading_string(text) == Some((key, behind)) && behind_mark(behind, ':') is None
            ==> members_of(text) == Seq::<(Seq<char>, Seq<char>)>::empty(),
        leading_string(text) == Some((key, behind)) && behind_mark(behind, ':') == Some(value)
            && behind_value(value) is None ==> members_of(text) == Seq::<
            (Seq<char>, Seq<char>),
        >::empty(),
        leading_string(text) == Some((key, behind)) && behind_mark(behind, ':') == Some(value)
            && behind_value(value) == Some(rest) && behind_mark(rest, ',') is None ==> members_of(
            text,
        ) == seq![(key, value)],
        leading_string(text) == Some((key, behind)) && behind_mark(behind, ':') == Some(value)
            && behind_value(value) == Some(rest) && behind_mark(rest, ',') == Some(more)
            && more.len() < text.len() ==> members_of(text) == seq![(key, value)] + members_of(
            more,
        ),
{
}

/// An array is read item by item: a value, then a comma and the items behind it, or no
/// further item.
pub proof fn law_items_are_read_one_by_one(text: Seq<char>, rest: Seq<char>, more: Seq<char>)
    ensures
        behind_value(text) is None ==> items_of(text) == Seq::<Seq<char>>::empty(),
        behind_value(text) == Some(rest) && behind_mark(rest, ',') is None ==> items_of(text)
            == seq![text],
        behind_value(text) == Some(rest) && behind_mark(rest, ',') == Some(more) && more.len()
            < text.len() ==> items_of(text) == seq![text] + items_of(more),
{
}

/// A key is repeated once a member with it follows another with it, and members with other
/// keys change nothing.
pub proof fn law_keys_are_repeated_by_a_second_member(
    members: Seq<(Seq<char>, Seq<char>)>,
    key: Seq<char>,
    value: Seq<char>,
    other: Seq<char>,
)
    ensures
        !is_repeated(Seq::empty(), key),
        is_repeated(members.push((key, value)), key) <==> exists|i: int|
            0 <= i < members.len() && (#[trigger] members[i]).0 == key,
        other != key ==> (is_repeated(members.push((key, value)), other) <==> is_repeated(
            members,
            other,
        )),
{
    let longer = members.push((key, value));
    let n = members.len() as int;
    assert(longer[n].0 == key);
    assert forall|i: int| 0 <= i < n implies longer[i] == members[i] by {}
    if is_repeated(longer, key) {
        let (i, j) = choose|i: int, j: int|
            0 <= i < j < longer.len() && #[trigger] longer[i].0 == key && #[trigger] longer[j].0
                == key;
        assert(members[i].0 == key);
    }
    if exists|i: int| 0 <= i < n && (#[trigger] members[i]).0 == key {
        let i = choose|i: int| 0 <= i < n && (#[trigger] members[i]).0 == key;
        assert(longer[i].0 == key && longer[n].0 == key);
        assert(is_repeated(longer, key));
    }
    if other != key && is_repeated(longer, other) {
        let (i, j) = choose|i: int, j: int|
            0 <= i < j < longer.len() && #[trigger] longer[i].0 == other && #[trigger] longer[j].0
                == other;
        assert(members[i].0 == other && members[j].0 == other);
    }
    if is_repeated(members, other) {
        let (i, j) = choose|i: int, j: int|
            0 <= i < j < members.len() && #[trigger] members[i].0 == other && #[trigger] members[j].0
                == other;
        assert(longer[i].0 == other && longer[j].0 == other);
    }
}

}
