//! A JSON document as a tree of plain values.
//!
//! An object is a list of members in the order in which the document lists
//! them. Numbers keep the form in which they were read: an unsigned integer, a
//! negative integer, or a binary64 value carried by its bit pattern.

use vstd::prelude::*;
use vstd::string::*;
use crate::text::{
    chars_less, chars_of, lemma_lex_less_asymmetric, lemma_lex_less_total,
    lemma_lex_less_transitive, lex_less,
};

verus! {

/// A JSON number.
#[derive(Clone, Copy, Debug, PartialEq, Eq, Structural)]
pub enum Number {
    /// A non-negative integer.
    PosInt(u64),
    /// A negative integer.
    NegInt(i64),
    /// A binary64 value, by its IEEE 754 bit pattern.
    Real(u64),
}

/// A JSON value.
#[derive(Debug)]
pub enum Json {
    Null,
    Bool(bool),
    Number(Number),
    String(String),
    Array(Vec<Json>),
    Object(Vec<(String, Json)>),
}

/// The names of the members, in order.
pub open spec fn member_names(members: Seq<(String, Json)>) -> Seq<Seq<char>> {
    members.map_values(|m: (String, Json)| m.0@)
}

/// The value of the first member called `key`.
pub open spec fn lookup(members: Seq<(String, Json)>, key: Seq<char>) -> Option<Json> {
    match member_names(members).index_of_first(key) {
        Some(at) => Some(members[at].1),
        None => None,
    }
}

/// The members are listed in strictly ascending order of their names, so that
/// no name occurs twice.
pub open spec fn members_ascending(members: Seq<(String, Json)>) -> bool {
    forall|i: int, j: int|
        0 <= i < j < members.len() ==> lex_less(
            #[trigger] member_names(members)[i],
            #[trigger] member_names(members)[j],
        )
}

/// The texts among `items`, in order; items that are no text are passed over.
pub open spec fn texts_in(items: Seq<Json>) -> Seq<Seq<char>> {
    items.filter_map(|item: Json| item.as_text())
}

/// The numbers among `items`, in order; items that are no number are passed over.
pub open spec fn numbers_in(items: Seq<Json>) -> Seq<Number> {
    items.filter_map(|item: Json| item.as_number_spec())
}

impl Json {
    /// The member `key` of an object; `None` for any other value.
    pub open spec fn member(self, key: Seq<char>) -> Option<Json> {
        match self {
            Json::Object(members) => lookup(members@, key),
            _ => None,
        }
    }

    /// The member `key` of the member `outer`.
    pub open spec fn member2(self, outer: Seq<char>, key: Seq<char>) -> Option<Json> {
        match self.member(outer) {
            Some(inner) => inner.member(key),
            None => None,
        }
    }

    /// The items of an array.
    pub open spec fn items(self) -> Option<Seq<Json>> {
        match self {
            Json::Array(items) => Some(items@),
            _ => None,
        }
    }

    /// The characters of a text.
    pub open spec fn as_text(self) -> Option<Seq<char>> {
        match self {
            Json::String(text) => Some(text@),
            _ => None,
        }
    }

    /// The number that a numeric value holds.
    pub open spec fn as_number_spec(self) -> Option<Number> {
        match self {
            Json::Number(n) => Some(n),
            _ => None,
        }
    }

    /// The count that a non-negative integer holds.
    pub open spec fn as_count(self) -> Option<u64> {
        match self {
            Json::Number(Number::PosInt(n)) => Some(n),
            _ => None,
        }
    }

    /// Looks a member up by name. Only an object has members; of members that
    /// share a name the first is found.
    pub fn get(&self, key: &str) -> (found: Option<&Json>)
        ensures
            match found {
                Some(value) => self.member(key@) == Some(*value),
                None => self.member(key@) is None,
            },
    {
        match self {
            Json::Object(members) => {
                let wanted = key.to_owned();
                let ghost names = member_names(members@);
                let mut i: usize = 0;
                while i < members.len()
                    invariant
                        i <= members.len(),
                        wanted@ == key@,
                        names == member_names(members@),
                        self.member(key@) == lookup(members@, key@),
                        forall|k: int| 0 <= k < i ==> names[k] != key@,
                    decreases members.len() - i,
                {
                    if members[i].0 == wanted {
                        proof {
                            assert(names[i as int] == members@[i as int].0@);
                            assert(names.contains(key@));
                            names.index_of_first_ensures(key@);
                        }
                        return Some(&members[i].1);
                    }
                    assert(names[i as int] == members@[i as int].0@);
                    i += 1;
                }
                proof {
                    names.index_of_first_ensures(key@);
                }
                None
            },
            _ => None,
        }
    }

    /// The items, if the value is an array.
    pub fn as_array(&self) -> (items: Option<&Vec<Json>>)
        ensures
            match items {
                Some(v) => self.items() == Some(v@),
                None => self.items() is None,
            },
    {
        match self {
            Json::Array(items) => Some(items),
            _ => None,
        }
    }

    /// The members, if the value is an object.
    pub fn as_object(&self) -> (members: Option<&Vec<(String, Json)>>)
        ensures
            match members {
                Some(m) => *self == Json::Object(*m),
                None => !(self is Object),
            },
    {
        match self {
            Json::Object(members) => Some(members),
            _ => None,
        }
    }

    /// The text, if the value is a text.
    pub fn as_str(&self) -> (text: Option<&str>)
        ensures
            match text {
                Some(t) => self.as_text() == Some(t@),
                None => self.as_text() is None,
            },
    {
        match self {
            Json::String(text) => Some(text.as_str()),
            _ => None,
        }
    }

    /// The number, if the value is numeric.
    pub fn as_number(&self) -> (n: Option<Number>)
        ensures
            n == self.as_number_spec(),
    {
        match self {
            Json::Number(n) => Some(*n),
            _ => None,
        }
    }

    /// The count, if the value is a non-negative integer.
    pub fn as_u64(&self) -> (n: Option<u64>)
        ensures
            n == self.as_count(),
    {
        match self {
            Json::Number(Number::PosInt(n)) => Some(*n),
            _ => None,
        }
    }
}

/// The texts among `items`, in order.
pub fn collect_texts(items: &Vec<Json>) -> (texts: Vec<String>)
    ensures
        texts@.map_values(|t: String| t@) == texts_in(items@),
{
    let mut texts: Vec<String> = Vec::new();
    let ghost pick = |item: Json| item.as_text();
    let mut i: usize = 0;
    while i < items.len()
        invariant
            i <= items.len(),
            pick == |item: Json| item.as_text(),
            texts@.map_values(|t: String| t@) == items@.take(i as int).filter_map(pick),
        decreases items.len() - i,
    {
        proof {
            items@.lemma_filter_map_take_succ(pick, i as int);
        }
        let ghost before = texts@.map_values(|t: String| t@);
        match items[i].as_str() {
            Some(text) => {
                texts.push(text.to_owned());
                assert(texts@.map_values(|t: String| t@) =~= before + seq![text@]);
            },
            None => {},
        }
        i += 1;
    }
    assert(items@.take(items.len() as int) == items@);
    texts
}

/// The numbers among `items`, in order.
pub fn collect_numbers(items: &Vec<Json>) -> (numbers: Vec<Number>)
    ensures
        numbers@ == numbers_in(items@),
{
    let mut numbers: Vec<Number> = Vec::new();
    let ghost pick = |item: Json| item.as_number_spec();
    let mut i: usize = 0;
    while i < items.len()
        invariant
            i <= items.len(),
            pick == |item: Json| item.as_number_spec(),
            numbers@ == items@.take(i as int).filter_map(pick),
        decreases items.len() - i,
    {
        proof {
            items@.lemma_filter_map_take_succ(pick, i as int);
        }
        match items[i].as_number() {
            Some(n) => {
                numbers.push(n);
            },
            None => {},
        }
        i += 1;
    }
    assert(items@.take(items.len() as int) == items@);
    numbers
}

/// The number of members at the head of the list whose names come before
/// `key`: in an ascending list, the place where a member called `key` stands
/// or would have to stand.
pub open spec fn place_of(members: Seq<(String, Json)>, key: Seq<char>) -> int
    decreases members.len(),
{
    if members.len() > 0 && lex_less(members[0].0@, key) {
        1 + place_of(members.drop_first(), key)
    } else {
        0
    }
}

/// The list with the member `key` set to `value`: in place of the member of
/// that name where there is one, else at the place that keeps the order.
pub open spec fn with_member(members: Seq<(String, Json)>, key: String, value: Json) -> Seq<
    (String, Json),
> {
    let at = place_of(members, key@);
    if at < members.len() && members[at].0@ == key@ {
        members.update(at, (key, value))
    } else {
        members.insert(at, (key, value))
    }
}

proof fn lemma_place_of(members: Seq<(String, Json)>, key: Seq<char>, at: int)
    requires
        0 <= at <= members.len(),
        forall|k: int| 0 <= k < at ==> lex_less(#[trigger] member_names(members)[k], key),
        at < members.len() ==> !lex_less(member_names(members)[at], key),
    ensures
        place_of(members, key) == at,
    decreases at,
{
    if at > 0 {
        assert(member_names(members)[0] == members[0].0@);
        let rest = members.drop_first();
        assert forall|k: int| 0 <= k < at - 1 implies lex_less(
            #[trigger] member_names(rest)[k],
            key,
        ) by {
            assert(member_names(rest)[k] == member_names(members)[k + 1]);
        }
        if at - 1 < rest.len() {
            assert(member_names(rest)[at - 1] == member_names(members)[at]);
        }
        lemma_place_of(rest, key, at - 1);
    } else if members.len() > 0 {
        assert(member_names(members)[0] == members[0].0@);
    }
}

/// Whether the members are listed in strictly ascending order of their names.
pub fn are_members_ascending(members: &Vec<(String, Json)>) -> (ascending: bool)
    ensures
        ascending == members_ascending(members@),
{
    if members.len() < 2 {
        return true;
    }
    let ghost names = member_names(members@);
    let mut previous = chars_of(members[0].0.as_str());
    let mut i: usize = 1;
    while i < members.len()
        invariant
            1 <= i <= members.len(),
            names == member_names(members@),
            previous@ == names[i - 1],
            forall|a: int, b: int| 0 <= a < b < i ==> lex_less(#[trigger] names[a], #[trigger] names[b]),
        decreases members.len() - i,
    {
        let current = chars_of(members[i].0.as_str());
        assert(current@ == names[i as int]);
        if !chars_less(&previous, &current) {
            return false;
        }
        assert forall|a: int, b: int| 0 <= a < b < i + 1 implies lex_less(
            #[trigger] names[a],
            #[trigger] names[b],
        ) by {
            if b == i && a < i - 1 {
                lemma_lex_less_transitive(names[a], names[i - 1], names[i as int]);
            }
        }
        previous = current;
        i += 1;
    }
    true
}

/// Sets the member `key` of an ascending list of members to `value`, and
/// keeps the list ascending: a member of that name is replaced, a new name is
/// put where the order wants it.
pub fn insert_member(members: &mut Vec<(String, Json)>, key: String, value: Json)
    requires
        members_ascending(old(members)@),
    ensures
        final(members)@ == with_member(old(members)@, key, value),
        members_ascending(final(members)@),
{
    let wanted = chars_of(key.as_str());
    let ghost names = member_names(members@);
    let mut at: usize = 0;
    while at < members.len()
        invariant
            at <= members.len(),
            *members == *old(members),
            names == member_names(members@),
            wanted@ == key@,
            forall|k: int| 0 <= k < at ==> lex_less(#[trigger] names[k], key@),
        ensures
            at <= members.len(),
            *members == *old(members),
            forall|k: int| 0 <= k < at ==> lex_less(#[trigger] names[k], key@),
            at < members.len() ==> !lex_less(names[at as int], key@),
        decreases members.len() - at,
    {
        let name = chars_of(members[at].0.as_str());
        assert(name@ == names[at as int]);
        if !chars_less(&name, &wanted) {
            break;
        }
        at += 1;
    }
    proof {
        lemma_place_of(members@, key@, at as int);
    }
    let ghost before = members@;
    let replace = at < members.len() && members[at].0 == key;
    if replace {
        let _ = members.remove(at);
    }
    members.insert(at, (key, value));
    proof {
        let after = members@;
        if replace {
            assert(after =~= before.update(at as int, (key, value)));
        }
        assert(after == with_member(before, key, value));
        let new_names = member_names(after);
        assert forall|a: int, b: int| 0 <= a < b < after.len() implies lex_less(
            #[trigger] new_names[a],
            #[trigger] new_names[b],
        ) by {
            let shift = if replace {
                0int
            } else {
                1int
            };
            // every member but the one at `at` is an old member
            if a != at {
                assert(new_names[a] == names[if a < at { a } else { a - shift }]);
            }
            if b != at {
                assert(new_names[b] == names[if b < at { b } else { b - shift }]);
            }
            if a == at {
                // what follows the new member followed its place before
                let old_b = b - shift;
                if !replace {
                    assert(!lex_less(names[at as int], key@));
                    lemma_lex_less_total(names[at as int], key@);
                    assert(names[at as int] != key@);
                    if old_b > at {
                        lemma_lex_less_transitive(key@, names[at as int], names[old_b]);
                    }
                } else {
                    assert(names[at as int] == key@);
                    assert(lex_less(names[at as int], names[old_b]));
                }
            } else if b == at {
                assert(lex_less(names[a], key@));
            } else {
                let old_a = if a < at { a } else { a - shift };
                let old_b = if b < at { b } else { b - shift };
                assert(lex_less(names[old_a], names[old_b]));
            }
        }
    }
}

/// In an ascending list, the member that was set is found under its name,
/// and every other name finds what it found before.
pub proof fn lemma_with_member_found(
    members: Seq<(String, Json)>,
    key: String,
    value: Json,
    other: Seq<char>,
)
    requires
        members_ascending(members),
    ensures
        lookup(with_member(members, key, value), key@) == Some(value),
        other != key@ ==> lookup(with_member(members, key, value), other) == lookup(members, other),
{
    let after = with_member(members, key, value);
    let names = member_names(members);
    let new_names = member_names(after);
    let at = place_of(members, key@);
    lemma_place_bounds(members, key@);
    let replace = at < members.len() && members[at].0@ == key@;
    let shift = if replace {
        0int
    } else {
        1int
    };
    assert(new_names[at] == key@);
    assert forall|k: int| 0 <= k < after.len() && k != at implies #[trigger] new_names[k] == names[if k
        < at {
        k
    } else {
        k - shift
    }] && after[k] == members[if k < at {
        k
    } else {
        k - shift
    }] by {}
    // the new member is the first of its name
    new_names.index_of_first_ensures(key@);
    assert(new_names.contains(key@));
    assert forall|k: int| 0 <= k < at implies new_names[k] != key@ by {
        assert(lex_less(names[k], key@));
        lemma_lex_less_asymmetric(names[k], key@);
    }
    assert(new_names.index_of_first(key@) == Some(at));
    if other != key@ {
        names.index_of_first_ensures(other);
        new_names.index_of_first_ensures(other);
        match names.index_of_first(other) {
            Some(i) => {
                let j = if i < at {
                    i
                } else {
                    i + shift
                };
                assert(j != at) by {
                    if replace && i == at {
                        assert(names[at] == key@);
                    }
                }
                assert(new_names[j] == other);
                assert(new_names.contains(other));
                let found = new_names.index_of_first(other)->0;
                assert(found != at);
                let back = if found < at {
                    found
                } else {
                    found - shift
                };
                assert(names[back] == other);
                // both are first of their name
                assert(found <= j);
                assert(i <= back);
                assert(found == j);
                assert(after[j] == members[i]);
            },
            None => {
                if new_names.contains(other) {
                    let j = choose|j: int| 0 <= j < new_names.len() && new_names[j] == other;
                    assert(j != at);
                    let back = if j < at {
                        j
                    } else {
                        j - shift
                    };
                    assert(names[back] == other);
                    assert(names.contains(other));
                }
            },
        }
    }
}

proof fn lemma_place_bounds(members: Seq<(String, Json)>, key: Seq<char>)
    ensures
        0 <= place_of(members, key) <= members.len(),
        forall|k: int|
            0 <= k < place_of(members, key) ==> lex_less(#[trigger] member_names(members)[k], key),
        place_of(members, key) < members.len() ==> !lex_less(
            member_names(members)[place_of(members, key)],
            key,
        ),
    decreases members.len(),
{
    if members.len() > 0 {
        assert(member_names(members)[0] == members[0].0@);
        if lex_less(members[0].0@, key) {
            let rest = members.drop_first();
            lemma_place_bounds(rest, key);
            assert forall|k: int| 0 <= k < place_of(members, key) implies lex_less(
                #[trigger] member_names(members)[k],
                key,
            ) by {
                if k > 0 {
                    assert(member_names(members)[k] == member_names(rest)[k - 1]);
                }
            }
            if place_of(members, key) < members.len() {
                assert(member_names(members)[place_of(members, key)] == member_names(rest)[place_of(
                    rest,
                    key,
                )]);
            }
        }
    }
}

} // verus!
