//! Discovery of the variables that a metadata document lists, and the choice
//! of the variable that a request means.
//!
//! Which variables are listed does not depend on the order in which the
//! document names them: the second component of a vector is passed over
//! wherever it stands, and of members that share a name the first counts.

use vstd::prelude::*;
use vstd::string::*;
use crate::json::{collect_texts, member_names, texts_in, Json};
use crate::text::replace_first;
use crate::variables::{
    begins_with_u, categorize, categorize_variable, counterpart_name, create_vector_display_name,
    find_vector_pair, lemma_counterpart_follows, list_contains, v_counterpart,
    vector_display_name, vector_pair, views_of, Descriptor, Kind, VariableCategory,
    VariableInfo, VariableType,
};

verus! {

/// The names of the coordinate axes. A variable of such a name describes the
/// grid, not a quantity on it.
pub open spec fn is_coordinate(name: Seq<char>) -> bool {
    name == "longitude"@ || name == "latitude"@ || name == "time"@ || name == "level"@
}

/// Whether `name` is the name of a coordinate axis.
pub fn is_coordinate_name(name: &str) -> (r: bool)
    ensures
        r == is_coordinate(name@),
{
    let owned = name.to_owned();
    owned == String::from_str("longitude") || owned == String::from_str("latitude") || owned
        == String::from_str("time") || owned == String::from_str("level")
}

/// The text of the attribute `key` of a variable.
pub open spec fn text_attribute(var_data: Json, key: Seq<char>) -> Option<Seq<char>> {
    match var_data.member2("attributes"@, key) {
        Some(value) => value.as_text(),
        None => None,
    }
}

/// The long name of a variable: its attribute `long_name`, or its name where
/// that is missing or no text.
pub open spec fn long_name_of(name: Seq<char>, var_data: Json) -> Seq<char> {
    match text_attribute(var_data, "long_name"@) {
        Some(text) => text,
        None => name,
    }
}

/// The unit of a variable: its attribute `units`, or the empty text.
pub open spec fn units_of(var_data: Json) -> Seq<char> {
    match text_attribute(var_data, "units"@) {
        Some(text) => text,
        None => Seq::empty(),
    }
}

/// The dimension names that a variable declares.
pub open spec fn dimensions_of(var_data: Json) -> Seq<Seq<char>> {
    match var_data.member("dimensions"@) {
        Some(Json::Array(items)) => texts_in(items@),
        _ => Seq::empty(),
    }
}

/// The descriptor of the variable `name`; `partner` is the second component
/// where the variable is the first component of a vector.
pub open spec fn describe(name: Seq<char>, var_data: Json, partner: Option<Seq<char>>) -> Descriptor {
    Descriptor {
        name,
        display_name: match partner {
            Some(_) => vector_display_name(),
            None => name,
        },
        long_name: long_name_of(name, var_data),
        units: units_of(var_data),
        category: categorize(name, long_name_of(name, var_data)),
        kind: match partner {
            Some(v) => Kind::Vector { u_component: name, v_component: v },
            None => Kind::Scalar,
        },
        dimensions: dimensions_of(var_data),
    }
}

/// `n` is the second component of the vector that `u` is the first
/// component of.
pub open spec fn second_of(names: Seq<Seq<char>>, u: Seq<char>, n: Seq<char>) -> bool {
    names.contains(u) && begins_with_u(u) && v_counterpart(u) == n
}

/// `n` is the second component of a vector of the document: the counterpart
/// of a variable that begins with `u` or `U`.
pub open spec fn is_second_component(names: Seq<Seq<char>>, n: Seq<char>) -> bool {
    exists|u: Seq<char>| #[trigger] second_of(names, u, n)
}

/// The member at `at` is listed: it is no coordinate, it is not the second
/// component of a vector, and no earlier member has its name. Where the
/// members stand in the document does not matter otherwise.
pub open spec fn is_listed(names: Seq<Seq<char>>, at: int) -> bool {
    &&& !is_coordinate(names[at])
    &&& !is_second_component(names, names[at])
    &&& !names.take(at).contains(names[at])
}

/// The descriptor of the member at `at`: a vector where the member is the
/// first component of one, else a scalar.
pub open spec fn descriptor_at(members: Seq<(String, Json)>, at: int) -> Descriptor {
    let names = member_names(members);
    describe(names[at], members[at].1, vector_pair(names[at], names))
}

/// The descriptors of the listed members among the first `n`, in the order of
/// the document.
pub open spec fn listed_among(members: Seq<(String, Json)>, n: int) -> Seq<Descriptor>
    decreases n,
{
    if n <= 0 {
        Seq::empty()
    } else {
        let before = listed_among(members, n - 1);
        if is_listed(member_names(members), n - 1) {
            before.push(descriptor_at(members, n - 1))
        } else {
            before
        }
    }
}

/// The descriptors of the variables of a metadata document, in the order of
/// its section `variables`: one for every listed member. A document without
/// that section, or with one that is no object, has none.
pub open spec fn analysis(metadata: Json) -> Seq<Descriptor> {
    match metadata.member("variables"@) {
        Some(Json::Object(members)) => listed_among(members@, members@.len() as int),
        _ => Seq::empty(),
    }
}

/// The descriptors that a list of `VariableInfo` stands for.
pub open spec fn descriptors(list: Seq<VariableInfo>) -> Seq<Descriptor> {
    list.map_values(|v: VariableInfo| v@)
}

fn member_name_list(members: &Vec<(String, Json)>) -> (names: Vec<String>)
    ensures
        views_of(names@) == member_names(members@),
{
    let mut names: Vec<String> = Vec::new();
    let mut i: usize = 0;
    while i < members.len()
        invariant
            i <= members.len(),
            views_of(names@) == member_names(members@).take(i as int),
        decreases members.len() - i,
    {
        let ghost before = views_of(names@);
        let name = members[i].0.clone();
        assert(name@ == member_names(members@)[i as int]);
        names.push(name);
        assert(views_of(names@) =~= before.push(name@));
        assert(member_names(members@).take(i + 1) =~= member_names(members@).take(i as int).push(
            name@,
        ));
        i += 1;
    }
    assert(member_names(members@).take(members.len() as int) =~= member_names(members@));
    names
}

fn text_attribute_of<'a>(var_data: &'a Json, key: &str) -> (text: Option<&'a str>)
    ensures
        match text {
            Some(t) => text_attribute(*var_data, key@) == Some(t@),
            None => text_attribute(*var_data, key@) is None,
        },
{
    match var_data.get("attributes") {
        Some(attributes) => match attributes.get(key) {
            Some(value) => value.as_str(),
            None => None,
        },
        None => None,
    }
}

fn dimension_list(var_data: &Json) -> (dimensions: Vec<String>)
    ensures
        views_of(dimensions@) == dimensions_of(*var_data),
{
    match var_data.get("dimensions") {
        Some(value) => match value.as_array() {
            Some(items) => collect_texts(items),
            None => Vec::new(),
        },
        None => Vec::new(),
    }
}

fn describe_variable(var_name: &String, var_data: &Json, partner: Option<String>) -> (info:
    VariableInfo)
    ensures
        info@ == describe(
            var_name@,
            *var_data,
            match partner {
                Some(v) => Some(v@),
                None => None,
            },
        ),
{
    let long_name = match text_attribute_of(var_data, "long_name") {
        Some(text) => text.to_owned(),
        None => var_name.clone(),
    };
    let units = match text_attribute_of(var_data, "units") {
        Some(text) => text.to_owned(),
        None => String::new(),
    };
    let category = categorize_variable(var_name.as_str(), long_name.as_str());
    let dimensions = dimension_list(var_data);
    match partner {
        Some(v_component) => VariableInfo {
            name: var_name.clone(),
            display_name: create_vector_display_name(var_name.as_str(), v_component.as_str()),
            long_name,
            units,
            category,
            var_type: VariableType::Vector { u_component: var_name.clone(), v_component },
            dimensions,
        },
        None => VariableInfo {
            name: var_name.clone(),
            display_name: var_name.clone(),
            long_name,
            units,
            category,
            var_type: VariableType::Scalar,
            dimensions,
        },
    }
}

/// The member at `j`, before `i`, begins with `u` or `U`, and `x` is its
/// counterpart.
spec fn counterpart_at(names: Seq<Seq<char>>, i: int, j: int, x: Seq<char>) -> bool {
    0 <= j < i && begins_with_u(names[j]) && v_counterpart(names[j]) == x
}

/// `x` is the counterpart of a member before `i`.
spec fn counterpart_before(names: Seq<Seq<char>>, i: int, x: Seq<char>) -> bool {
    exists|j: int| #[trigger] counterpart_at(names, i, j, x)
}

fn second_components(names: &Vec<String>) -> (seconds: Vec<String>)
    ensures
        forall|x: Seq<char>| #[trigger]
            views_of(seconds@).contains(x) <==> is_second_component(views_of(names@), x),
{
    let mut seconds: Vec<String> = Vec::new();
    let ghost all = views_of(names@);
    let mut i: usize = 0;
    while i < names.len()
        invariant
            i <= names.len(),
            all == views_of(names@),
            forall|x: Seq<char>| #[trigger]
                views_of(seconds@).contains(x) <==> counterpart_before(all, i as int, x),
        decreases names.len() - i,
    {
        let ghost before = views_of(seconds@);
        let ghost next = i + 1;
        assert(all[i as int] == names@[i as int]@);
        match counterpart_name(names[i].as_str()) {
            Some(second) => {
                seconds.push(second);
                assert(views_of(seconds@) =~= before.push(second@));
                assert forall|x: Seq<char>| #[trigger]
                    views_of(seconds@).contains(x) <==> counterpart_before(all, next, x) by {
                    let now = views_of(seconds@);
                    if now.contains(x) {
                        let k = choose|k: int| 0 <= k < now.len() && now[k] == x;
                        if k < before.len() {
                            assert(before[k] == x);
                            assert(before.contains(x));
                            let j = choose|j: int| counterpart_at(all, i as int, j, x);
                            assert(counterpart_at(all, next, j, x));
                        } else {
                            assert(counterpart_at(all, next, i as int, x));
                        }
                    }
                    if counterpart_before(all, next, x) {
                        let j = choose|j: int| counterpart_at(all, next, j, x);
                        if j < i {
                            assert(counterpart_at(all, i as int, j, x));
                            assert(before.contains(x));
                            let k = choose|k: int| 0 <= k < before.len() && before[k] == x;
                            assert(now[k] == x);
                        } else {
                            assert(now[now.len() - 1] == x);
                        }
                    }
                }
            },
            None => {
                assert forall|x: Seq<char>| #[trigger]
                    views_of(seconds@).contains(x) <==> counterpart_before(all, next, x) by {
                    if views_of(seconds@).contains(x) {
                        let j = choose|j: int| counterpart_at(all, i as int, j, x);
                        assert(counterpart_at(all, next, j, x));
                    }
                    if counterpart_before(all, next, x) {
                        let j = choose|j: int| counterpart_at(all, next, j, x);
                        assert(counterpart_at(all, i as int, j, x));
                    }
                }
            },
        }
        i += 1;
    }
    proof {
        assert forall|x: Seq<char>| #[trigger]
            views_of(seconds@).contains(x) <==> is_second_component(all, x) by {
            if views_of(seconds@).contains(x) {
                let j = choose|j: int| counterpart_at(all, names.len() as int, j, x);
                assert(all.contains(all[j]));
                assert(second_of(all, all[j], x));
            }
            if is_second_component(all, x) {
                let u = choose|u: Seq<char>| second_of(all, u, x);
                let j = choose|j: int| 0 <= j < all.len() && all[j] == u;
                assert(counterpart_at(all, names.len() as int, j, x));
            }
        }
    }
    seconds
}

/// Lists the variables of a metadata document: coordinates left out, each
/// vector once under the name of its first component and its second
/// component nowhere else, every other variable as a scalar, no name twice.
/// A document without a usable section `variables` yields an empty list.
pub fn analyze_metadata_variables(metadata: &Json) -> (result: Vec<VariableInfo>)
    ensures
        descriptors(result@) == analysis(*metadata),
{
    let members = match metadata.get("variables") {
        Some(variables) => match variables.as_object() {
            Some(members) => members,
            None => {
                return Vec::new();
            },
        },
        None => {
            return Vec::new();
        },
    };
    let names = member_name_list(members);
    let seconds = second_components(&names);
    let mut result: Vec<VariableInfo> = Vec::new();
    let mut visited: Vec<String> = Vec::new();
    let ghost all = member_names(members@);
    let mut i: usize = 0;
    assert(descriptors(result@) =~= listed_among(members@, 0));
    assert(views_of(visited@) =~= all.take(0));
    while i < members.len()
        invariant
            i <= members.len(),
            all == member_names(members@),
            views_of(names@) == all,
            views_of(visited@) == all.take(i as int),
            forall|x: Seq<char>| #[trigger]
                views_of(seconds@).contains(x) <==> is_second_component(all, x),
            descriptors(result@) == listed_among(members@, i as int),
        decreases members.len() - i,
    {
        let var_name = &members[i].0;
        let var_data = &members[i].1;
        assert(all[i as int] == var_name@);
        let listed = !is_coordinate_name(var_name.as_str()) && !list_contains(
            &seconds,
            var_name.as_str(),
        ) && !list_contains(&visited, var_name.as_str());
        assert(listed == is_listed(all, i as int));
        if listed {
            let partner = find_vector_pair(var_name.as_str(), &names);
            let ghost before = descriptors(result@);
            let info = describe_variable(var_name, var_data, partner);
            result.push(info);
            assert(descriptors(result@) =~= before.push(info@));
        }
        let ghost seen = views_of(visited@);
        visited.push(var_name.clone());
        assert(views_of(visited@) =~= seen.push(var_name@));
        assert(all.take(i + 1) =~= all.take(i as int).push(all[i as int]));
        i += 1;
    }
    result
}

/// What holds of the member at `at` and the descriptor that lists it.
pub open spec fn lists(members: Seq<(String, Json)>, at: int, d: Descriptor) -> bool {
    &&& 0 <= at < members.len()
    &&& is_listed(member_names(members), at)
    &&& d == descriptor_at(members, at)
}

/// `d` is the descriptor of a listed member.
pub open spec fn lists_some(members: Seq<(String, Json)>, d: Descriptor) -> bool {
    exists|at: int| #[trigger] lists(members, at, d)
}

/// `out` holds `d` at position `k`.
pub open spec fn holds_at(out: Seq<Descriptor>, k: int, d: Descriptor) -> bool {
    0 <= k < out.len() && out[k] == d
}

/// `d` is among `out`.
pub open spec fn holds(out: Seq<Descriptor>, d: Descriptor) -> bool {
    exists|k: int| #[trigger] holds_at(out, k, d)
}

/// `name` is the name of a descriptor of `out`, or the second component of a
/// vector of `out`.
pub open spec fn covers(out: Seq<Descriptor>, k: int, name: Seq<char>) -> bool {
    &&& 0 <= k < out.len()
    &&& (out[k].name == name || out[k].kind == (Kind::Vector {
        u_component: out[k].name,
        v_component: name,
    }))
}

/// `name` is accounted for by `out`.
pub open spec fn covered(out: Seq<Descriptor>, name: Seq<char>) -> bool {
    exists|k: int| #[trigger] covers(out, k, name)
}

proof fn lemma_coordinate_begins_with_no_u(name: Seq<char>)
    requires
        is_coordinate(name),
    ensures
        !begins_with_u(name),
        name.len() > 0,
        name[0] != 'v' && name[0] != 'V',
{
    reveal_strlit("longitude");
    reveal_strlit("latitude");
    reveal_strlit("time");
    reveal_strlit("level");
}

/// A name that begins with `u` or `U` is no second component, and a second
/// component is no coordinate.
proof fn lemma_second_component_begins_with_v(names: Seq<Seq<char>>, n: Seq<char>)
    requires
        is_second_component(names, n),
    ensures
        !begins_with_u(n),
        !is_coordinate(n),
{
    let u = choose|u: Seq<char>| second_of(names, u, n);
    lemma_counterpart_follows(u);
    if is_coordinate(n) {
        lemma_coordinate_begins_with_no_u(n);
    }
}

/// `d` is listed by the member at `at`, before `n`.
spec fn lists_at(members: Seq<(String, Json)>, n: int, at: int, d: Descriptor) -> bool {
    at < n && lists(members, at, d)
}

/// `d` is the descriptor of a listed member before `n`.
spec fn lists_before(members: Seq<(String, Json)>, n: int, d: Descriptor) -> bool {
    exists|at: int| #[trigger] lists_at(members, n, at, d)
}

/// Every descriptor among the first `n` is the descriptor of a listed member
/// before `n`, and no two of them have one name.
proof fn lemma_listed_sound(members: Seq<(String, Json)>, n: int)
    requires
        0 <= n <= members.len(),
    ensures
        forall|k: int|
            0 <= k < listed_among(members, n).len() ==> lists_before(
                members,
                n,
                #[trigger] listed_among(members, n)[k],
            ),
        forall|k1: int, k2: int|
            0 <= k1 < k2 < listed_among(members, n).len() ==> (#[trigger] listed_among(
                members,
                n,
            )[k1]).name != (#[trigger] listed_among(members, n)[k2]).name,
    decreases n,
{
    if n > 0 {
        let names = member_names(members);
        let before = listed_among(members, n - 1);
        let out = listed_among(members, n);
        let last = n - 1;
        lemma_listed_sound(members, last);
        if is_listed(names, last) {
            let d = descriptor_at(members, last);
            assert(out == before.push(d));
            assert(lists(members, last, d));
            assert forall|k: int| 0 <= k < out.len() implies lists_before(
                members,
                n,
                #[trigger] out[k],
            ) by {
                if k < before.len() {
                    assert(lists_before(members, last, before[k]));
                    let at = choose|at: int| lists_at(members, last, at, before[k]);
                    assert(lists_at(members, n, at, out[k]));
                } else {
                    assert(lists_at(members, n, last, out[k]));
                }
            }
            assert forall|k1: int, k2: int| 0 <= k1 < k2 < out.len() implies (#[trigger] out[k1]).name
                != (#[trigger] out[k2]).name by {
                if k2 == before.len() {
                    assert(lists_before(members, last, before[k1]));
                    let at = choose|at: int| lists_at(members, last, at, before[k1]);
                    assert(names.take(last)[at] == names[at]);
                    assert(out[k1].name == names[at]);
                    assert(out[k2].name == names[last]);
                } else {
                    assert(before[k1].name != before[k2].name);
                }
            }
        } else {
            assert(out == before);
            assert forall|k: int| 0 <= k < out.len() implies lists_before(
                members,
                n,
                #[trigger] out[k],
            ) by {
                assert(lists_before(members, last, before[k]));
                let at = choose|at: int| lists_at(members, last, at, before[k]);
                assert(lists_at(members, n, at, out[k]));
            }
        }
    }
}

/// The descriptor of every listed member before `n` is among the first `n`.
proof fn lemma_listed_complete(members: Seq<(String, Json)>, n: int, at: int)
    requires
        0 <= at < n <= members.len(),
        is_listed(member_names(members), at),
    ensures
        holds(listed_among(members, n), descriptor_at(members, at)),
    decreases n,
{
    let names = member_names(members);
    let out = listed_among(members, n);
    let before = listed_among(members, n - 1);
    let d = descriptor_at(members, at);
    if at == n - 1 {
        assert(out == before.push(d));
        assert(holds_at(out, before.len() as int, d));
    } else {
        lemma_listed_complete(members, n - 1, at);
        let k = choose|k: int| holds_at(before, k, d);
        if is_listed(names, n - 1) {
            assert(out == before.push(descriptor_at(members, n - 1)));
            assert(out[k] == before[k]);
        }
        assert(holds_at(out, k, d));
    }
}

/// The first member of a name that is no coordinate and no second component
/// is listed.
proof fn lemma_first_of_name_listed(names: Seq<Seq<char>>, at: int)
    requires
        0 <= at < names.len(),
        !is_coordinate(names[at]),
        !is_second_component(names, names[at]),
    ensures
        ({
            let first = names.index_of_first(names[at])->0;
            &&& names.index_of_first(names[at]) is Some
            &&& 0 <= first <= at
            &&& names[first] == names[at]
            &&& is_listed(names, first)
        }),
{
    let n = names[at];
    names.index_of_first_ensures(n);
    assert(names.contains(n));
    let first = names.index_of_first(n)->0;
    if names.take(first).contains(n) {
        let j = choose|j: int| 0 <= j < names.take(first).len() && names.take(first)[j] == n;
        assert(names[j] == n);
    }
}

/// What the analysis lists, whatever the order of the document: each of its
/// descriptors is the descriptor of a listed member, the descriptor of every
/// listed member is among them, and no two descriptors have one name.
pub proof fn lemma_analysis_lists(metadata: Json, members: Vec<(String, Json)>)
    requires
        metadata.member("variables"@) == Some(Json::Object(members)),
    ensures
        forall|k: int|
            0 <= k < analysis(metadata).len() ==> lists_some(
                members@,
                #[trigger] analysis(metadata)[k],
            ),
        forall|at: int|
            0 <= at < members.len() && is_listed(member_names(members@), at) ==> holds(
                analysis(metadata),
                #[trigger] descriptor_at(members@, at),
            ),
        forall|k1: int, k2: int|
            0 <= k1 < analysis(metadata).len() && 0 <= k2 < analysis(metadata).len() && k1 != k2
                ==> (#[trigger] analysis(metadata)[k1]).name != (#[trigger] analysis(
                metadata,
            )[k2]).name,
{
    let out = analysis(metadata);
    let n = members@.len() as int;
    lemma_listed_sound(members@, n);
    assert forall|k: int| 0 <= k < out.len() implies lists_some(members@, #[trigger] out[k]) by {
        assert(lists_before(members@, n, out[k]));
        let at = choose|at: int| lists_at(members@, n, at, out[k]);
        assert(lists(members@, at, out[k]));
    }
    assert forall|at: int|
        0 <= at < members.len() && is_listed(member_names(members@), at) implies holds(
        out,
        #[trigger] descriptor_at(members@, at),
    ) by {
        lemma_listed_complete(members@, n, at);
    }
    assert forall|k1: int, k2: int|
        0 <= k1 < out.len() && 0 <= k2 < out.len() && k1 != k2 implies (#[trigger] out[k1]).name != (
    #[trigger] out[k2]).name by {
        if k1 < k2 {
            assert(out[k1].name != out[k2].name);
        } else {
            assert(out[k2].name != out[k1].name);
        }
    }
}

/// No coordinate axis is among the variables that the analysis yields,
/// whatever the document lists: neither as the name of a descriptor nor as a
/// component of a vector.
pub proof fn lemma_coordinates_left_out(metadata: Json)
    ensures
        forall|k: int|
            0 <= k < analysis(metadata).len() ==> !is_coordinate(
                (#[trigger] analysis(metadata)[k]).name,
            ),
        forall|k: int|
            0 <= k < analysis(metadata).len() ==> match (#[trigger] analysis(metadata)[k]).kind {
                Kind::Vector { u_component, v_component } => !is_coordinate(u_component)
                    && !is_coordinate(v_component),
                Kind::Scalar => true,
            },
{
    match metadata.member("variables"@) {
        Some(Json::Object(members)) => {
            let out = analysis(metadata);
            let names = member_names(members@);
            lemma_listed_sound(members@, members@.len() as int);
            assert forall|k: int| 0 <= k < out.len() implies !is_coordinate((#[trigger] out[k]).name)
                && match out[k].kind {
                Kind::Vector { u_component, v_component } => !is_coordinate(u_component)
                    && !is_coordinate(v_component),
                Kind::Scalar => true,
            } by {
                assert(lists_before(members@, members@.len() as int, out[k]));
                let at = choose|at: int| lists_at(members@, members@.len() as int, at, out[k]);
                if vector_pair(names[at], names) is Some {
                    assert(second_of(names, names[at], v_counterpart(names[at])));
                    lemma_second_component_begins_with_v(names, v_counterpart(names[at]));
                }
            }
        },
        _ => {},
    }
}

/// The two components of a vector never appear side by side as two
/// variables, whatever the order of the document: a vector is named after
/// its first component, its second component is the counterpart of the
/// first, and no descriptor has the name of the second component of a
/// vector.
pub proof fn lemma_vector_components_consumed(metadata: Json)
    ensures
        forall|i: int, j: int|
            0 <= i < analysis(metadata).len() && 0 <= j < analysis(metadata).len()
                ==> match (#[trigger] analysis(metadata)[i]).kind {
                Kind::Vector { u_component, v_component } => {
                    &&& u_component == analysis(metadata)[i].name
                    &&& v_component == v_counterpart(u_component)
                    &&& (#[trigger] analysis(metadata)[j]).name != v_component
                },
                Kind::Scalar => true,
            },
{
    match metadata.member("variables"@) {
        Some(Json::Object(members)) => {
            let out = analysis(metadata);
            let names = member_names(members@);
            lemma_listed_sound(members@, members@.len() as int);
            assert forall|i: int, j: int| 0 <= i < out.len() && 0 <= j < out.len() implies match (
            #[trigger] out[i]).kind {
                Kind::Vector { u_component, v_component } => {
                    &&& u_component == out[i].name
                    &&& v_component == v_counterpart(u_component)
                    &&& (#[trigger] out[j]).name != v_component
                },
                Kind::Scalar => true,
            } by {
                let n = members@.len() as int;
                assert(lists_before(members@, n, out[i]));
                assert(lists_before(members@, n, out[j]));
                let at = choose|at: int| lists_at(members@, n, at, out[i]);
                let other = choose|other: int| lists_at(members@, n, other, out[j]);
                if vector_pair(names[at], names) is Some {
                    assert(second_of(names, names[at], v_counterpart(names[at])));
                }
            }
        },
        _ => {},
    }
}

/// Every name that the analysis gives is a name of the document: the name of
/// each descriptor, and both components of each vector.
pub proof fn lemma_descriptors_are_members(metadata: Json, members: Vec<(String, Json)>)
    requires
        metadata.member("variables"@) == Some(Json::Object(members)),
    ensures
        forall|k: int|
            0 <= k < analysis(metadata).len() ==> member_names(members@).contains(
                (#[trigger] analysis(metadata)[k]).name,
            ),
        forall|k: int|
            0 <= k < analysis(metadata).len() ==> match (#[trigger] analysis(metadata)[k]).kind {
                Kind::Vector { u_component, v_component } => member_names(members@).contains(
                    u_component,
                ) && member_names(members@).contains(v_component),
                Kind::Scalar => true,
            },
{
    let out = analysis(metadata);
    let names = member_names(members@);
    let n = members@.len() as int;
    lemma_listed_sound(members@, n);
    assert forall|k: int| 0 <= k < out.len() implies names.contains((#[trigger] out[k]).name)
        && match out[k].kind {
        Kind::Vector { u_component, v_component } => names.contains(u_component)
            && names.contains(v_component),
        Kind::Scalar => true,
    } by {
        assert(lists_before(members@, n, out[k]));
        let at = choose|at: int| lists_at(members@, n, at, out[k]);
        assert(names[at] == out[k].name);
    }
}

/// Every variable of the document that is no coordinate is accounted for: it
/// is the name of a descriptor, or the second component of a vector among
/// the descriptors.
pub proof fn lemma_every_variable_covered(metadata: Json, members: Vec<(String, Json)>, at: int)
    requires
        metadata.member("variables"@) == Some(Json::Object(members)),
        0 <= at < members.len(),
        !is_coordinate(member_names(members@)[at]),
    ensures
        covered(analysis(metadata), member_names(members@)[at]),
{
    let out = analysis(metadata);
    let names = member_names(members@);
    let n = names[at];
    let len = members@.len() as int;
    if is_second_component(names, n) {
        let u = choose|u: Seq<char>| second_of(names, u, n);
        let j = choose|j: int| 0 <= j < names.len() && names[j] == u;
        if is_coordinate(u) {
            lemma_coordinate_begins_with_no_u(u);
        }
        if is_second_component(names, u) {
            lemma_second_component_begins_with_v(names, u);
        }
        lemma_first_of_name_listed(names, j);
        let first = names.index_of_first(u)->0;
        lemma_listed_complete(members@, len, first);
        let d = descriptor_at(members@, first);
        let k = choose|k: int| holds_at(out, k, d);
        assert(names.contains(n));
        assert(vector_pair(u, names) == Some(n));
        assert(covers(out, k, n));
    } else {
        lemma_first_of_name_listed(names, at);
        let first = names.index_of_first(n)->0;
        lemma_listed_complete(members@, len, first);
        let d = descriptor_at(members@, first);
        let k = choose|k: int| holds_at(out, k, d);
        assert(covers(out, k, n));
    }
}

/// A document that lists `u10` and `v10`, in any order and beside any other
/// variables, has the vector of the two under the name `u10`, and no
/// descriptor of the name `v10`.
pub proof fn lemma_wind_pair_once(metadata: Json, members: Vec<(String, Json)>)
    requires
        metadata.member("variables"@) == Some(Json::Object(members)),
        member_names(members@).contains("u10"@),
        member_names(members@).contains("v10"@),
    ensures
        forall|k: int|
            0 <= k < analysis(metadata).len() ==> (#[trigger] analysis(metadata)[k]).name
                != "v10"@,
        forall|k: int|
            0 <= k < analysis(metadata).len() && (#[trigger] analysis(metadata)[k]).name == "u10"@
                ==> analysis(metadata)[k].kind == (Kind::Vector {
                u_component: "u10"@,
                v_component: "v10"@,
            }),
        exists|k: int|
            0 <= k < analysis(metadata).len() && (#[trigger] analysis(metadata)[k]).name == "u10"@,
{
    let out = analysis(metadata);
    let names = member_names(members@);
    let len = members@.len() as int;
    lemma_u10_v10();
    assert(second_of(names, "u10"@, "v10"@));
    lemma_listed_sound(members@, len);
    assert forall|k: int| 0 <= k < out.len() implies (#[trigger] out[k]).name != "v10"@ && (
    out[k].name == "u10"@ ==> out[k].kind == (Kind::Vector {
        u_component: "u10"@,
        v_component: "v10"@,
    })) by {
        assert(lists_before(members@, len, out[k]));
        let at = choose|at: int| lists_at(members@, len, at, out[k]);
        assert(out[k].name == names[at]);
    }
    let j = choose|j: int| 0 <= j < names.len() && names[j] == "u10"@;
    if is_second_component(names, "u10"@) {
        lemma_second_component_begins_with_v(names, "u10"@);
    }
    if is_coordinate("u10"@) {
        lemma_coordinate_begins_with_no_u("u10"@);
    }
    lemma_first_of_name_listed(names, j);
    let first = names.index_of_first("u10"@)->0;
    lemma_listed_complete(members@, len, first);
    let k = choose|k: int| holds_at(out, k, descriptor_at(members@, first));
    assert(out[k].name == "u10"@);
}

/// The counterpart of `u10` is `v10`.
proof fn lemma_u10_v10()
    ensures
        begins_with_u("u10"@),
        v_counterpart("u10"@) == "v10"@,
        !begins_with_u("t2m"@),
        !begins_with_u("v10"@),
        "t2m"@ != "u10"@,
        "t2m"@ != "v10"@,
        "u10"@ != "v10"@,
{
    reveal_strlit("t2m");
    reveal_strlit("u10");
    reveal_strlit("v10");
    let u10 = "u10"@;
    u10.index_of_first_ensures('u');
    assert(u10[0] == 'u');
    assert(u10.index_of_first('u') == Some(0int));
    let first = replace_first(u10, 'u', seq!['v']);
    assert(first =~= "v10"@);
    first.index_of_first_ensures('U');
    assert(first.index_of_first('U') is None) by {
        if first.contains('U') {
            let k = choose|k: int| 0 <= k < first.len() && first[k] == 'U';
            assert(k == 0 || k == 1 || k == 2);
        }
    }
    assert("t2m"@[0] == 't');
    assert("v10"@[0] == 'v');
}

/// A document whose variables are `t2m`, `u10` and `v10`, in any order, has
/// two descriptors whatever their attributes hold: the scalar `t2m` and the
/// vector of `u10` and `v10`.
pub proof fn lemma_wind_pair_beside_temperature(metadata: Json, members: Vec<(String, Json)>)
    requires
        metadata.member("variables"@) == Some(Json::Object(members)),
        members.len() == 3,
        member_names(members@).contains("t2m"@),
        member_names(members@).contains("u10"@),
        member_names(members@).contains("v10"@),
    ensures
        analysis(metadata).len() == 2,
        exists|k: int|
            0 <= k < 2 && (#[trigger] analysis(metadata)[k]).name == "t2m"@ && analysis(
                metadata,
            )[k].kind == Kind::Scalar,
        exists|k: int|
            0 <= k < 2 && (#[trigger] analysis(metadata)[k]).name == "u10"@ && analysis(
                metadata,
            )[k].kind == (Kind::Vector { u_component: "u10"@, v_component: "v10"@ }),
{
    let out = analysis(metadata);
    let names = member_names(members@);
    lemma_u10_v10();
    reveal_strlit("t2m");
    reveal_strlit("u10");
    reveal_strlit("v10");
    reveal_strlit("longitude");
    reveal_strlit("latitude");
    reveal_strlit("time");
    reveal_strlit("level");
    let a = choose|a: int| 0 <= a < names.len() && names[a] == "t2m"@;
    let b = choose|b: int| 0 <= b < names.len() && names[b] == "u10"@;
    let c = choose|c: int| 0 <= c < names.len() && names[c] == "v10"@;
    assert(names.len() == 3);
    assert(a != b && a != c && b != c);
    // every name is one of the three, and only `v10` is a second component
    assert forall|i: int| 0 <= i < 3 implies (is_listed(names, i) <==> i != c) by {
        assert(i == a || i == b || i == c);
        assert(second_of(names, "u10"@, "v10"@));
        if is_second_component(names, names[i]) && i != c {
            let u = choose|u: Seq<char>| second_of(names, u, names[i]);
            let j = choose|j: int| 0 <= j < names.len() && names[j] == u;
            assert(j == a || j == b || j == c);
        }
        if names.take(i).contains(names[i]) {
            let j = choose|j: int| 0 <= j < names.take(i).len() && names.take(i)[j] == names[i];
            assert(names[j] == names[i]);
            assert(j == a || j == b || j == c);
        }
    }
    let l0 = listed_among(members@, 0);
    let l1 = listed_among(members@, 1);
    let l2 = listed_among(members@, 2);
    let l3 = listed_among(members@, 3);
    assert(l0.len() == 0);
    assert(l1.len() == l0.len() + (if is_listed(names, 0) { 1int } else { 0int }));
    assert(l2.len() == l1.len() + (if is_listed(names, 1) { 1int } else { 0int }));
    assert(l3.len() == l2.len() + (if is_listed(names, 2) { 1int } else { 0int }));
    assert(out == l3);
    assert(out.len() == 2);
    lemma_listed_complete(members@, 3, a);
    lemma_listed_complete(members@, 3, b);
    let ka = choose|k: int| holds_at(out, k, descriptor_at(members@, a));
    let kb = choose|k: int| holds_at(out, k, descriptor_at(members@, b));
    assert(vector_pair("t2m"@, names) is None);
    assert(vector_pair("u10"@, names) == Some("v10"@));
    assert(out[ka].name == "t2m"@ && out[ka].kind == Kind::Scalar);
    assert(out[kb].name == "u10"@);
}

/// The descriptor that answers a request for `requested`: one of that name,
/// or a vector whose first component has that name.
pub open spec fn answers(d: Descriptor, requested: Seq<char>) -> bool {
    d.name == requested || match d.kind {
        Kind::Vector { u_component, v_component } => u_component == requested,
        Kind::Scalar => false,
    }
}

/// The position of the first descriptor that answers a request for
/// `requested`, if there is one.
pub open spec fn first_answer(list: Seq<Descriptor>, requested: Seq<char>) -> Option<int> {
    list.map_values(|d: Descriptor| answers(d, requested)).index_of_first(true)
}

fn info_answers(info: &VariableInfo, requested: &String) -> (r: bool)
    ensures
        r == answers(info@, requested@),
{
    if info.name == *requested {
        true
    } else {
        match &info.var_type {
            VariableType::Vector { u_component, v_component } => *u_component == *requested,
            VariableType::Scalar => false,
        }
    }
}

/// Finds the variable that a request for `requested` means: the first one of
/// that name, or the first vector whose first component has that name.
pub fn find_variable(variables: &Vec<VariableInfo>, requested: &str) -> (found: Option<usize>)
    ensures
        match found {
            Some(at) => at < variables.len() && first_answer(descriptors(variables@), requested@)
                == Some(at as int),
            None => first_answer(descriptors(variables@), requested@) is None,
        },
{
    let wanted = requested.to_owned();
    let ghost hits = descriptors(variables@).map_values(|d: Descriptor| answers(d, requested@));
    let mut i: usize = 0;
    while i < variables.len()
        invariant
            i <= variables.len(),
            wanted@ == requested@,
            hits == descriptors(variables@).map_values(|d: Descriptor| answers(d, requested@)),
            forall|j: int| 0 <= j < i ==> !hits[j],
        decreases variables.len() - i,
    {
        assert(hits[i as int] == answers(variables@[i as int]@, requested@));
        if info_answers(&variables[i], &wanted) {
            proof {
                assert(hits.contains(true));
                hits.index_of_first_ensures(true);
            }
            return Some(i);
        }
        i += 1;
    }
    proof {
        hits.index_of_first_ensures(true);
    }
    None
}

/// A vector of the category wind.
pub open spec fn is_wind_vector(d: Descriptor) -> bool {
    d.category == VariableCategory::Wind && d.kind is Vector
}

/// The variable that a request for "the wind" means: the first component of
/// the first wind vector, or `u10` where the list holds none.
pub open spec fn wind_choice(list: Seq<Descriptor>) -> Seq<char> {
    match list.map_values(|d: Descriptor| is_wind_vector(d)).index_of_first(true) {
        Some(at) => list[at].kind->u_component,
        None => "u10"@,
    }
}

/// The variable that a request for "the temperature" means: the first
/// variable of the category temperature, or `t2m` where the list holds none.
pub open spec fn temperature_choice(list: Seq<Descriptor>) -> Seq<char> {
    match list.map_values(|d: Descriptor| d.category == VariableCategory::Temperature)
        .index_of_first(true) {
        Some(at) => list[at].name,
        None => "t2m"@,
    }
}

/// Picks the variable that stands for the wind.
pub fn default_wind_variable(variables: &Vec<VariableInfo>) -> (name: String)
    ensures
        name@ == wind_choice(descriptors(variables@)),
{
    let ghost hits = descriptors(variables@).map_values(|d: Descriptor| is_wind_vector(d));
    let mut i: usize = 0;
    while i < variables.len()
        invariant
            i <= variables.len(),
            hits == descriptors(variables@).map_values(|d: Descriptor| is_wind_vector(d)),
            forall|j: int| 0 <= j < i ==> !hits[j],
        decreases variables.len() - i,
    {
        assert(hits[i as int] == is_wind_vector(variables@[i as int]@));
        match (&variables[i].category, &variables[i].var_type) {
            (VariableCategory::Wind, VariableType::Vector { u_component, v_component }) => {
                proof {
                    assert(hits.contains(true));
                    hits.index_of_first_ensures(true);
                }
                return u_component.clone();
            },
            _ => {},
        }
        i += 1;
    }
    proof {
        hits.index_of_first_ensures(true);
    }
    String::from_str("u10")
}

/// Picks the variable that stands for the temperature.
pub fn default_temperature_variable(variables: &Vec<VariableInfo>) -> (name: String)
    ensures
        name@ == temperature_choice(descriptors(variables@)),
{
    let ghost hits = descriptors(variables@).map_values(
        |d: Descriptor| d.category == VariableCategory::Temperature,
    );
    let mut i: usize = 0;
    while i < variables.len()
        invariant
            i <= variables.len(),
            hits == descriptors(variables@).map_values(
                |d: Descriptor| d.category == VariableCategory::Temperature,
            ),
            forall|j: int| 0 <= j < i ==> !hits[j],
        decreases variables.len() - i,
    {
        assert(hits[i as int] == (variables@[i as int]@.category
            == VariableCategory::Temperature));
        match &variables[i].category {
            VariableCategory::Temperature => {
                proof {
                    assert(hits.contains(true));
                    hits.index_of_first_ensures(true);
                }
                return variables[i].name.clone();
            },
            _ => {},
        }
        i += 1;
    }
    proof {
        hits.index_of_first_ensures(true);
    }
    String::from_str("t2m")
}

} // verus!
