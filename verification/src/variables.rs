//! The variables of a dataset: what physical quantity each one is, and which
//! two of them are the components of one vector.

use vstd::prelude::*;
use vstd::string::*;
use crate::text::{
    chars_of, contains_chars, differ_at, has_substring, lex_less, lowercase_of, replace_first,
    replace_first_char, to_lowercase,
};

verus! {

/// The physical quantity that a variable measures.
#[derive(Clone, Copy, Debug, PartialEq, Eq, Structural)]
pub enum VariableCategory {
    Temperature,
    Wind,
    Pressure,
    Humidity,
    Precipitation,
    Radiation,
    Cloud,
    General,
}

/// A variable is one field of samples, or two fields that are the components
/// of one vector.
#[derive(Clone, Debug)]
pub enum VariableType {
    Scalar,
    Vector { u_component: String, v_component: String },
}

/// What is known of one logical variable.
#[derive(Clone, Debug)]
pub struct VariableInfo {
    pub name: String,
    pub display_name: String,
    pub long_name: String,
    pub units: String,
    pub category: VariableCategory,
    pub var_type: VariableType,
    pub dimensions: Vec<String>,
}

/// The mathematical value of a `VariableType`.
pub enum Kind {
    Scalar,
    Vector { u_component: Seq<char>, v_component: Seq<char> },
}

/// The mathematical value of a `VariableInfo`.
pub struct Descriptor {
    pub name: Seq<char>,
    pub display_name: Seq<char>,
    pub long_name: Seq<char>,
    pub units: Seq<char>,
    pub category: VariableCategory,
    pub kind: Kind,
    pub dimensions: Seq<Seq<char>>,
}

impl View for VariableType {
    type V = Kind;

    open spec fn view(&self) -> Kind {
        match *self {
            VariableType::Scalar => Kind::Scalar,
            VariableType::Vector { u_component, v_component } => Kind::Vector {
                u_component: u_component@,
                v_component: v_component@,
            },
        }
    }
}

impl View for VariableInfo {
    type V = Descriptor;

    open spec fn view(&self) -> Descriptor {
        Descriptor {
            name: self.name@,
            display_name: self.display_name@,
            long_name: self.long_name@,
            units: self.units@,
            category: self.category,
            kind: self.var_type@,
            dimensions: self.dimensions@.map_values(|d: String| d@),
        }
    }
}

/// The category of a search text. The keyword groups are tried in a fixed
/// order and the first group of which a keyword occurs in the text decides;
/// the groups overlap, so the order is part of the rule.
pub open spec fn category_of(text: Seq<char>) -> VariableCategory {
    if has_substring(text, "temperature"@) || has_substring(text, "temp"@) || has_substring(
        text,
        "sst"@,
    ) || has_substring(text, "t2m"@) {
        VariableCategory::Temperature
    } else if has_substring(text, "wind"@) || has_substring(text, "u10"@) || has_substring(
        text,
        "v10"@,
    ) || has_substring(text, "component"@) {
        VariableCategory::Wind
    } else if has_substring(text, "pressure"@) || has_substring(text, "sp"@) || has_substring(
        text,
        "msl"@,
    ) {
        VariableCategory::Pressure
    } else if has_substring(text, "humidity"@) || has_substring(text, "dewpoint"@)
        || has_substring(text, "d2m"@) {
        VariableCategory::Humidity
    } else if has_substring(text, "precipitation"@) || has_substring(text, "snow"@)
        || has_substring(text, "rain"@) || has_substring(text, "sd"@) {
        VariableCategory::Precipitation
    } else if has_substring(text, "radiation"@) || has_substring(text, "solar"@) || has_substring(
        text,
        "tisr"@,
    ) {
        VariableCategory::Radiation
    } else if has_substring(text, "cloud"@) || has_substring(text, "tcw"@) {
        VariableCategory::Cloud
    } else {
        VariableCategory::General
    }
}

/// The text that is searched for keywords: the name, a blank and the long
/// name, in lower case.
pub open spec fn search_text(name: Seq<char>, long_name: Seq<char>) -> Seq<char> {
    lowercase_of(name + seq![' '] + long_name)
}

/// The category of a variable, from its name and long name.
pub open spec fn categorize(name: Seq<char>, long_name: Seq<char>) -> VariableCategory {
    category_of(search_text(name, long_name))
}

fn mentions(hay: &Vec<char>, keyword: &str) -> (found: bool)
    ensures
        found == has_substring(hay@, keyword@),
{
    let needle = chars_of(keyword);
    contains_chars(hay, &needle)
}

/// The category of a search text that is already in lower case.
pub fn category_of_text(text: &str) -> (category: VariableCategory)
    ensures
        category == category_of(text@),
{
    let hay = chars_of(text);
    if mentions(&hay, "temperature") || mentions(&hay, "temp") || mentions(&hay, "sst") || mentions(
        &hay,
        "t2m",
    ) {
        VariableCategory::Temperature
    } else if mentions(&hay, "wind") || mentions(&hay, "u10") || mentions(&hay, "v10") || mentions(
        &hay,
        "component",
    ) {
        VariableCategory::Wind
    } else if mentions(&hay, "pressure") || mentions(&hay, "sp") || mentions(&hay, "msl") {
        VariableCategory::Pressure
    } else if mentions(&hay, "humidity") || mentions(&hay, "dewpoint") || mentions(&hay, "d2m") {
        VariableCategory::Humidity
    } else if mentions(&hay, "precipitation") || mentions(&hay, "snow") || mentions(&hay, "rain")
        || mentions(&hay, "sd") {
        VariableCategory::Precipitation
    } else if mentions(&hay, "radiation") || mentions(&hay, "solar") || mentions(&hay, "tisr") {
        VariableCategory::Radiation
    } else if mentions(&hay, "cloud") || mentions(&hay, "tcw") {
        VariableCategory::Cloud
    } else {
        VariableCategory::General
    }
}

/// The category of a variable, from its name and long name.
pub fn categorize_variable(var_name: &str, long_name: &str) -> (category: VariableCategory)
    ensures
        category == categorize(var_name@, long_name@),
{
    let mut joined = String::from_str(var_name);
    joined.append(" ");
    joined.append(long_name);
    proof {
        reveal_strlit(" ");
        assert(" "@ =~= seq![' ']);
    }
    let lower = to_lowercase(joined.as_str());
    category_of_text(lower.as_str())
}

/// The name under which a category is shown.
pub open spec fn category_name(category: VariableCategory) -> Seq<char> {
    match category {
        VariableCategory::Temperature => "Temperature"@,
        VariableCategory::Wind => "Momentum"@,
        VariableCategory::Pressure => "Pressure"@,
        VariableCategory::Humidity => "Humidity"@,
        VariableCategory::Precipitation => "Moisture"@,
        VariableCategory::Radiation => "Radiation"@,
        VariableCategory::Cloud => "Cloud"@,
        VariableCategory::General => "General"@,
    }
}

/// The name under which a category is shown.
pub fn get_category_name(category: &VariableCategory) -> (name: &'static str)
    ensures
        name@ == category_name(*category),
{
    match category {
        VariableCategory::Temperature => "Temperature",
        VariableCategory::Wind => "Momentum",
        VariableCategory::Pressure => "Pressure",
        VariableCategory::Humidity => "Humidity",
        VariableCategory::Precipitation => "Moisture",
        VariableCategory::Radiation => "Radiation",
        VariableCategory::Cloud => "Cloud",
        VariableCategory::General => "General",
    }
}

/// The code of a category in the record header; 255 stands for every category
/// without a code of its own.
pub open spec fn category_code(category: VariableCategory) -> u8 {
    match category {
        VariableCategory::Temperature => 0,
        VariableCategory::Wind => 2,
        VariableCategory::Pressure => 3,
        VariableCategory::Humidity => 1,
        _ => 255,
    }
}

/// The code of a category in the record header.
pub fn get_category_code(category: &VariableCategory) -> (code: u8)
    ensures
        code == category_code(*category),
{
    match category {
        VariableCategory::Temperature => 0,
        VariableCategory::Wind => 2,
        VariableCategory::Pressure => 3,
        VariableCategory::Humidity => 1,
        _ => 255,
    }
}

/// A name that begins with `u` or `U`: the first component of a vector, if it
/// has a counterpart.
pub open spec fn begins_with_u(name: Seq<char>) -> bool {
    name.len() > 0 && (name[0] == 'u' || name[0] == 'U')
}

/// The name of the second component that belongs to `name`: the first `u`
/// becomes `v`, then the first `U` becomes `V`.
pub open spec fn v_counterpart(name: Seq<char>) -> Seq<char> {
    replace_first(replace_first(name, 'u', seq!['v']), 'U', seq!['V'])
}

/// The second component of the vector that `name` is the first component of,
/// if `name` begins with `u` or `U` and its counterpart is among `available`.
pub open spec fn vector_pair(name: Seq<char>, available: Seq<Seq<char>>) -> Option<Seq<char>> {
    if begins_with_u(name) && available.contains(v_counterpart(name)) {
        Some(v_counterpart(name))
    } else {
        None
    }
}

/// The texts that a list of strings holds.
pub open spec fn views_of(list: Seq<String>) -> Seq<Seq<char>> {
    list.map_values(|s: String| s@)
}

/// Whether `wanted` is one of `list`.
pub fn list_contains(list: &Vec<String>, wanted: &str) -> (found: bool)
    ensures
        found == views_of(list@).contains(wanted@),
{
    let wanted_owned = wanted.to_owned();
    let mut i: usize = 0;
    while i < list.len()
        invariant
            i <= list.len(),
            wanted_owned@ == wanted@,
            forall|k: int| 0 <= k < i ==> views_of(list@)[k] != wanted@,
        decreases list.len() - i,
    {
        if list[i] == wanted_owned {
            assert(views_of(list@)[i as int] == wanted@);
            return true;
        }
        i += 1;
    }
    false
}

/// The name of the second component that belongs to `name`, where `name`
/// begins with `u` or `U`.
pub fn counterpart_name(name: &str) -> (second: Option<String>)
    ensures
        match second {
            Some(v) => begins_with_u(name@) && v@ == v_counterpart(name@),
            None => !begins_with_u(name@),
        },
{
    let chars = chars_of(name);
    if chars.len() > 0 && (chars[0] == 'u' || chars[0] == 'U') {
        proof {
            reveal_strlit("v");
            reveal_strlit("V");
            assert("v"@ =~= seq!['v']);
            assert("V"@ =~= seq!['V']);
        }
        let lower_done = replace_first_char(name, 'u', "v");
        Some(replace_first_char(lower_done.as_str(), 'U', "V"))
    } else {
        None
    }
}

/// Looks for the second component of the vector that `var_name` would be the
/// first component of.
pub fn find_vector_pair(var_name: &str, available_vars: &Vec<String>) -> (pair: Option<String>)
    ensures
        match pair {
            Some(v) => vector_pair(var_name@, views_of(available_vars@)) == Some(v@),
            None => vector_pair(var_name@, views_of(available_vars@)) is None,
        },
{
    match counterpart_name(var_name) {
        Some(v_component) => if list_contains(available_vars, v_component.as_str()) {
            Some(v_component)
        } else {
            None
        },
        None => None,
    }
}

/// The name under which a vector is shown.
pub open spec fn vector_display_name() -> Seq<char> {
    "Wind"@
}

/// The name under which the vector with the components `u_var` and `v_var`
/// is shown. Every vector is shown as "Wind", whatever its components are
/// called.
pub fn create_vector_display_name(u_var: &str, v_var: &str) -> (name: String)
    ensures
        name@ == vector_display_name(),
{
    String::from_str("Wind")
}

/// The first component of a vector comes before its counterpart in the order
/// of names.
pub proof fn lemma_counterpart_follows(name: Seq<char>)
    requires
        begins_with_u(name),
    ensures
        lex_less(name, v_counterpart(name)),
        v_counterpart(name).len() == name.len(),
        v_counterpart(name)[0] == 'v' || v_counterpart(name)[0] == 'V',
{
    let first = replace_first(name, 'u', seq!['v']);
    name.index_of_first_ensures('u');
    assert(first.len() == name.len() && (first[0] == 'v' || first[0] == 'U') && (name[0] == 'u'
        ==> first[0] == 'v')) by {
        match name.index_of_first('u') {
            Some(at) => {
                if name[0] == 'u' {
                    assert(at == 0);
                } else {
                    assert(at > 0);
                }
            },
            None => {},
        }
    }
    let second = replace_first(first, 'U', seq!['V']);
    first.index_of_first_ensures('U');
    assert(second.len() == name.len() && (second[0] == 'v' || second[0] == 'V') && (name[0] == 'u'
        ==> second[0] == 'v')) by {
        match first.index_of_first('U') {
            Some(at) => {
                if first[0] == 'U' {
                    assert(at == 0);
                } else {
                    assert(at > 0);
                }
            },
            None => {},
        }
    }
    assert(name.take(0) =~= second.take(0));
    assert(differ_at(name, second, 0));
}

} // verus!
