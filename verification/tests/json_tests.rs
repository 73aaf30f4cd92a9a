use rossby_vis::json::{
    are_members_ascending, collect_numbers, collect_texts, insert_member, Json, Number,
};
use rossby_vis::text::{chars_less, chars_of, contains_chars, find_char, replace_first_char};

fn text(s: &str) -> Json {
    Json::String(s.to_string())
}

fn object(members: Vec<(&str, Json)>) -> Json {
    Json::Object(members.into_iter().map(|(k, v)| (k.to_string(), v)).collect())
}

fn chars(s: &str) -> Vec<char> {
    s.chars().collect()
}

#[test]
fn only_an_object_has_members() {
    let doc = object(vec![("a", Json::Bool(true)), ("b", Json::Null)]);
    assert!(matches!(doc.get("a"), Some(Json::Bool(true))));
    assert!(matches!(doc.get("b"), Some(Json::Null)));
    assert!(doc.get("c").is_none());
    assert!(doc.get("").is_none());
    assert!(Json::Null.get("a").is_none());
    assert!(Json::Array(vec![Json::Null]).get("0").is_none());
    assert!(text("a").get("a").is_none());
}

#[test]
fn the_first_member_of_a_name_is_found() {
    let doc = object(vec![("a", text("one")), ("b", text("x")), ("a", text("two"))]);
    assert_eq!(doc.get("a").unwrap().as_str(), Some("one"));
}

#[test]
fn a_value_is_read_in_its_own_form_only() {
    let n = Json::Number(Number::PosInt(7));
    assert_eq!(n.as_u64(), Some(7));
    assert_eq!(n.as_number(), Some(Number::PosInt(7)));
    assert!(n.as_str().is_none());
    assert!(n.as_array().is_none());
    assert!(n.as_object().is_none());
    let negative = Json::Number(Number::NegInt(-7));
    assert_eq!(negative.as_u64(), None);
    assert_eq!(negative.as_number(), Some(Number::NegInt(-7)));
    let fraction = Json::Number(Number::Real(7.0f64.to_bits()));
    assert_eq!(fraction.as_u64(), None);
    assert_eq!(fraction.as_number(), Some(Number::Real(7.0f64.to_bits())));
    assert_eq!(text("7").as_u64(), None);
    assert_eq!(text("7").as_number(), None);
    assert_eq!(text("7").as_str(), Some("7"));
    assert_eq!(Json::Array(vec![Json::Null]).as_array().map(|a| a.len()), Some(1));
    assert_eq!(object(vec![("a", Json::Null)]).as_object().map(|m| m.len()), Some(1));
    assert!(Json::Bool(false).as_object().is_none());
}

#[test]
fn texts_and_numbers_are_picked_in_order() {
    let items = vec![
        text("a"),
        Json::Number(Number::PosInt(1)),
        Json::Null,
        text(""),
        Json::Number(Number::NegInt(-1)),
        Json::Bool(true),
        text("b"),
    ];
    assert_eq!(collect_texts(&items), vec!["a".to_string(), String::new(), "b".to_string()]);
    assert_eq!(collect_numbers(&items), vec![Number::PosInt(1), Number::NegInt(-1)]);
    assert!(collect_texts(&Vec::new()).is_empty());
    assert!(collect_numbers(&Vec::new()).is_empty());
}

#[test]
fn a_text_holds_its_substrings() {
    let contains = |hay: &str, needle: &str| contains_chars(&chars(hay), &chars(needle));
    assert!(contains("temperature", "temp"));
    assert!(contains("temperature", "ture"));
    assert!(contains("temperature", "temperature"));
    assert!(contains("temperature", ""));
    assert!(contains("", ""));
    assert!(!contains("", "a"));
    assert!(!contains("temp", "temperature"));
    assert!(!contains("temperature", "tempo"));
    assert!(contains("aab", "ab"));
    assert!(contains("größe", "öß"));
    assert!(contains_chars(&chars("u100"), &chars("10")));
    assert!(!contains_chars(&chars("u1"), &chars("10")));
}

#[test]
fn the_characters_of_a_text() {
    assert_eq!(chars_of("aé€"), vec!['a', 'é', '€']);
    assert!(chars_of("").is_empty());
}

#[test]
fn the_first_of_a_character() {
    assert_eq!(find_char(&chars("a,b,c"), ','), Some(1));
    assert_eq!(find_char(&chars(",b"), ','), Some(0));
    assert_eq!(find_char(&chars("abc"), ','), None);
    assert_eq!(find_char(&chars(""), ','), None);
}

#[test]
fn only_the_first_is_replaced() {
    assert_eq!(replace_first_char("u10", 'u', "v"), "v10");
    assert_eq!(replace_first_char("uu", 'u', "v"), "vu");
    assert_eq!(replace_first_char("tuu", 'u', "v"), "tvu");
    assert_eq!(replace_first_char("abc", 'u', "v"), "abc");
    assert_eq!(replace_first_char("", 'u', "v"), "");
    assert_eq!(replace_first_char("aué", 'u', "xyz"), "axyzé");
    assert_eq!(replace_first_char("u", 'u', ""), "");
}

#[test]
fn texts_are_ordered_as_strings_are() {
    let samples = ["", "a", "ab", "b", "U", "u10", "v10", "é", "z", "t2m", "u1", "u100"];
    for a in samples {
        for b in samples {
            assert_eq!(chars_less(&chars(a), &chars(b)), a < b, "{:?} < {:?}", a, b);
        }
    }
}

fn names_of(members: &[(String, Json)]) -> Vec<&str> {
    members.iter().map(|m| m.0.as_str()).collect()
}

#[test]
fn members_are_put_in_order() {
    let mut members: Vec<(String, Json)> = Vec::new();
    for name in ["u10", "t2m", "v10", "d2m", "sp", "U", ""] {
        assert!(are_members_ascending(&members));
        insert_member(&mut members, name.to_string(), text(name));
    }
    assert_eq!(names_of(&members), vec!["", "U", "d2m", "sp", "t2m", "u10", "v10"]);
    assert!(are_members_ascending(&members));
    let doc = Json::Object(members);
    assert_eq!(doc.get("sp").unwrap().as_str(), Some("sp"));
    assert_eq!(doc.get("").unwrap().as_str(), Some(""));
    assert!(doc.get("msl").is_none());
}

#[test]
fn a_member_of_the_same_name_is_replaced() {
    let mut members: Vec<(String, Json)> = Vec::new();
    insert_member(&mut members, "b".to_string(), text("first"));
    insert_member(&mut members, "a".to_string(), text("a"));
    insert_member(&mut members, "c".to_string(), text("c"));
    insert_member(&mut members, "b".to_string(), text("second"));
    assert_eq!(names_of(&members), vec!["a", "b", "c"]);
    assert_eq!(members[1].1.as_str(), Some("second"));
    insert_member(&mut members, "c".to_string(), Json::Null);
    insert_member(&mut members, "a".to_string(), Json::Bool(true));
    assert_eq!(names_of(&members), vec!["a", "b", "c"]);
    assert!(matches!(members[0].1, Json::Bool(true)));
    assert!(matches!(members[2].1, Json::Null));
}

#[test]
fn ascending_means_strictly_ascending() {
    let list = |names: &[&str]| -> Vec<(String, Json)> {
        names.iter().map(|n| (n.to_string(), Json::Null)).collect()
    };
    assert!(are_members_ascending(&list(&[])));
    assert!(are_members_ascending(&list(&["a"])));
    assert!(are_members_ascending(&list(&["a", "b", "c"])));
    assert!(are_members_ascending(&list(&["t2m", "u10", "v10"])));
    assert!(are_members_ascending(&list(&["", "a", "aa", "ab", "b"])));
    assert!(!are_members_ascending(&list(&["a", "a"])));
    assert!(!are_members_ascending(&list(&["b", "a"])));
    assert!(!are_members_ascending(&list(&["v10", "u10"])));
    assert!(!are_members_ascending(&list(&["a", "c", "b"])));
    assert!(!are_members_ascending(&list(&["a", "b", "b"])));
}
