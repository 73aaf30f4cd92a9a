//! Text as sequences of characters: searching, ordering and rewriting.
//!
//! Contracts speak of a text only through its view, a `Seq<char>`.

use vstd::prelude::*;
use vstd::string::*;

verus! {

/// `needle` stands in `hay` at position `at`.
pub open spec fn occurs_at(hay: Seq<char>, needle: Seq<char>, at: int) -> bool {
    &&& 0 <= at
    &&& at + needle.len() <= hay.len()
    &&& hay.subrange(at, at + needle.len()) == needle
}

/// `needle` stands somewhere in `hay`.
pub open spec fn has_substring(hay: Seq<char>, needle: Seq<char>) -> bool {
    exists|at: int| #[trigger] occurs_at(hay, needle, at)
}

/// `text` with the first `from` replaced by `to`; `text` itself where no `from` occurs.
pub open spec fn replace_first(text: Seq<char>, from: char, to: Seq<char>) -> Seq<char> {
    match text.index_of_first(from) {
        Some(at) => text.take(at) + to + text.skip(at + 1),
        None => text,
    }
}

/// Strict lexicographic order by character code, the order of `str`.
pub open spec fn lex_less(a: Seq<char>, b: Seq<char>) -> bool {
    exists|k: int| #[trigger] differ_at(a, b, k)
}

/// `a` and `b` agree before position `k`, and there `a` ends or holds the smaller character.
pub open spec fn differ_at(a: Seq<char>, b: Seq<char>, k: int) -> bool {
    &&& 0 <= k <= a.len()
    &&& k < b.len()
    &&& a.take(k) == b.take(k)
    &&& (k == a.len() || (a[k] as int) < (b[k] as int))
}

/// The order is asymmetric: of two texts at most one precedes the other.
pub proof fn lemma_lex_less_asymmetric(a: Seq<char>, b: Seq<char>)
    requires
        lex_less(a, b),
    ensures
        !lex_less(b, a),
        a != b,
{
    let k = choose|k: int| differ_at(a, b, k);
    if a == b {
        assert(a.len() == b.len());
        assert(a[k] == b[k]);
    }
    if lex_less(b, a) {
        let m = choose|m: int| differ_at(b, a, m);
        if k < m {
            assert(b.take(m)[k] == a.take(m)[k]);
        } else if m < k {
            assert(a.take(k)[m] == b.take(k)[m]);
        } else {
        }
    }
}

/// The order is transitive.
pub proof fn lemma_lex_less_transitive(a: Seq<char>, b: Seq<char>, c: Seq<char>)
    requires
        lex_less(a, b),
        lex_less(b, c),
    ensures
        lex_less(a, c),
{
    let k1 = choose|k: int| differ_at(a, b, k);
    let k2 = choose|k: int| differ_at(b, c, k);
    let k = if k1 <= k2 {
        k1
    } else {
        k2
    };
    assert(a.take(k) =~= c.take(k)) by {
        assert forall|i: int| 0 <= i < k implies a[i] == c[i] by {
            assert(a.take(k1)[i] == b.take(k1)[i]);
            assert(b.take(k2)[i] == c.take(k2)[i]);
        }
    }
    if k1 < k2 {
        assert(b.take(k2)[k1] == c.take(k2)[k1]);
    } else if k2 < k1 {
        assert(a.take(k1)[k2] == b.take(k1)[k2]);
    }
    assert(differ_at(a, c, k));
}

/// Of two different texts one precedes the other.
pub proof fn lemma_lex_less_total(a: Seq<char>, b: Seq<char>)
    ensures
        a == b || lex_less(a, b) || lex_less(b, a),
    decreases a.len(),
{
    if a.len() == 0 {
        if b.len() > 0 {
            assert(a.take(0) =~= b.take(0));
            assert(differ_at(a, b, 0));
        } else {
            assert(a =~= b);
        }
    } else if b.len() == 0 {
        assert(a.take(0) =~= b.take(0));
        assert(differ_at(b, a, 0));
    } else if a[0] != b[0] {
        assert(a.take(0) =~= b.take(0));
        if (a[0] as int) < (b[0] as int) {
            assert(differ_at(a, b, 0));
        } else {
            assert(differ_at(b, a, 0));
        }
    } else {
        let x = a.drop_first();
        let y = b.drop_first();
        lemma_lex_less_total(x, y);
        if x == y {
            assert(a =~= seq![a[0]] + x);
            assert(b =~= seq![b[0]] + y);
        } else if lex_less(x, y) {
            let k = choose|k: int| differ_at(x, y, k);
            assert(a.take(k + 1) =~= seq![a[0]] + x.take(k));
            assert(b.take(k + 1) =~= seq![b[0]] + y.take(k));
            assert(k < x.len() ==> a[k + 1] == x[k]);
            assert(b[k + 1] == y[k]);
            assert(differ_at(a, b, k + 1));
        } else {
            let k = choose|k: int| differ_at(y, x, k);
            assert(a.take(k + 1) =~= seq![a[0]] + x.take(k));
            assert(b.take(k + 1) =~= seq![b[0]] + y.take(k));
            assert(k < y.len() ==> b[k + 1] == y[k]);
            assert(a[k + 1] == x[k]);
            assert(differ_at(b, a, k + 1));
        }
    }
}

/// The lower-case form of a text, as `str::to_lowercase` of the standard
/// library gives it: the lower-case form that Unicode defines for the text.
pub uninterp spec fn lowercase_of(text: Seq<char>) -> Seq<char>;

/// `str::to_lowercase`. The result depends on the characters of `text` alone;
/// the contract gives it the name `lowercase_of` and states nothing else of it.
#[verifier::external_body]
pub(crate) fn to_lowercase(text: &str) -> (lower: String)
    ensures
        lower@ == lowercase_of(text@),
{
    text.to_lowercase()
}

/// The characters of `text`, in order.
pub fn chars_of(text: &str) -> (chars: Vec<char>)
    ensures
        chars@ == text@,
{
    let mut chars: Vec<char> = Vec::new();
    for c in it: text.chars()
        invariant
            chars@ == it.seq().take(it.index()),
            it.seq() == text@,
    {
        chars.push(c);
    }
    chars
}

fn matches_at(hay: &Vec<char>, needle: &Vec<char>, at: usize) -> (found: bool)
    requires
        at + needle.len() <= hay.len(),
    ensures
        found == occurs_at(hay@, needle@, at as int),
{
    let mut j: usize = 0;
    while j < needle.len()
        invariant
            j <= needle.len(),
            at + needle.len() <= hay.len(),
            forall|k: int| 0 <= k < j ==> hay@[at + k] == needle@[k],
        decreases needle.len() - j,
    {
        if hay[at + j] != needle[j] {
            assert(hay@.subrange(at as int, at + needle@.len())[j as int] == hay@[at + j]);
            return false;
        }
        j += 1;
    }
    assert(hay@.subrange(at as int, at + needle@.len()) =~= needle@);
    true
}

/// Whether `needle` stands somewhere in `hay`, both given by their characters.
pub fn contains_chars(hay: &Vec<char>, needle: &Vec<char>) -> (found: bool)
    ensures
        found == has_substring(hay@, needle@),
{
    if needle.len() > hay.len() {
        return false;
    }
    let last: usize = hay.len() - needle.len();
    let mut at: usize = 0;
    loop
        invariant
            at <= last,
            last == hay.len() - needle.len(),
            forall|k: int| 0 <= k < at ==> !occurs_at(hay@, needle@, k),
        decreases last - at,
    {
        if matches_at(hay, needle, at) {
            return true;
        }
        if at == last {
            return false;
        }
        at += 1;
    }
}

/// The position of the first `c` in `chars`, if there is one.
pub fn find_char(chars: &Vec<char>, c: char) -> (at: Option<usize>)
    ensures
        match at {
            Some(i) => i < chars.len() && chars@.index_of_first(c) == Some(i as int),
            None => chars@.index_of_first(c) is None,
        },
{
    let mut i: usize = 0;
    while i < chars.len()
        invariant
            i <= chars.len(),
            forall|k: int| 0 <= k < i ==> chars@[k] != c,
        decreases chars.len() - i,
    {
        if chars[i] == c {
            proof {
                chars@.index_of_first_ensures(c);
            }
            return Some(i);
        }
        i += 1;
    }
    proof {
        chars@.index_of_first_ensures(c);
    }
    None
}

/// `text` with its first `from` replaced by `to`.
pub fn replace_first_char(text: &str, from: char, to: &str) -> (out: String)
    ensures
        out@ == replace_first(text@, from, to@),
{
    let chars = chars_of(text);
    match find_char(&chars, from) {
        Some(at) => {
            let mut out = String::from_str(text.substring_char(0, at));
            out.append(to);
            out.append(text.substring_char(at + 1, chars.len()));
            assert(text@.subrange(0, at as int) == text@.take(at as int));
            assert(text@.subrange(at + 1, text@.len() as int) == text@.skip(at + 1));
            out
        },
        None => String::from_str(text),
    }
}

/// Whether `a` comes strictly before `b`, both given by their characters.
pub fn chars_less(a: &Vec<char>, b: &Vec<char>) -> (less: bool)
    ensures
        less == lex_less(a@, b@),
{
    let mut k: usize = 0;
    while k < a.len() && k < b.len()
        invariant
            k <= a.len(),
            k <= b.len(),
            a@.take(k as int) == b@.take(k as int),
        decreases a.len() - k,
    {
        let x: char = a[k];
        let y: char = b[k];
        if x < y {
            assert(differ_at(a@, b@, k as int));
            return true;
        }
        if y < x {
            assert(differ_at(b@, a@, k as int));
            proof {
                lemma_lex_less_asymmetric(b@, a@);
            }
            return false;
        }
        assert(a@[k as int] == b@[k as int]);
        assert(a@.take(k + 1) =~= a@.take(k as int).push(a@[k as int]));
        assert(b@.take(k + 1) =~= b@.take(k as int).push(b@[k as int]));
        k += 1;
    }
    if k < b.len() {
        assert(differ_at(a@, b@, k as int));
        true
    } else {
        assert(b@.take(k as int) =~= b@);
        assert forall|m: int| !differ_at(a@, b@, m) by {
            if differ_at(a@, b@, m) {
                assert(a@.take(m).len() == b@.take(m).len());
            }
        }
        false
    }
}

} // verus!
