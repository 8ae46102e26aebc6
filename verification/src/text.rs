//! Strings as sequences of characters: their lexical order, sorting and
//! shuffling of string lists, and a few string-building helpers.

use rand::seq::SliceRandom;
use vstd::prelude::*;
use vstd::relations::{sorted_by, total_ordering};
use vstd::seq_lib::lemma_sorted_unique;
use vstd::string::StringExecFns;

verus! {

/// The character sequences of a list of strings, in order.
pub open spec fn texts(v: Seq<String>) -> Seq<Seq<char>> {
    v.map_values(|s: String| s@)
}

/// Lexical order of two texts: character by character, by code point, a
/// proper prefix before its extensions.
pub open spec fn text_le(a: Seq<char>, b: Seq<char>) -> bool
    decreases a.len(),
{
    if a.len() == 0 {
        true
    } else if b.len() == 0 {
        false
    } else if a[0] != b[0] {
        (a[0] as int) < (b[0] as int)
    } else {
        text_le(a.skip(1), b.skip(1))
    }
}

/// `text_le` as a relation value, for the sequence library.
pub open spec fn text_order() -> spec_fn(Seq<char>, Seq<char>) -> bool {
    |a: Seq<char>, b: Seq<char>| text_le(a, b)
}

/// The reverse of `text_le`.
pub open spec fn text_order_rev() -> spec_fn(Seq<char>, Seq<char>) -> bool {
    |a: Seq<char>, b: Seq<char>| text_le(b, a)
}

/// The texts of `s` in ascending lexical order.
pub open spec fn ascending(s: Seq<Seq<char>>) -> Seq<Seq<char>> {
    s.sort_by(text_order())
}

/// The texts of `s` in descending lexical order.
pub open spec fn descending(s: Seq<Seq<char>>) -> Seq<Seq<char>> {
    ascending(s).reverse()
}

/// Every text is in order with itself.
pub proof fn lemma_text_le_reflexive(a: Seq<char>)
    ensures
        text_le(a, a),
    decreases a.len(),
{
    if a.len() > 0 {
        lemma_text_le_reflexive(a.skip(1));
    }
}

/// Two texts that are in order both ways are the same text.
pub proof fn lemma_text_le_antisymmetric(a: Seq<char>, b: Seq<char>)
    requires
        text_le(a, b),
        text_le(b, a),
    ensures
        a == b,
    decreases a.len(),
{
    if a.len() == 0 || b.len() == 0 {
        assert(a =~= b);
    } else {
        lemma_text_le_antisymmetric(a.skip(1), b.skip(1));
        assert(a =~= seq![a[0]] + a.skip(1));
        assert(b =~= seq![b[0]] + b.skip(1));
    }
}

/// Lexical order carries over a text in between.
pub proof fn lemma_text_le_transitive(a: Seq<char>, b: Seq<char>, c: Seq<char>)
    requires
        text_le(a, b),
        text_le(b, c),
    ensures
        text_le(a, c),
    decreases a.len(),
{
    if a.len() > 0 && b.len() > 0 && c.len() > 0 {
        if a[0] == b[0] && b[0] == c[0] {
            lemma_text_le_transitive(a.skip(1), b.skip(1), c.skip(1));
        }
    }
}

/// Any two texts are in order one way or the other.
pub proof fn lemma_text_le_connected(a: Seq<char>, b: Seq<char>)
    ensures
        text_le(a, b) || text_le(b, a),
    decreases a.len(),
{
    if a.len() > 0 && b.len() > 0 && a[0] == b[0] {
        lemma_text_le_connected(a.skip(1), b.skip(1));
    }
}

/// Lexical order is a total order on texts: reflexive, antisymmetric,
/// transitive, and any two texts are comparable.
pub proof fn lemma_text_order_total()
    ensures
        total_ordering(text_order()),
{
    let r = text_order();
    assert forall|x: Seq<char>| #[trigger] r(x, x) by {
        lemma_text_le_reflexive(x);
    }
    assert forall|x: Seq<char>, y: Seq<char>| #[trigger] r(x, y) && #[trigger] r(y, x) implies x
        == y by {
        lemma_text_le_antisymmetric(x, y);
    }
    assert forall|x: Seq<char>, y: Seq<char>, z: Seq<char>| #[trigger] r(x, y) && #[trigger] r(
        y,
        z,
    ) implies r(x, z) by {
        lemma_text_le_transitive(x, y, z);
    }
    assert forall|x: Seq<char>, y: Seq<char>| #[trigger] r(x, y) || #[trigger] r(y, x) by {
        lemma_text_le_connected(x, y);
    }
}

/// The reverse of lexical order is a total order on texts as well.
pub proof fn lemma_text_order_rev_total()
    ensures
        total_ordering(text_order_rev()),
{
    let r = text_order_rev();
    assert forall|x: Seq<char>| #[trigger] r(x, x) by {
        lemma_text_le_reflexive(x);
    }
    assert forall|x: Seq<char>, y: Seq<char>| #[trigger] r(x, y) && #[trigger] r(y, x) implies x
        == y by {
        lemma_text_le_antisymmetric(x, y);
    }
    assert forall|x: Seq<char>, y: Seq<char>, z: Seq<char>| #[trigger] r(x, y) && #[trigger] r(
        y,
        z,
    ) implies r(x, z) by {
        lemma_text_le_transitive(z, y, x);
    }
    assert forall|x: Seq<char>, y: Seq<char>| #[trigger] r(x, y) || #[trigger] r(y, x) by {
        lemma_text_le_connected(x, y);
    }
}

/// The ascending order of some texts holds the same texts, each as often,
/// and each of them stands before all that are greater.
pub proof fn lemma_ascending(s: Seq<Seq<char>>)
    ensures
        sorted_by(ascending(s), text_order()),
        ascending(s).to_multiset() == s.to_multiset(),
        ascending(s).len() == s.len(),
{
    lemma_text_order_total();
    s.lemma_sort_by_ensures(text_order());
    vstd::seq_lib::to_multiset_len(ascending(s));
    vstd::seq_lib::to_multiset_len(s);
}

/// The descending order of some texts holds the same texts, each as often,
/// and each of them stands before all that are less.
pub proof fn lemma_descending(s: Seq<Seq<char>>)
    ensures
        sorted_by(descending(s), text_order_rev()),
        descending(s).to_multiset() == s.to_multiset(),
        descending(s).len() == s.len(),
{
    lemma_ascending(s);
    let a = ascending(s);
    let d = descending(s);
    a.lemma_reverse_to_multiset();
    assert forall|i: int, j: int| 0 <= i < j < d.len() implies #[trigger] text_order_rev()(
        d[i],
        d[j],
    ) by {
        assert(text_order()(a[a.len() - 1 - j], a[a.len() - 1 - i]));
    }
}

/// `<[String]>::sort`: the strings are rearranged into ascending order, which
/// for strings is the lexical order of their characters by code point.
#[verifier::external_body]
fn sort_strings(v: &mut Vec<String>)
    ensures
        texts(final(v)@).to_multiset() == texts(old(v)@).to_multiset(),
        sorted_by(texts(final(v)@), text_order()),
{
    v.sort();
}

/// `rand::seq::SliceRandom::shuffle` with the thread's generator
/// (`rand::thread_rng`): the strings are rearranged by a series of swaps, so
/// the same strings are there afterwards, in an order that nothing is known
/// of. The generator is seeded by the system, and cannot be had on a machine
/// without a source of randomness.
#[verifier::external_body]
fn shuffle_strings(v: &mut Vec<String>)
    ensures
        texts(final(v)@).to_multiset() == texts(old(v)@).to_multiset(),
{
    let mut rng = rand::thread_rng();
    v.shuffle(&mut rng);
}

/// Sorts the strings into ascending lexical order.
pub fn sort_ascending(v: &mut Vec<String>)
    ensures
        texts(final(v)@) == ascending(texts(old(v)@)),
{
    sort_strings(v);
    proof {
        lemma_text_order_total();
        texts(old(v)@).lemma_sort_by_ensures(text_order());
        lemma_sorted_unique(texts(v@), ascending(texts(old(v)@)), text_order());
    }
}

/// Reverses the order of the strings.
pub fn reverse(v: &mut Vec<String>)
    ensures
        final(v)@ == old(v)@.reverse(),
{
    let ghost orig = v@;
    let mut out: Vec<String> = Vec::new();
    while v.len() > 0
        invariant
            v@ == orig.take(v@.len() as int),
            v@.len() <= orig.len(),
            out@.len() == orig.len() - v@.len(),
            forall|i: int| 0 <= i < out@.len() ==> out@[i] == orig[orig.len() - 1 - i],
        decreases v@.len(),
    {
        let x = v.pop().unwrap();
        out.push(x);
    }
    *v = out;
    assert(v@ =~= orig.reverse());
}

/// Sorts the strings into descending lexical order.
pub fn sort_descending(v: &mut Vec<String>)
    ensures
        texts(final(v)@) == descending(texts(old(v)@)),
{
    sort_ascending(v);
    let ghost sorted = v@;
    reverse(v);
    assert(texts(v@) =~= texts(sorted).reverse());
}

/// Rearranges the strings at random: the same texts, in some order.
pub fn shuffle(v: &mut Vec<String>)
    ensures
        texts(final(v)@).to_multiset() == texts(old(v)@).to_multiset(),
{
    shuffle_strings(v);
}

/// A copy of the string.
pub fn owned(s: &str) -> (r: String)
    ensures
        r@ == s@,
{
    String::from_str(s)
}

/// The two strings one after the other.
pub fn join(a: &str, b: &str) -> (r: String)
    ensures
        r@ == a@ + b@,
{
    let mut r = String::from_str(a);
    r.append(b);
    r
}

/// The three strings one after the other.
pub fn join3(a: &str, b: &str, c: &str) -> (r: String)
    ensures
        r@ == a@ + b@ + c@,
{
    let mut r = String::from_str(a);
    r.append(b);
    r.append(c);
    r
}

/// Whether two strings hold the same text.
pub fn same_text(a: &str, b: &str) -> (r: bool)
    ensures
        r == (a@ == b@),
{
    let x = String::from_str(a);
    let y = String::from_str(b);
    x == y
}

/// Whether one of the strings of `v` holds the text of `s`.
pub fn contains_text(v: &Vec<String>, s: &str) -> (r: bool)
    ensures
        r == texts(v@).contains(s@),
{
    index_of_text(v, s).is_some()
}

/// Whether `i` is the first place of `name` in `names`.
pub open spec fn is_first_index(names: Seq<Seq<char>>, name: Seq<char>, i: int) -> bool {
    &&& 0 <= i < names.len()
    &&& names[i] == name
    &&& forall|j: int| 0 <= j < i ==> names[j] != name
}

/// The first place of `name` in `names`, if it is there.
pub open spec fn first_index_of(names: Seq<Seq<char>>, name: Seq<char>) -> Option<int> {
    if exists|i: int| is_first_index(names, name, i) {
        Some(choose|i: int| is_first_index(names, name, i))
    } else {
        None
    }
}

/// The first place of a name is the only place that is a first place, and a
/// name that is nowhere has none.
pub proof fn lemma_first_index_of(names: Seq<Seq<char>>, name: Seq<char>)
    ensures
        forall|i: int| is_first_index(names, name, i) ==> first_index_of(names, name) == Some(i),
        !names.contains(name) ==> first_index_of(names, name) is None,
        first_index_of(names, name) matches Some(i) ==> is_first_index(names, name, i),
        first_index_of(names, name) is Some <==> names.contains(name),
{
    assert forall|i: int| is_first_index(names, name, i) implies first_index_of(names, name)
        == Some(i) by {
        let c = choose|c: int| is_first_index(names, name, c);
        assert(is_first_index(names, name, c));
        if c < i {
            assert(names[c] != name);
        }
        if i < c {
            assert(names[i] != name);
        }
    }
    if names.contains(name) {
        lemma_first_place(names, name, names.len() as int);
    }
}

/// A name that occurs before place `n` has a first place.
proof fn lemma_first_place(names: Seq<Seq<char>>, name: Seq<char>, n: int)
    requires
        0 <= n <= names.len(),
        exists|i: int| 0 <= i < n && names[i] == name,
    ensures
        exists|i: int| is_first_index(names, name, i),
    decreases n,
{
    if exists|i: int| 0 <= i < n - 1 && names[i] == name {
        lemma_first_place(names, name, n - 1);
    } else {
        assert(names[n - 1] == name);
        assert(is_first_index(names, name, n - 1));
    }
}

/// The first place in `v` of a string that holds the text of `s`.
pub fn index_of_text(v: &Vec<String>, s: &str) -> (r: Option<usize>)
    ensures
        r is None <==> !texts(v@).contains(s@),
        r matches Some(i) ==> i < v@.len() && v@[i as int]@ == s@ && forall|j: int|
            0 <= j < i ==> texts(v@)[j] != s@,
        match r {
            Some(i) => first_index_of(texts(v@), s@) == Some(i as int),
            None => first_index_of(texts(v@), s@) is None,
        },
{
    proof {
        lemma_first_index_of(texts(v@), s@);
    }
    let mut i: usize = 0;
    while i < v.len()
        invariant
            i <= v@.len(),
            forall|j: int| 0 <= j < i ==> texts(v@)[j] != s@,
        decreases v@.len() - i,
    {
        if same_text(v[i].as_str(), s) {
            assert(texts(v@)[i as int] == s@);
            assert(is_first_index(texts(v@), s@, i as int));
            return Some(i);
        }
        i += 1;
    }
    None
}

/// A copy of each string of the list.
pub fn clone_texts(v: &Vec<String>) -> (r: Vec<String>)
    ensures
        texts(r@) == texts(v@),
{
    let mut out: Vec<String> = Vec::new();
    let mut i: usize = 0;
    while i < v.len()
        invariant
            i <= v@.len(),
            texts(out@) == texts(v@).take(i as int),
        decreases v@.len() - i,
    {
        let ghost o = out@;
        out.push(v[i].clone());
        assert(texts(out@) =~= texts(o).push(v@[i as int]@));
        i += 1;
        assert(texts(out@) =~= texts(v@).take(i as int));
    }
    assert(texts(out@) =~= texts(v@));
    out
}

/// Whether the two lists hold the same texts in the same order.
pub fn same_texts(a: &Vec<String>, b: &Vec<String>) -> (r: bool)
    ensures
        r == (texts(a@) == texts(b@)),
{
    if a.len() != b.len() {
        assert(texts(a@).len() != texts(b@).len());
        return false;
    }
    let mut i: usize = 0;
    while i < a.len()
        invariant
            i <= a@.len(),
            a@.len() == b@.len(),
            forall|j: int| 0 <= j < i ==> texts(a@)[j] == texts(b@)[j],
        decreases a@.len() - i,
    {
        if !same_text(a[i].as_str(), b[i].as_str()) {
            assert(texts(a@)[i as int] != texts(b@)[i as int]);
            return false;
        }
        i += 1;
    }
    assert(texts(a@) =~= texts(b@));
    true
}

/// The text of one decimal digit.
pub open spec fn digit_text(d: nat) -> Seq<char> {
    if d == 0 {
        "0"@
    } else if d == 1 {
        "1"@
    } else if d == 2 {
        "2"@
    } else if d == 3 {
        "3"@
    } else if d == 4 {
        "4"@
    } else if d == 5 {
        "5"@
    } else if d == 6 {
        "6"@
    } else if d == 7 {
        "7"@
    } else if d == 8 {
        "8"@
    } else {
        "9"@
    }
}

/// The decimal numeral of `n`, without leading zeros.
pub open spec fn decimal_text(n: nat) -> Seq<char>
    decreases n,
{
    if n < 10 {
        digit_text(n)
    } else {
        decimal_text(n / 10) + digit_text(n % 10)
    }
}

/// The decimal numeral of an integer, with a minus sign if it is negative.
pub open spec fn signed_decimal_text(i: int) -> Seq<char> {
    if i < 0 {
        "-"@ + decimal_text((-i) as nat)
    } else {
        decimal_text(i as nat)
    }
}

fn digit(d: u64) -> (r: &'static str)
    requires
        d < 10,
    ensures
        r@ == digit_text(d as nat),
{
    if d == 0 {
        "0"
    } else if d == 1 {
        "1"
    } else if d == 2 {
        "2"
    } else if d == 3 {
        "3"
    } else if d == 4 {
        "4"
    } else if d == 5 {
        "5"
    } else if d == 6 {
        "6"
    } else if d == 7 {
        "7"
    } else if d == 8 {
        "8"
    } else {
        "9"
    }
}

/// The decimal numeral of `n`.
pub fn decimal(n: u64) -> (r: String)
    ensures
        r@ == decimal_text(n as nat),
    decreases n,
{
    if n < 10 {
        String::from_str(digit(n))
    } else {
        let mut r = decimal(n / 10);
        r.append(digit(n % 10));
        r
    }
}

/// The decimal numeral of `n`, for a number of any size that the machine
/// holds.
pub fn decimal_wide(n: u128) -> (r: String)
    ensures
        r@ == decimal_text(n as nat),
    decreases n,
{
    if n < 10 {
        String::from_str(digit(n as u64))
    } else {
        let mut r = decimal_wide(n / 10);
        r.append(digit((n % 10) as u64));
        r
    }
}

/// The decimal numeral of `i`, with a minus sign if it is negative.
pub fn signed_decimal(i: i64) -> (r: String)
    ensures
        r@ == signed_decimal_text(i as int),
{
    if i < 0 {
        let magnitude: u64 = if i == i64::MIN {
            9223372036854775808u64
        } else {
            (-i) as u64
        };
        let digits = decimal(magnitude);
        join("-", digits.as_str())
    } else {
        decimal(i as u64)
    }
}

/// What `{:?}` prints for a string: the text in double quotes, with the
/// characters escaped that Rust escapes there.
pub uninterp spec fn debug_text(s: Seq<char>) -> Seq<char>;

/// `format!("{:?}", s)` for a string: its quoted, escaped form.
#[verifier::external_body]
pub(crate) fn quoted(s: &str) -> (r: String)
    ensures
        r@ == debug_text(s@),
{
    format!("{:?}", s)
}

} // verus!
