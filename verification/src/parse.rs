//! Scanning of texts: finding a character, trimming white space, and taking
//! a text apart line by line.

use crate::text::{owned, texts};
use vstd::prelude::*;
use vstd::string::StrSliceExecFns;

verus! {

/// Whether the character is white space, as Unicode defines it.
pub open spec fn is_space(c: char) -> bool {
    let u = c as u32;
    (9 <= u <= 13) || u == 32 || u == 0x85 || u == 0xA0 || u == 0x1680 || (0x2000 <= u
        <= 0x200A) || u == 0x2028 || u == 0x2029 || u == 0x202F || u == 0x205F || u == 0x3000
}

/// Whether the character is white space, as Unicode defines it.
pub fn is_space_char(c: char) -> (r: bool)
    ensures
        r == is_space(c),
{
    let u = c as u32;
    (9 <= u && u <= 13) || u == 32 || u == 0x85 || u == 0xA0 || u == 0x1680 || (0x2000 <= u && u
        <= 0x200A) || u == 0x2028 || u == 0x2029 || u == 0x202F || u == 0x205F || u == 0x3000
}

/// The place of the first `c` in `s`, or the length of `s` if there is
/// none.
pub open spec fn find(s: Seq<char>, c: char) -> int
    decreases s.len(),
{
    if s.len() == 0 {
        0
    } else if s[0] == c {
        0
    } else {
        1 + find(s.skip(1), c)
    }
}

/// `find` gives a place within the text or its length, no `c` stands before
/// that place, and a `c` stands at it if it is within the text.
pub proof fn lemma_find(s: Seq<char>, c: char)
    ensures
        0 <= find(s, c) <= s.len(),
        forall|i: int| 0 <= i < find(s, c) ==> s[i] != c,
        find(s, c) < s.len() ==> s[find(s, c)] == c,
    decreases s.len(),
{
    if s.len() > 0 && s[0] != c {
        lemma_find(s.skip(1), c);
        assert forall|i: int| 0 <= i < find(s, c) implies s[i] != c by {
            if i > 0 {
                assert(s.skip(1)[i - 1] == s[i]);
            }
        }
    }
}

/// A place with the properties that `lemma_find` states is the place that
/// `find` gives.
pub proof fn lemma_find_is(s: Seq<char>, c: char, p: int)
    requires
        0 <= p <= s.len(),
        forall|i: int| 0 <= i < p ==> s[i] != c,
        p < s.len() ==> s[p] == c,
    ensures
        find(s, c) == p,
{
    lemma_find(s, c);
    let f = find(s, c);
    if f < p {
        assert(s[f] != c);
    }
    if p < f {
        assert(s[p] != c);
    }
}

/// The first place of `c` in `s` at or after `from`, or the length of `s`
/// if there is none.
pub fn find_char(s: &str, from: usize, c: char) -> (r: usize)
    requires
        from <= s@.len(),
    ensures
        r == from + find(s@.skip(from as int), c),
        from <= r <= s@.len(),
{
    let n = s.unicode_len();
    let mut i = from;
    while i < n && s.get_char(i) != c
        invariant
            from <= i <= n,
            n == s@.len(),
            forall|k: int| from <= k < i ==> s@[k] != c,
        decreases n - i,
    {
        i += 1;
    }
    proof {
        lemma_find_is(s@.skip(from as int), c, i - from);
    }
    i
}

/// The text without the white space at its start.
pub open spec fn trim_start(s: Seq<char>) -> Seq<char>
    decreases s.len(),
{
    if s.len() > 0 && is_space(s[0]) {
        trim_start(s.skip(1))
    } else {
        s
    }
}

/// The text without the white space at its end.
pub open spec fn trim_end(s: Seq<char>) -> Seq<char>
    decreases s.len(),
{
    if s.len() > 0 && is_space(s.last()) {
        trim_end(s.drop_last())
    } else {
        s
    }
}

/// The text without the white space at its start and at its end.
pub open spec fn trimmed(s: Seq<char>) -> Seq<char> {
    trim_end(trim_start(s))
}

/// Leading white space up to place `a` is what `trim_start` takes off.
pub proof fn lemma_trim_start(s: Seq<char>, a: int)
    requires
        0 <= a <= s.len(),
        forall|i: int| 0 <= i < a ==> is_space(s[i]),
        a < s.len() ==> !is_space(s[a]),
    ensures
        trim_start(s) == s.skip(a),
    decreases a,
{
    if a > 0 {
        lemma_trim_start(s.skip(1), a - 1);
        assert(s.skip(1).skip(a - 1) =~= s.skip(a));
    } else {
        assert(s.skip(0) =~= s);
    }
}

/// Trailing white space from place `b` on is what `trim_end` takes off.
pub proof fn lemma_trim_end(s: Seq<char>, b: int)
    requires
        0 <= b <= s.len(),
        forall|i: int| b <= i < s.len() ==> is_space(s[i]),
        b > 0 ==> !is_space(s[b - 1]),
    ensures
        trim_end(s) == s.take(b),
    decreases s.len() - b,
{
    if b < s.len() {
        lemma_trim_end(s.drop_last(), b);
        assert(s.drop_last().take(b) =~= s.take(b));
    } else {
        assert(s.take(b) =~= s);
    }
}

/// The part of `s` from `from` to `to` without the white space at its start
/// and at its end.
pub fn trim_range(s: &str, from: usize, to: usize) -> (r: String)
    requires
        from <= to <= s@.len(),
    ensures
        r@ == trimmed(s@.subrange(from as int, to as int)),
{
    let ghost part = s@.subrange(from as int, to as int);
    let mut a = from;
    while a < to && is_space_char(s.get_char(a))
        invariant
            from <= a <= to,
            to <= s@.len(),
            forall|k: int| from <= k < a ==> is_space(s@[k]),
        decreases to - a,
    {
        a += 1;
    }
    let mut b = to;
    while b > a && is_space_char(s.get_char(b - 1))
        invariant
            a <= b <= to,
            to <= s@.len(),
            forall|k: int| b <= k < to ==> is_space(s@[k]),
        decreases b,
    {
        b -= 1;
    }
    proof {
        lemma_trim_start(part, a - from);
        let rest = part.skip(a - from);
        assert(rest =~= s@.subrange(a as int, to as int));
        lemma_trim_end(rest, b - a);
        assert(rest.take(b - a) =~= s@.subrange(a as int, b as int));
    }
    owned(s.substring_char(a, b))
}

/// How the name of an output is read from a line of what the wallpaper tool
/// prints.
#[derive(Debug, Clone, Copy, PartialEq, Eq, Structural)]
pub enum LineRule {
    /// The name is what stands before the first colon.
    BeforeColon,
    /// The line begins with a colon and a blank, and the name is what stands
    /// between that colon and the next.
    AfterColon,
}

/// The name that a line holds by the rule: the named part of the line
/// without the white space around it, if the line has that part and it is
/// not empty.
pub open spec fn line_name(rule: LineRule, line: Seq<char>) -> Option<Seq<char>> {
    match rule {
        LineRule::BeforeColon => {
            let c = find(line, ':');
            if c < line.len() && trimmed(line.take(c)).len() > 0 {
                Some(trimmed(line.take(c)))
            } else {
                None
            }
        },
        LineRule::AfterColon => {
            if line.len() >= 2 && line[0] == ':' && line[1] == ' ' {
                let rest = line.skip(1);
                let name = trimmed(rest.take(find(rest, ':')));
                if name.len() > 0 {
                    Some(name)
                } else {
                    None
                }
            } else {
                None
            }
        },
    }
}

/// The names that the lines of a text hold by the rule, in the order of the
/// lines. A line ends at a line feed or at the end of the text.
pub open spec fn line_names(rule: LineRule, s: Seq<char>) -> Seq<Seq<char>>
    decreases s.len(),
{
    if s.len() == 0 {
        Seq::empty()
    } else {
        let p = find(s, '\n');
        let rest = if 0 <= p < s.len() {
            s.skip(p + 1)
        } else {
            Seq::empty()
        };
        let line = if 0 <= p <= s.len() {
            s.take(p)
        } else {
            s
        };
        match line_name(rule, line) {
            Some(name) => seq![name] + line_names(rule, rest),
            None => line_names(rule, rest),
        }
    }
}

/// The name that the line from `from` to `to` holds by the rule.
pub fn read_line_name(rule: LineRule, s: &str, from: usize, to: usize) -> (r: Option<String>)
    requires
        from <= to <= s@.len(),
    ensures
        match line_name(rule, s@.subrange(from as int, to as int)) {
            Some(name) => r matches Some(n) && n@ == name,
            None => r is None,
        },
{
    let ghost line = s@.subrange(from as int, to as int);
    match rule {
        LineRule::BeforeColon => {
            let c = scan(s, from, to, ':');
            if c < to {
                assert(line.take(c - from) =~= s@.subrange(from as int, c as int));
                let name = trim_range(s, from, c);
                if name.as_str().unicode_len() > 0 {
                    Some(name)
                } else {
                    None
                }
            } else {
                None
            }
        },
        LineRule::AfterColon => {
            if to - from >= 2 && s.get_char(from) == ':' && s.get_char(from + 1) == ' ' {
                let ghost rest = line.skip(1);
                assert(rest =~= s@.subrange(from + 1, to as int));
                let c = scan(s, from + 1, to, ':');
                assert(rest.take(c - (from + 1)) =~= s@.subrange(from + 1, c as int));
                let name = trim_range(s, from + 1, c);
                if name.as_str().unicode_len() > 0 {
                    Some(name)
                } else {
                    None
                }
            } else {
                None
            }
        },
    }
}

/// The first place of `c` in `s` from `from` up to `to`, or `to` if there
/// is none.
pub fn scan(s: &str, from: usize, to: usize, c: char) -> (r: usize)
    requires
        from <= to <= s@.len(),
    ensures
        r == from + find(s@.subrange(from as int, to as int), c),
        from <= r <= to,
{
    let mut i = from;
    while i < to && s.get_char(i) != c
        invariant
            from <= i <= to,
            to <= s@.len(),
            forall|k: int| from <= k < i ==> s@[k] != c,
        decreases to - i,
    {
        i += 1;
    }
    proof {
        lemma_find_is(s@.subrange(from as int, to as int), c, i - from);
    }
    i
}

/// The names that the lines of a text hold by the rule, in the order of the
/// lines.
pub fn read_line_names(rule: LineRule, s: &str) -> (r: Vec<String>)
    ensures
        texts(r@) == line_names(rule, s@),
{
    let n = s.unicode_len();
    let mut names: Vec<String> = Vec::new();
    let mut pos: usize = 0;
    assert(s@.skip(0) =~= s@);
    assert(texts(names@) =~= Seq::empty());
    while pos < n
        invariant
            pos <= n,
            n == s@.len(),
            texts(names@) + line_names(rule, s@.skip(pos as int)) == line_names(rule, s@),
        decreases n - pos,
    {
        let ghost sub = s@.skip(pos as int);
        let ghost before = names@;
        let end = find_char(s, pos, '\n');
        proof {
            lemma_find(sub, '\n');
            assert(sub.take(end - pos) =~= s@.subrange(pos as int, end as int));
        }
        match read_line_name(rule, s, pos, end) {
            Some(name) => {
                names.push(name);
                assert(texts(names@) =~= texts(before) + seq![name@]);
            },
            None => {},
        }
        let next = if end < n {
            end + 1
        } else {
            n
        };
        proof {
            if end < n {
                assert(sub.skip(end - pos + 1) =~= s@.skip(next as int));
            } else {
                assert(s@.skip(n as int) =~= Seq::empty());
            }
        }
        pos = next;
    }
    assert(s@.skip(n as int) =~= Seq::empty());
    names
}

/// Whether `pat` stands in `s` at place `i`.
pub open spec fn occurs_at(s: Seq<char>, pat: Seq<char>, i: int) -> bool {
    0 <= i && i + pat.len() <= s.len() && s.subrange(i, i + pat.len()) == pat
}

/// Whether `pat` stands somewhere in `s`.
pub open spec fn has_infix(s: Seq<char>, pat: Seq<char>) -> bool {
    exists|i: int| occurs_at(s, pat, i)
}

/// The first line of `s` in which `pat` stands, if there is one. A line
/// ends at a line feed or at the end of the text.
pub open spec fn first_line_with(s: Seq<char>, pat: Seq<char>) -> Option<Seq<char>>
    decreases s.len(),
{
    if s.len() == 0 {
        None
    } else {
        let p = find(s, '\n');
        let rest = if 0 <= p < s.len() {
            s.skip(p + 1)
        } else {
            Seq::empty()
        };
        let line = if 0 <= p <= s.len() {
            s.take(p)
        } else {
            s
        };
        if has_infix(line, pat) {
            Some(line)
        } else {
            first_line_with(rest, pat)
        }
    }
}

/// Whether `pat` stands in `s` at place `at`, within the part of `s` that
/// ends at `to`.
pub fn stands_at(s: &str, to: usize, at: usize, pat: &str) -> (r: bool)
    requires
        at <= to <= s@.len(),
    ensures
        r == (at + pat@.len() <= to && s@.subrange(at as int, at + pat@.len()) == pat@),
{
    let m = pat.unicode_len();
    if m > to - at {
        return false;
    }
    let mut k: usize = 0;
    while k < m
        invariant
            k <= m,
            m == pat@.len(),
            at + m <= to,
            to <= s@.len(),
            forall|j: int| 0 <= j < k ==> s@[at + j] == pat@[j],
        decreases m - k,
    {
        if s.get_char(at + k) != pat.get_char(k) {
            assert(s@.subrange(at as int, at + m)[k as int] != pat@[k as int]);
            return false;
        }
        k += 1;
    }
    assert(s@.subrange(at as int, at + m) =~= pat@);
    true
}

/// Whether `pat` stands somewhere in the part of `s` from `from` to `to`.
pub fn range_contains(s: &str, from: usize, to: usize, pat: &str) -> (r: bool)
    requires
        from <= to <= s@.len(),
    ensures
        r == has_infix(s@.subrange(from as int, to as int), pat@),
{
    let ghost part = s@.subrange(from as int, to as int);
    let mut at = from;
    while at < to
        invariant
            from <= at <= to,
            to <= s@.len(),
            part == s@.subrange(from as int, to as int),
            forall|i: int| 0 <= i < at - from ==> !occurs_at(part, pat@, i),
        decreases to - at,
    {
        proof {
            if at + pat@.len() <= to {
                assert(part.subrange(at - from, at - from + pat@.len()) =~= s@.subrange(
                    at as int,
                    at + pat@.len(),
                ));
            }
        }
        if stands_at(s, to, at, pat) {
            assert(occurs_at(part, pat@, at - from));
            return true;
        }
        assert(!occurs_at(part, pat@, at - from));
        at += 1;
    }
    proof {
        if to + pat@.len() <= to {
            assert(part.subrange(to - from, to - from + pat@.len()) =~= s@.subrange(
                to as int,
                to + pat@.len(),
            ));
        }
    }
    if stands_at(s, to, to, pat) {
        assert(occurs_at(part, pat@, to - from));
        return true;
    }
    assert(!occurs_at(part, pat@, to - from));
    assert(!has_infix(part, pat@)) by {
        if has_infix(part, pat@) {
            let i = choose|i: int| occurs_at(part, pat@, i);
            assert(!occurs_at(part, pat@, i));
        }
    }
    false
}

/// The bounds of the first line of `s` in which `pat` stands.
pub fn find_line_with(s: &str, pat: &str) -> (r: Option<(usize, usize)>)
    ensures
        match r {
            Some((from, to)) => from <= to <= s@.len() && first_line_with(s@, pat@) == Some(
                s@.subrange(from as int, to as int),
            ),
            None => first_line_with(s@, pat@) is None,
        },
{
    let n = s.unicode_len();
    let mut pos: usize = 0;
    assert(s@.skip(0) =~= s@);
    while pos < n
        invariant
            pos <= n,
            n == s@.len(),
            first_line_with(s@.skip(pos as int), pat@) == first_line_with(s@, pat@),
        decreases n - pos,
    {
        let ghost sub = s@.skip(pos as int);
        let end = find_char(s, pos, '\n');
        proof {
            lemma_find(sub, '\n');
            assert(sub.take(end - pos) =~= s@.subrange(pos as int, end as int));
        }
        if range_contains(s, pos, end, pat) {
            return Some((pos, end));
        }
        let next = if end < n {
            end + 1
        } else {
            n
        };
        proof {
            if end < n {
                assert(sub.skip(end - pos + 1) =~= s@.skip(next as int));
            } else {
                assert(s@.skip(n as int) =~= Seq::empty());
            }
        }
        pos = next;
    }
    assert(s@.skip(n as int) =~= Seq::empty());
    None
}

} // verus!
