//! Strings as sequences of characters: trimming, lines, prefixes, search,
//! ordering and decimal numbers.

use vstd::prelude::*;

verus! {

/// `String::push`: the character is appended to the end of the string.
pub assume_specification[ String::push ](s: &mut String, c: char)
    ensures
        final(s)@ == old(s)@.push(c),
;

// Characters ------------------------------------------------------------------

/// The Unicode `White_Space` property, which `char::is_whitespace` tests.
pub open spec fn spec_is_white_space(c: char) -> bool {
    ||| 0x09 <= c as u32 <= 0x0d
    ||| c as u32 == 0x20
    ||| c as u32 == 0x85
    ||| c as u32 == 0xa0
    ||| c as u32 == 0x1680
    ||| 0x2000 <= c as u32 <= 0x200a
    ||| c as u32 == 0x2028
    ||| c as u32 == 0x2029
    ||| c as u32 == 0x202f
    ||| c as u32 == 0x205f
    ||| c as u32 == 0x3000
}

/// Whether `c` is white space.
pub fn is_white_space(c: char) -> (white: bool)
    ensures
        white == spec_is_white_space(c),
{
    let u: u32 = c as u32;
    (0x09 <= u && u <= 0x0d) || u == 0x20 || u == 0x85 || u == 0xa0 || u == 0x1680 || (0x2000 <= u
        && u <= 0x200a) || u == 0x2028 || u == 0x2029 || u == 0x202f || u == 0x205f || u == 0x3000
}

/// A printable ASCII character other than the space.
pub open spec fn spec_is_graphic(c: char) -> bool {
    '!' <= c <= '~'
}

/// Whether `c` is a printable ASCII character other than the space.
pub fn is_graphic(c: char) -> (graphic: bool)
    ensures
        graphic == spec_is_graphic(c),
{
    '!' <= c && c <= '~'
}

/// An ASCII letter or digit.
pub open spec fn spec_is_alphanumeric(c: char) -> bool {
    ('0' <= c <= '9') || ('A' <= c <= 'Z') || ('a' <= c <= 'z')
}

/// Whether `c` is an ASCII letter or digit.
pub fn is_alphanumeric(c: char) -> (alphanumeric: bool)
    ensures
        alphanumeric == spec_is_alphanumeric(c),
{
    ('0' <= c && c <= '9') || ('A' <= c && c <= 'Z') || ('a' <= c && c <= 'z')
}

/// The code point of `c` with the upper-case ASCII letters mapped onto the
/// lower-case ones.
pub open spec fn spec_fold_case(c: char) -> int {
    if 'A' <= c <= 'Z' {
        c as int + 32
    } else {
        c as int
    }
}

fn fold_case(c: char) -> (folded: u32)
    ensures
        folded == spec_fold_case(c),
{
    if 'A' <= c && c <= 'Z' {
        c as u32 + 32
    } else {
        c as u32
    }
}

// Strings and vectors of characters -------------------------------------------

/// The characters of a string, in order.
pub fn chars_of(s: &str) -> (chars: Vec<char>)
    ensures
        chars@ == s@,
{
    let mut chars: Vec<char> = Vec::new();
    for c in it: s.chars()
        invariant
            chars@ == it.seq().take(it.index() as int),
            it.seq() == s@,
    {
        chars.push(c);
    }
    chars
}

/// The string made of the characters `from..to` of `chars`.
pub fn string_of(chars: &Vec<char>, from: usize, to: usize) -> (s: String)
    requires
        from <= to <= chars@.len(),
    ensures
        s@ == chars@.subrange(from as int, to as int),
{
    let mut s = String::new();
    let mut i: usize = from;
    while i < to
        invariant
            from <= i <= to <= chars@.len(),
            s@ == chars@.subrange(from as int, i as int),
        decreases to - i,
    {
        s.push(chars[i]);
        i = i + 1;
    }
    s
}

/// Whether two strings hold the same characters.
pub fn str_eq(a: &str, b: &str) -> (same: bool)
    ensures
        same == (a@ == b@),
{
    let left: Vec<char> = chars_of(a);
    let right: Vec<char> = chars_of(b);
    if left.len() != right.len() {
        return false;
    }
    let mut i: usize = 0;
    while i < left.len()
        invariant
            i <= left@.len() == right@.len(),
            left@ == a@,
            right@ == b@,
            left@.take(i as int) == right@.take(i as int),
        decreases left@.len() - i,
    {
        if left[i] != right[i] {
            return false;
        }
        assert(left@.take(i + 1) == left@.take(i as int).push(left@[i as int]));
        assert(right@.take(i + 1) == right@.take(i as int).push(right@[i as int]));
        i = i + 1;
    }
    assert(left@.take(i as int) == left@ && right@.take(i as int) == right@);
    true
}

/// `a` and `b` are the same but for the case of ASCII letters.
pub open spec fn same_but_case(a: Seq<char>, b: Seq<char>) -> bool {
    &&& a.len() == b.len()
    &&& forall|i: int| 0 <= i < a.len() ==> spec_fold_case(#[trigger] a[i]) == spec_fold_case(b[i])
}

/// Whether two strings are the same but for the case of ASCII letters.
pub fn eq_ignore_case(a: &str, b: &str) -> (same: bool)
    ensures
        same == same_but_case(a@, b@),
{
    let left: Vec<char> = chars_of(a);
    let right: Vec<char> = chars_of(b);
    if left.len() != right.len() {
        return false;
    }
    let mut i: usize = 0;
    while i < left.len()
        invariant
            i <= left@.len() == right@.len(),
            left@ == a@,
            right@ == b@,
            forall|j: int|
                0 <= j < i ==> spec_fold_case(#[trigger] left@[j]) == spec_fold_case(right@[j]),
        decreases left@.len() - i,
    {
        if fold_case(left[i]) != fold_case(right[i]) {
            return false;
        }
        i = i + 1;
    }
    true
}

// Trimming --------------------------------------------------------------------

/// `s` without its leading white space.
pub open spec fn trimmed_start(s: Seq<char>) -> Seq<char>
    decreases s.len(),
{
    if s.len() > 0 && spec_is_white_space(s[0]) {
        trimmed_start(s.drop_first())
    } else {
        s
    }
}

/// `s` without its trailing white space.
pub open spec fn trimmed_end(s: Seq<char>) -> Seq<char>
    decreases s.len(),
{
    if s.len() > 0 && spec_is_white_space(s.last()) {
        trimmed_end(s.drop_last())
    } else {
        s
    }
}

/// `s` without its leading and trailing white space.
pub open spec fn trimmed(s: Seq<char>) -> Seq<char> {
    trimmed_end(trimmed_start(s))
}

/// The first position that holds no white space.
fn skip_white(chars: &Vec<char>) -> (start: usize)
    ensures
        start <= chars@.len(),
        trimmed_start(chars@) == chars@.skip(start as int),
{
    let mut i: usize = 0;
    assert(chars@.skip(0) == chars@);
    while i < chars.len() && is_white_space(chars[i])
        invariant
            i <= chars@.len(),
            trimmed_start(chars@) == trimmed_start(chars@.skip(i as int)),
        decreases chars@.len() - i,
    {
        assert(chars@.skip(i as int).drop_first() == chars@.skip(i + 1));
        i = i + 1;
    }
    i
}

/// `s` without its leading white space.
pub fn trim_start(s: &str) -> (t: String)
    ensures
        t@ == trimmed_start(s@),
{
    let chars: Vec<char> = chars_of(s);
    let start: usize = skip_white(&chars);
    string_of(&chars, start, chars.len())
}

/// `s` without its leading and trailing white space.
pub fn trim(s: &str) -> (t: String)
    ensures
        t@ == trimmed(s@),
{
    let chars: Vec<char> = chars_of(s);
    let start: usize = skip_white(&chars);
    let mut end: usize = chars.len();
    assert(chars@.subrange(start as int, end as int) == chars@.skip(start as int));
    while start < end && is_white_space(chars[end - 1])
        invariant
            start <= end <= chars@.len(),
            trimmed(s@) == trimmed_end(chars@.subrange(start as int, end as int)),
        decreases end,
    {
        assert(chars@.subrange(start as int, end as int).drop_last() == chars@.subrange(
            start as int,
            end - 1,
        ));
        end = end - 1;
    }
    string_of(&chars, start, end)
}

/// A sequence that neither starts nor ends with white space is its own
/// trimmed form.
pub proof fn lemma_trimmed_id(s: Seq<char>)
    requires
        s.len() > 0 ==> !spec_is_white_space(s[0]) && !spec_is_white_space(s.last()),
    ensures
        trimmed(s) == s,
{
}

/// What trimming leaves neither starts nor ends with white space.
pub proof fn lemma_trimmed_ends(s: Seq<char>)
    ensures
        trimmed(s).len() > 0 ==> !spec_is_white_space(trimmed(s)[0]) && !spec_is_white_space(
            trimmed(s).last(),
        ),
{
    lemma_trimmed_start_ends(s);
    lemma_trimmed_end_ends(trimmed_start(s));
}

proof fn lemma_trimmed_start_ends(s: Seq<char>)
    ensures
        trimmed_start(s).len() > 0 ==> !spec_is_white_space(trimmed_start(s)[0]),
    decreases s.len(),
{
    if s.len() > 0 && spec_is_white_space(s[0]) {
        lemma_trimmed_start_ends(s.drop_first());
    }
}

proof fn lemma_trimmed_end_ends(s: Seq<char>)
    ensures
        trimmed_end(s).len() <= s.len(),
        trimmed_end(s) == s.take(trimmed_end(s).len() as int),
        trimmed_end(s).len() > 0 ==> !spec_is_white_space(trimmed_end(s).last()),
    decreases s.len(),
{
    if s.len() > 0 && spec_is_white_space(s.last()) {
        let t = s.drop_last();
        lemma_trimmed_end_ends(t);
        assert(t.take(trimmed_end(t).len() as int) == s.take(trimmed_end(t).len() as int));
    } else {
        assert(s.take(s.len() as int) == s);
    }
}

// Lines -----------------------------------------------------------------------

/// `line` without one trailing carriage return.
pub open spec fn without_return(line: Seq<char>) -> Seq<char> {
    if line.len() > 0 && line.last() == '\r' {
        line.drop_last()
    } else {
        line
    }
}

/// The position of the first line feed, or the length where there is none.
pub open spec fn first_feed(s: Seq<char>) -> int
    decreases s.len(),
{
    if s.len() == 0 || s[0] == '\n' {
        0
    } else {
        1 + first_feed(s.drop_first())
    }
}

/// The lines of a text, in order. A line ends at a line feed, which may follow
/// a carriage return; neither is part of the line. What follows the last line
/// feed is a line of its own unless it is empty.
pub open spec fn lines_of(s: Seq<char>) -> Seq<Seq<char>>
    decreases s.len(),
{
    let i = first_feed(s);
    if s.len() == 0 {
        Seq::empty()
    } else if 0 <= i < s.len() {
        seq![without_return(s.take(i))] + lines_of(s.skip(i + 1))
    } else {
        seq![s]
    }
}

/// The contents of a sequence of strings.
pub open spec fn texts(strings: Seq<String>) -> Seq<Seq<char>> {
    Seq::new(strings.len(), |i: int| strings[i]@)
}

/// The lines of a text, in order.
pub fn lines(s: &str) -> (lines: Vec<String>)
    ensures
        texts(lines@) == lines_of(s@),
{
    let chars: Vec<char> = chars_of(s);
    let mut lines: Vec<String> = Vec::new();
    let mut start: usize = 0;
    let mut i: usize = 0;
    assert(chars@.skip(0) == s@);
    assert(texts(lines@) + lines_of(s@) == lines_of(s@));
    while i < chars.len()
        invariant
            start <= i <= chars@.len(),
            chars@ == s@,
            first_feed(s@.skip(start as int)) == i - start + first_feed(s@.skip(i as int)),
            lines_of(s@) == texts(lines@) + lines_of(s@.skip(start as int)),
        decreases chars@.len() - i,
    {
        let ghost rest = s@.skip(start as int);
        if chars[i] == '\n' {
            assert(first_feed(s@.skip(i as int)) == 0);
            let line: String = if start < i && chars[i - 1] == '\r' {
                assert(rest.take(i - start).drop_last() == s@.subrange(start as int, i - 1));
                string_of(&chars, start, i - 1)
            } else {
                assert(rest.take(i - start) == s@.subrange(start as int, i as int));
                string_of(&chars, start, i)
            };
            assert(line@ == without_return(rest.take(i - start)));
            assert(rest.skip(i - start + 1) == s@.skip(i + 1));
            let ghost before = lines@;
            lines.push(line);
            assert(texts(lines@) == texts(before) + seq![line@]);
            start = i + 1;
        } else {
            assert(s@.skip(i as int).drop_first() == s@.skip(i + 1));
        }
        i = i + 1;
    }
    let ghost rest = s@.skip(start as int);
    if start < chars.len() {
        let line: String = string_of(&chars, start, chars.len());
        assert(line@ == rest);
        let ghost before = lines@;
        lines.push(line);
        assert(texts(lines@) == texts(before) + seq![line@]);
    }
    lines
}

// Prefixes and search ---------------------------------------------------------

/// `s` starts with `prefix`.
pub open spec fn starts(s: Seq<char>, prefix: Seq<char>) -> bool {
    s.len() >= prefix.len() && s.take(prefix.len() as int) == prefix
}

/// Whether `part` stands at position `at` of `chars`.
fn occurs_at(chars: &Vec<char>, part: &Vec<char>, at: usize) -> (found: bool)
    requires
        at + part@.len() <= chars@.len(),
    ensures
        found == (chars@.subrange(at as int, at + part@.len()) == part@),
{
    let n: usize = chars.len();
    let mut i: usize = 0;
    while i < part.len()
        invariant
            i <= part@.len(),
            at + part@.len() <= chars@.len() == n,
            forall|j: int| 0 <= j < i ==> chars@[at + j] == part@[j],
        decreases part@.len() - i,
    {
        if chars[at + i] != part[i] {
            assert(chars@.subrange(at as int, at + part@.len())[i as int] != part@[i as int]);
            return false;
        }
        i = i + 1;
    }
    assert(chars@.subrange(at as int, at + part@.len()) =~= part@);
    true
}

/// What follows `prefix` in `s`, where `s` starts with it.
pub fn strip_prefix(s: &str, prefix: &str) -> (rest: Option<String>)
    ensures
        rest is Some <==> starts(s@, prefix@),
        rest matches Some(r) ==> r@ == s@.skip(prefix@.len() as int),
{
    let chars: Vec<char> = chars_of(s);
    let part: Vec<char> = chars_of(prefix);
    if part.len() <= chars.len() && occurs_at(&chars, &part, 0) {
        let rest: String = string_of(&chars, part.len(), chars.len());
        assert(rest@ == s@.skip(prefix@.len() as int));
        Some(rest)
    } else {
        None
    }
}

/// Whether `s` starts with `prefix`.
pub fn starts_with(s: &str, prefix: &str) -> (yes: bool)
    ensures
        yes == starts(s@, prefix@),
{
    match strip_prefix(s, prefix) {
        Some(_) => true,
        None => false,
    }
}

/// `part` occurs in `s` at position `at`.
pub open spec fn occurs(s: Seq<char>, part: Seq<char>, at: int) -> bool {
    0 <= at && at + part.len() <= s.len() && s.subrange(at, at + part.len()) == part
}

/// `part` occurs somewhere in `s`.
pub open spec fn has_part(s: Seq<char>, part: Seq<char>) -> bool {
    exists|at: int| occurs(s, part, at)
}

/// Whether `part` occurs somewhere in `s`.
pub fn contains(s: &str, part: &str) -> (found: bool)
    ensures
        found == has_part(s@, part@),
{
    let chars: Vec<char> = chars_of(s);
    let wanted: Vec<char> = chars_of(part);
    if wanted.len() > chars.len() {
        return false;
    }
    let last: usize = chars.len() - wanted.len();
    let mut at: usize = 0;
    while at <= last
        invariant
            chars@ == s@,
            wanted@ == part@,
            last + wanted@.len() == chars@.len(),
            at <= last + 1,
            forall|k: int| 0 <= k < at ==> !occurs(s@, part@, k),
        decreases last + 1 - at,
    {
        if occurs_at(&chars, &wanted, at) {
            assert(occurs(s@, part@, at as int));
            return true;
        }
        if at == last {
            return false;
        }
        at = at + 1;
    }
    false
}

// Order -----------------------------------------------------------------------

/// Lexicographic order by code point, which is the byte order of the UTF-8
/// forms.
pub open spec fn precedes(a: Seq<char>, b: Seq<char>) -> bool
    decreases a.len(),
{
    b.len() > 0 && (a.len() == 0 || a[0] < b[0] || (a[0] == b[0] && precedes(
        a.drop_first(),
        b.drop_first(),
    )))
}

/// No string precedes itself.
pub proof fn lemma_precedes_irreflexive(a: Seq<char>)
    ensures
        !precedes(a, a),
    decreases a.len(),
{
    if a.len() > 0 {
        lemma_precedes_irreflexive(a.drop_first());
    }
}

/// `precedes` is transitive.
pub proof fn lemma_precedes_transitive(a: Seq<char>, b: Seq<char>, c: Seq<char>)
    requires
        precedes(a, b),
        precedes(b, c),
    ensures
        precedes(a, c),
    decreases a.len(),
{
    if a.len() > 0 && a[0] == b[0] && b[0] == c[0] {
        lemma_precedes_transitive(a.drop_first(), b.drop_first(), c.drop_first());
    }
}

/// Of two different strings one precedes the other.
pub proof fn lemma_precedes_total(a: Seq<char>, b: Seq<char>)
    ensures
        precedes(a, b) || a == b || precedes(b, a),
    decreases a.len(),
{
    if a.len() > 0 && b.len() > 0 {
        lemma_precedes_total(a.drop_first(), b.drop_first());
        if a[0] == b[0] && a.drop_first() == b.drop_first() {
            assert(a == seq![a[0]] + a.drop_first());
            assert(b == seq![b[0]] + b.drop_first());
        }
    } else if a.len() == 0 && b.len() == 0 {
        assert(a =~= b);
    }
}

/// Whether `a` precedes `b`.
pub fn str_precedes(a: &str, b: &str) -> (less: bool)
    ensures
        less == precedes(a@, b@),
{
    let left: Vec<char> = chars_of(a);
    let right: Vec<char> = chars_of(b);
    let mut i: usize = 0;
    assert(left@.skip(0) == a@);
    assert(right@.skip(0) == b@);
    while i < left.len() && i < right.len()
        invariant
            i <= left@.len(),
            i <= right@.len(),
            precedes(a@, b@) == precedes(left@.skip(i as int), right@.skip(i as int)),
        decreases left@.len() - i,
    {
        if left[i] != right[i] {
            return left[i] < right[i];
        }
        assert(left@.skip(i as int).drop_first() == left@.skip(i + 1));
        assert(right@.skip(i as int).drop_first() == right@.skip(i + 1));
        i = i + 1;
    }
    i < right.len()
}

/// In the order of their keys, entry `i` comes before entry `j`: its key
/// precedes the other, or the keys are equal and it stands first.
pub open spec fn comes_before(keys: Seq<Seq<char>>, i: int, j: int) -> bool {
    precedes(keys[i], keys[j]) || (keys[i] == keys[j] && i < j)
}

/// `order` holds the position `i`.
pub open spec fn lists(order: Seq<usize>, i: int) -> bool {
    exists|a: int| 0 <= a < order.len() && order[a] == i
}

/// `order` lists the positions of `keys`, sorted by key, equal keys in the
/// order in which they stand.
pub open spec fn is_stable_order(keys: Seq<Seq<char>>, order: Seq<usize>) -> bool {
    &&& order.len() == keys.len()
    &&& forall|a: int| 0 <= a < order.len() ==> 0 <= #[trigger] order[a] < keys.len()
    &&& forall|i: int| 0 <= i < keys.len() ==> #[trigger] lists(order, i)
    &&& forall|a: int, b: int|
        0 <= a < b < order.len() ==> comes_before(
            keys,
            #[trigger] order[a] as int,
            #[trigger] order[b] as int,
        )
}

/// The positions of `keys`, sorted by key, equal keys in the order in which they
/// stand.
pub fn sort_order(keys: &Vec<String>) -> (order: Vec<usize>)
    ensures
        is_stable_order(texts(keys@), order@),
{
    let mut order: Vec<usize> = Vec::new();
    let ghost all = texts(keys@);
    let mut i: usize = 0;
    while i < keys.len()
        invariant
            i <= keys@.len(),
            all == texts(keys@),
            is_stable_order(all.take(i as int), order@),
        decreases keys@.len() - i,
    {
        let mut at: usize = order.len();
        while at > 0 && str_precedes(keys[i].as_str(), keys[order[at - 1]].as_str())
            invariant
                i < keys@.len(),
                at <= order@.len() == i,
                all == texts(keys@),
                is_stable_order(all.take(i as int), order@),
                forall|b: int|
                    at <= b < order@.len() ==> precedes(all[i as int], all[#[trigger] order@[b] as int]),
            decreases at,
        {
            assert(order@[at - 1] < i);
            at = at - 1;
        }
        let ghost before = order@;
        order.insert(at, i);
        proof {
            lemma_insert_in_order(all, before, i as int, at as int);
        }
        i = i + 1;
    }
    assert(all.take(i as int) == all);
    order
}

/// Putting position `i` behind every entry that it does not precede keeps the
/// order.
proof fn lemma_insert_in_order(all: Seq<Seq<char>>, order: Seq<usize>, i: int, at: int)
    requires
        0 <= i < all.len(),
        i <= usize::MAX,
        is_stable_order(all.take(i), order),
        0 <= at <= order.len(),
        forall|b: int| at <= b < order.len() ==> precedes(all[i], all[#[trigger] order[b] as int]),
        at > 0 ==> order[at - 1] < i && !precedes(all[i], all[order[at - 1] as int]),
    ensures
        is_stable_order(all.take(i + 1), order.insert(at, i as usize)),
{
    let keys = all.take(i + 1);
    let now = order.insert(at, i as usize);
    assert forall|a: int| 0 <= a < now.len() implies 0 <= #[trigger] now[a] < keys.len() by {
        if a < at {
            assert(now[a] == order[a]);
        } else if a > at {
            assert(now[a] == order[a - 1]);
        }
    }
    assert forall|j: int| 0 <= j < keys.len() implies #[trigger] lists(now, j) by {
        if j == i {
            assert(now[at] == j);
        } else {
            assert(lists(order, j));
            let a = choose|a: int| 0 <= a < order.len() && order[a] == j;
            if a < at {
                assert(now[a] == j);
            } else {
                assert(now[a + 1] == j);
            }
        }
    }
    assert forall|a: int, b: int| 0 <= a < b < now.len() implies comes_before(
        keys,
        #[trigger] now[a] as int,
        #[trigger] now[b] as int,
    ) by {
        let x = if a < at {
            a
        } else {
            a - 1
        };
        let y = if b < at {
            b
        } else {
            b - 1
        };
        if b == at {
            // The entries before the insertion point do not follow the new one.
            let last = order[at - 1] as int;
            assert(now[a] == order[a]);
            if a < at - 1 {
                assert(comes_before(all.take(i), order[a] as int, order[at - 1] as int));
            }
            lemma_precedes_total(all[i], all[last]);
            if precedes(all[order[a] as int], all[last]) && precedes(all[last], all[i]) {
                lemma_precedes_transitive(all[order[a] as int], all[last], all[i]);
            }
        } else if a == at {
            assert(now[b] == order[b - 1]);
        } else {
            assert(now[a] == order[x]);
            assert(now[b] == order[y]);
            assert(comes_before(all.take(i), order[x] as int, order[y] as int));
        }
    }
}

proof fn lemma_comes_before_strict(keys: Seq<Seq<char>>, i: int, j: int)
    requires
        comes_before(keys, i, j),
    ensures
        i != j,
        !comes_before(keys, j, i),
{
    lemma_precedes_irreflexive(keys[i]);
    if precedes(keys[i], keys[j]) && precedes(keys[j], keys[i]) {
        lemma_precedes_transitive(keys[i], keys[j], keys[i]);
    }
}

proof fn lemma_same_prefix(keys: Seq<Seq<char>>, a: Seq<usize>, b: Seq<usize>, n: int)
    requires
        is_stable_order(keys, a),
        is_stable_order(keys, b),
        0 <= n <= keys.len(),
    ensures
        forall|k: int| 0 <= k < n ==> #[trigger] a[k] == b[k],
    decreases n,
{
    if n > 0 {
        let k = n - 1;
        lemma_same_prefix(keys, a, b, k);
        if a[k] != b[k] {
            assert(lists(b, a[k] as int));
            let p = choose|p: int| 0 <= p < b.len() && b[p] == a[k] as int;
            assert(lists(a, b[k] as int));
            let q = choose|q: int| 0 <= q < a.len() && a[q] == b[k] as int;
            if p < k {
                assert(a[p] == b[p]);
                lemma_comes_before_strict(keys, a[p] as int, a[k] as int);
            }
            if q < k {
                assert(a[q] == b[q]);
                lemma_comes_before_strict(keys, b[q] as int, b[k] as int);
            }
            assert(comes_before(keys, b[k] as int, b[p] as int));
            assert(comes_before(keys, a[k] as int, a[q] as int));
            lemma_comes_before_strict(keys, a[k] as int, b[k] as int);
        }
    }
}

/// There is one sorted order in which equal keys stay in the order in which they
/// stand.
pub proof fn law_stable_order_unique(keys: Seq<Seq<char>>, a: Seq<usize>, b: Seq<usize>)
    requires
        is_stable_order(keys, a),
        is_stable_order(keys, b),
    ensures
        a == b,
{
    lemma_same_prefix(keys, a, b, keys.len() as int);
    assert(a =~= b);
}

// Numbers ---------------------------------------------------------------------

/// The character of a decimal digit.
pub open spec fn digit_char(d: nat) -> char {
    (48 + d) as char
}

/// The decimal form of a number, without leading zeros.
pub open spec fn decimal_of(n: nat) -> Seq<char>
    decreases n,
{
    if n < 10 {
        seq![digit_char(n)]
    } else {
        decimal_of(n / 10).push(digit_char(n % 10))
    }
}

/// The decimal form of a number.
pub fn decimal(n: u32) -> (s: String)
    ensures
        s@ == decimal_of(n as nat),
    decreases n,
{
    let digit: char = (48 + (n % 10) as u8) as char;
    if n < 10 {
        let mut s = String::new();
        s.push(digit);
        assert(s@ == seq![digit_char(n as nat)]);
        s
    } else {
        let mut s: String = decimal(n / 10);
        s.push(digit);
        s
    }
}

/// `a` followed by `b`.
pub fn join2(a: &str, b: &str) -> (s: String)
    ensures
        s@ == a@ + b@,
{
    let mut s: String = a.to_owned();
    s.append(b);
    s
}

/// `a`, `b` and `c`, one after the other.
pub fn join3(a: &str, b: &str, c: &str) -> (s: String)
    ensures
        s@ == a@ + b@ + c@,
{
    let mut s: String = a.to_owned();
    s.append(b);
    s.append(c);
    s
}

// Laws ------------------------------------------------------------------------

/// The printable characters are those from U+0021 to U+007E.
pub proof fn law_graphic(c: char)
    ensures
        spec_is_graphic(c) <==> 0x21 <= c as u32 <= 0x7e,
{
}

/// The ASCII letters and digits by their code points.
pub proof fn law_alphanumeric(c: char)
    ensures
        spec_is_alphanumeric(c) <==> 0x30 <= c as u32 <= 0x39 || 0x41 <= c as u32 <= 0x5a || 0x61
            <= c as u32 <= 0x7a,
{
}

/// Two strings are the same but for case where they are as long, and at every
/// position hold the same character or the two cases of one ASCII letter.
pub proof fn law_same_but_case(a: Seq<char>, b: Seq<char>)
    ensures
        same_but_case(a, b) <==> (a.len() == b.len() && forall|i: int|
            0 <= i < a.len() ==> (#[trigger] a[i] == b[i] || (0x41 <= a[i] as int <= 0x5a
                && b[i] as int == a[i] as int + 32) || (0x41 <= b[i] as int <= 0x5a && a[i] as int
                == b[i] as int + 32))),
{
    if same_but_case(a, b) {
        assert forall|i: int| 0 <= i < a.len() implies (#[trigger] a[i] == b[i] || (0x41
            <= a[i] as int <= 0x5a && b[i] as int == a[i] as int + 32) || (0x41 <= b[i] as int
            <= 0x5a && a[i] as int == b[i] as int + 32)) by {
            assert(spec_fold_case(a[i]) == spec_fold_case(b[i]));
        }
    }
}

/// Every character of the sequence is white space.
pub open spec fn all_white(s: Seq<char>) -> bool {
    forall|i: int| 0 <= i < s.len() ==> spec_is_white_space(#[trigger] s[i])
}

/// Leading white space goes, and what follows it stays.
pub proof fn lemma_trimmed_start_skips(white: Seq<char>, s: Seq<char>)
    requires
        all_white(white),
        s.len() > 0 ==> !spec_is_white_space(s[0]),
    ensures
        trimmed_start(white + s) == s,
    decreases white.len(),
{
    if white.len() == 0 {
        assert(white + s =~= s);
    } else {
        assert((white + s)[0] == white[0]);
        assert((white + s).drop_first() =~= white.drop_first() + s);
        assert forall|i: int| 0 <= i < white.drop_first().len() implies spec_is_white_space(
            #[trigger] white.drop_first()[i],
        ) by {
            assert(white.drop_first()[i] == white[i + 1]);
        }
        lemma_trimmed_start_skips(white.drop_first(), s);
    }
}

proof fn lemma_trimmed_end_skips(s: Seq<char>, white: Seq<char>)
    requires
        all_white(white),
        s.len() > 0 ==> !spec_is_white_space(s.last()),
    ensures
        trimmed_end(s + white) == s,
    decreases white.len(),
{
    if white.len() == 0 {
        assert(s + white =~= s);
    } else {
        assert((s + white).last() == white.last());
        assert((s + white).drop_last() =~= s + white.drop_last());
        assert forall|i: int| 0 <= i < white.drop_last().len() implies spec_is_white_space(
            #[trigger] white.drop_last()[i],
        ) by {
            assert(white.drop_last()[i] == white[i]);
        }
        lemma_trimmed_end_skips(s, white.drop_last());
    }
}

/// Trimming takes white space off both ends and nothing else: what stands
/// between stays, character by character.
pub proof fn law_trimmed(before: Seq<char>, core: Seq<char>, after: Seq<char>)
    requires
        all_white(before),
        all_white(after),
        core.len() > 0 ==> !spec_is_white_space(core[0]) && !spec_is_white_space(core.last()),
    ensures
        trimmed(before + core + after) == core,
        core.len() > 0 ==> trimmed_start(before + core + after) == core + after,
{
    if core.len() > 0 {
        assert(before + core + after =~= before + (core + after));
        assert((core + after)[0] == core[0]);
        lemma_trimmed_start_skips(before, core + after);
        lemma_trimmed_end_skips(core, after);
    } else {
        let all = before + core + after;
        assert forall|i: int| 0 <= i < all.len() implies spec_is_white_space(#[trigger] all[i]) by {
            if i < before.len() {
                assert(all[i] == before[i]);
            } else {
                assert(all[i] == after[i - before.len()]);
            }
        }
        assert(all + Seq::<char>::empty() =~= all);
        lemma_trimmed_start_skips(all, Seq::empty());
        assert(core =~= Seq::empty());
    }
}

proof fn lemma_first_feed(line: Seq<char>, rest: Seq<char>)
    requires
        !line.contains('\n'),
        rest.len() > 0 ==> rest[0] == '\n',
    ensures
        first_feed(line + rest) == line.len(),
    decreases line.len(),
{
    if line.len() == 0 {
        assert(line + rest =~= rest);
    } else {
        assert(line.contains(line[0]));
        assert((line + rest)[0] == line[0]);
        assert((line + rest).drop_first() =~= line.drop_first() + rest);
        assert(!line.drop_first().contains('\n')) by {
            if line.drop_first().contains('\n') {
                let i = choose|i: int|
                    0 <= i < line.drop_first().len() && line.drop_first()[i] == '\n';
                assert(line[i + 1] == '\n');
            }
        }
        lemma_first_feed(line.drop_first(), rest);
    }
}

/// A line that ends with a line feed comes first, and the lines of what follows
/// come behind it. A carriage return before the line feed is no part of the
/// line.
pub proof fn law_lines(line: Seq<char>, rest: Seq<char>)
    requires
        !line.contains('\n'),
    ensures
        (line.len() == 0 || line.last() != '\r') ==> lines_of(line.push('\n') + rest) == seq![line]
            + lines_of(rest),
        lines_of(line.push('\r').push('\n') + rest) == seq![line] + lines_of(rest),
{
    let s = line.push('\n') + rest;
    lemma_first_feed(line, seq!['\n'] + rest);
    assert(line + (seq!['\n'] + rest) =~= s);
    assert(s.take(line.len() as int) =~= line);
    assert(s.skip(line.len() as int + 1) =~= rest);
    let cr = line.push('\r');
    let t = cr.push('\n') + rest;
    assert(!cr.contains('\n')) by {
        if cr.contains('\n') {
            let i = choose|i: int| 0 <= i < cr.len() && cr[i] == '\n';
            if i < line.len() {
                assert(line[i] == '\n');
            }
        }
    }
    lemma_first_feed(cr, seq!['\n'] + rest);
    assert(cr + (seq!['\n'] + rest) =~= t);
    assert(t.take(cr.len() as int) =~= cr);
    assert(cr.drop_last() =~= line);
    assert(t.skip(cr.len() as int + 1) =~= rest);
}

/// What holds no line feed is one line, as it stands; nothing is no line.
pub proof fn law_last_line(line: Seq<char>)
    requires
        !line.contains('\n'),
    ensures
        lines_of(line) == (if line.len() == 0 {
            Seq::empty()
        } else {
            seq![line]
        }),
{
    lemma_first_feed(line, Seq::empty());
    assert(line + Seq::<char>::empty() =~= line);
}

/// A string starts with a prefix where it is the prefix and something behind it.
pub proof fn law_starts(s: Seq<char>, prefix: Seq<char>, rest: Seq<char>)
    ensures
        starts(prefix + rest, prefix),
        (prefix + rest).skip(prefix.len() as int) == rest,
        starts(s, prefix) ==> s == prefix + s.skip(prefix.len() as int),
{
    assert((prefix + rest).take(prefix.len() as int) =~= prefix);
    assert((prefix + rest).skip(prefix.len() as int) =~= rest);
    if starts(s, prefix) {
        assert(s =~= s.take(prefix.len() as int) + s.skip(prefix.len() as int));
    }
}

/// A string holds a part that stands anywhere in it.
pub proof fn law_has_part(before: Seq<char>, part: Seq<char>, after: Seq<char>)
    ensures
        has_part(before + part + after, part),
{
    let s = before + part + after;
    let at = before.len() as int;
    assert(s.subrange(at, at + part.len()) =~= part);
    assert(occurs(s, part, at));
}

/// A string that holds a part is what stands before it, the part, and what
/// stands behind it.
pub proof fn law_part_found(s: Seq<char>, part: Seq<char>) -> (split: (Seq<char>, Seq<char>))
    requires
        has_part(s, part),
    ensures
        s == split.0 + part + split.1,
{
    let at = choose|at: int| occurs(s, part, at);
    let before = s.take(at);
    let after = s.skip(at + part.len());
    assert(s =~= before + s.subrange(at, at + part.len()) + after);
    (before, after)
}

/// Strings are ordered by the first character in which they differ; one that
/// the other goes on from comes first.
pub proof fn law_lexicographic(
    common: Seq<char>,
    x: char,
    a: Seq<char>,
    y: char,
    b: Seq<char>,
)
    requires
        (x as u32) < (y as u32),
    ensures
        precedes(common.push(x) + a, common.push(y) + b),
        !precedes(common.push(y) + b, common.push(x) + a),
        precedes(common, common.push(x) + a),
        !precedes(common.push(x) + a, common),
        !precedes(common, common),
    decreases common.len(),
{
    let left = common.push(x) + a;
    let right = common.push(y) + b;
    if common.len() > 0 {
        let rest = common.drop_first();
        assert(left.drop_first() =~= rest.push(x) + a);
        assert(right.drop_first() =~= rest.push(y) + b);
        assert(left[0] == common[0] && right[0] == common[0]);
        law_lexicographic(rest, x, a, y, b);
    }
}

/// A sorted order holds every position once, never puts a greater key before a
/// lesser one, and leaves equal keys in the order in which they stand.
pub proof fn law_sorted(keys: Seq<Seq<char>>, order: Seq<usize>, a: int, b: int, i: int)
    requires
        is_stable_order(keys, order),
        0 <= a < b < order.len(),
        0 <= i < keys.len(),
    ensures
        order.len() == keys.len(),
        order[a] < keys.len(),
        order[a] != order[b],
        exists|k: int| 0 <= k < order.len() && #[trigger] order[k] == i,
        !precedes(keys[order[b] as int], keys[order[a] as int]),
        keys[order[a] as int] == keys[order[b] as int] ==> order[a] < order[b],
{
    assert(lists(order, i));
    let x = order[a] as int;
    let y = order[b] as int;
    assert(comes_before(keys, x, y));
    lemma_comes_before_strict(keys, x, y);
    lemma_precedes_irreflexive(keys[x]);
}

/// The number that decimal digits stand for.
pub open spec fn number_of(digits: Seq<char>) -> int
    decreases digits.len(),
{
    if digits.len() == 0 {
        0
    } else {
        10 * number_of(digits.drop_last()) + (digits.last() as int - 0x30)
    }
}

/// The decimal form of a number consists of digits, stands for that number, and
/// has no leading zero but that of the number zero.
pub proof fn law_decimal(n: nat)
    ensures
        decimal_of(n).len() > 0,
        forall|i: int|
            0 <= i < decimal_of(n).len() ==> 0x30 <= #[trigger] decimal_of(n)[i] as u32 <= 0x39,
        number_of(decimal_of(n)) == n,
        n > 0 ==> decimal_of(n)[0] as u32 > 0x30,
        n == 0 ==> decimal_of(n).len() == 1,
    decreases n,
{
    let digits = decimal_of(n);
    if n < 10 {
        assert(digits.drop_last() =~= Seq::empty());
        assert(number_of(digits.drop_last()) == 0);
    } else {
        law_decimal(n / 10);
        assert(digits.drop_last() =~= decimal_of(n / 10));
        assert forall|i: int| 0 <= i < digits.len() implies 0x30 <= #[trigger] digits[i] as u32
            <= 0x39 by {
            if i < digits.len() - 1 {
                assert(digits[i] == decimal_of(n / 10)[i]);
            }
        }
        assert(digits[0] == decimal_of(n / 10)[0]);
    }
}

/// The contents of strings, one by one.
pub proof fn law_texts(strings: Seq<String>, i: int)
    requires
        0 <= i < strings.len(),
    ensures
        texts(strings).len() == strings.len(),
        texts(strings)[i] == strings[i]@,
{
}

/// What holds a character that is not white space is not trimmed away.
pub proof fn lemma_trimmed_keeps(s: Seq<char>, i: int)
    requires
        0 <= i < s.len(),
        !spec_is_white_space(s[i]),
    ensures
        trimmed(s).len() > 0,
{
    let k = lemma_start_keeps(s, i);
    lemma_end_keeps(trimmed_start(s), k);
}

proof fn lemma_start_keeps(s: Seq<char>, i: int) -> (k: int)
    requires
        0 <= i < s.len(),
        !spec_is_white_space(s[i]),
    ensures
        0 <= k < trimmed_start(s).len(),
        !spec_is_white_space(trimmed_start(s)[k]),
    decreases s.len(),
{
    if spec_is_white_space(s[0]) {
        assert(s.drop_first()[i - 1] == s[i]);
        lemma_start_keeps(s.drop_first(), i - 1)
    } else {
        i
    }
}

proof fn lemma_end_keeps(s: Seq<char>, i: int)
    requires
        0 <= i < s.len(),
        !spec_is_white_space(s[i]),
    ensures
        trimmed_end(s).len() > 0,
    decreases s.len(),
{
    if spec_is_white_space(s.last()) {
        assert(s.drop_last()[i] == s[i]);
        lemma_end_keeps(s.drop_last(), i);
    }
}

/// The white space characters by their code points: the tab, the line and page
/// separators of ASCII, the space, and the blanks and separators beyond ASCII.
/// No printable ASCII character is one.
pub proof fn law_white_space(c: char)
    ensures
        c as int <= 0x7f ==> (spec_is_white_space(c) <==> c == ' ' || c == '\t' || c == '\n' || c
            == '\r' || c as int == 0x0b || c as int == 0x0c),
        c as int > 0x7f ==> (spec_is_white_space(c) <==> seq![
            0x85int,
            0xa0,
            0x1680,
            0x2028,
            0x2029,
            0x202f,
            0x205f,
            0x3000,
        ].contains(c as int) || 0x2000 <= c as int <= 0x200a),
        '!' <= c <= '~' ==> !spec_is_white_space(c),
{
    let separators = seq![0x85int, 0xa0, 0x1680, 0x2028, 0x2029, 0x202f, 0x205f, 0x3000];
    assert(separators[0] == 0x85 && separators[1] == 0xa0 && separators[2] == 0x1680
        && separators[3] == 0x2028 && separators[4] == 0x2029 && separators[5] == 0x202f
        && separators[6] == 0x205f && separators[7] == 0x3000);
}

} // verus!
