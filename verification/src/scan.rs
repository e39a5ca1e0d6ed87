//! Scanning text: white space, lines, prefixes and suffixes, words, and
//! replacing one character.

use vstd::prelude::*;
use vstd::string::StringExecFns;
use crate::text::{chars_of, lemma_split_nonempty, split, split_on, string_of};

verus! {

/// White space, as Unicode defines it.
pub open spec fn is_space(c: char) -> bool {
    let u = c as u32;
    (0x09 <= u <= 0x0d) || u == 0x20 || u == 0x85 || u == 0xa0 || u == 0x1680 || (0x2000 <= u
        <= 0x200a) || u == 0x2028 || u == 0x2029 || u == 0x202f || u == 0x205f || u == 0x3000
}

/// `s` without the white space at its end.
pub open spec fn trim_end(s: Seq<char>) -> Seq<char>
    decreases s.len(),
{
    if s.len() > 0 && is_space(s.last()) {
        trim_end(s.drop_last())
    } else {
        s
    }
}

/// `s` without the white space at its start.
pub open spec fn trim_start(s: Seq<char>) -> Seq<char>
    decreases s.len(),
{
    if s.len() > 0 && is_space(s[0]) {
        trim_start(s.drop_first())
    } else {
        s
    }
}

/// `s` without the white space at either end.
pub open spec fn trimmed(s: Seq<char>) -> Seq<char> {
    trim_start(trim_end(s))
}

/// Whether `s` begins with `prefix`.
pub open spec fn starts_with(s: Seq<char>, prefix: Seq<char>) -> bool {
    prefix.len() <= s.len() && s.take(prefix.len() as int) == prefix
}

/// Whether `s` ends with `suffix`.
pub open spec fn ends_with(s: Seq<char>, suffix: Seq<char>) -> bool {
    suffix.len() <= s.len() && s.skip(s.len() - suffix.len()) == suffix
}

/// What follows `prefix` in `s`, if `s` begins with it.
pub open spec fn after_prefix(s: Seq<char>, prefix: Seq<char>) -> Option<Seq<char>> {
    if starts_with(s, prefix) {
        Some(s.skip(prefix.len() as int))
    } else {
        None
    }
}

/// `s` with every `suffix` at its end taken off, one after the other.
pub open spec fn without_suffixes(s: Seq<char>, suffix: Seq<char>) -> Seq<char>
    decreases s.len(),
{
    if suffix.len() > 0 && ends_with(s, suffix) {
        without_suffixes(s.take(s.len() - suffix.len()), suffix)
    } else {
        s
    }
}

/// A line without the carriage return at its end, if it has one.
pub open spec fn without_cr(line: Seq<char>) -> Seq<char> {
    if line.len() > 0 && line.last() == '\r' {
        line.drop_last()
    } else {
        line
    }
}

/// The lines of a text. A line ends at a line feed; a carriage return just
/// before that line feed belongs to the line ending. What follows the last
/// line feed is a line too, unless it is empty.
pub open spec fn lines_of(s: Seq<char>) -> Seq<Seq<char>> {
    let pieces = split_on(s, '\n');
    let ended = Seq::new((pieces.len() - 1) as nat, |i: int| without_cr(pieces[i]));
    if pieces.last().len() == 0 {
        ended
    } else {
        ended.push(pieces.last())
    }
}

/// The words seen so far and the word that is still open.
pub open spec fn scan_words(s: Seq<char>) -> (Seq<Seq<char>>, Seq<char>)
    decreases s.len(),
{
    if s.len() == 0 {
        (Seq::<Seq<char>>::empty(), Seq::<char>::empty())
    } else {
        let (done, open) = scan_words(s.drop_last());
        if !is_space(s.last()) {
            (done, open.push(s.last()))
        } else if open.len() > 0 {
            (done.push(open), Seq::<char>::empty())
        } else {
            (done, open)
        }
    }
}

/// The words of a text: the runs of characters between white space.
pub open spec fn words_of(s: Seq<char>) -> Seq<Seq<char>> {
    let (done, open) = scan_words(s);
    if open.len() > 0 {
        done.push(open)
    } else {
        done
    }
}

/// `s` with `with` in the place of every `c`.
pub open spec fn replaced(s: Seq<char>, c: char, with: Seq<char>) -> Seq<char>
    decreases s.len(),
{
    if s.len() == 0 {
        Seq::<char>::empty()
    } else if s.last() == c {
        replaced(s.drop_last(), c, with) + with
    } else {
        replaced(s.drop_last(), c, with).push(s.last())
    }
}

/// Whether `pattern` stands in `s` at position `at`.
pub open spec fn occurs_at(s: Seq<char>, pattern: Seq<char>, at: int) -> bool {
    0 <= at && at + pattern.len() <= s.len() && s.subrange(at, at + pattern.len()) == pattern
}

/// Whether `pattern` stands somewhere in `s`.
pub open spec fn occurs_in(s: Seq<char>, pattern: Seq<char>) -> bool {
    exists|at: int| occurs_at(s, pattern, at)
}

/// The first position at which `pattern` stands in `s`.
pub open spec fn first_occurrence(s: Seq<char>, pattern: Seq<char>) -> int {
    choose|at: int|
        occurs_at(s, pattern, at) && forall|j: int| 0 <= j < at ==> !occurs_at(s, pattern, j)
}

/// What follows the last `pattern` in `s`, where the occurrences are found
/// from the left and do not overlap. All of `s` if there is none.
#[verifier::opaque]
pub open spec fn after_last_match(s: Seq<char>, pattern: Seq<char>) -> Seq<char>
    decreases s.len(),
{
    if pattern.len() > 0 && occurs_in(s, pattern) {
        let at = first_occurrence(s, pattern);
        if 0 <= at && at + pattern.len() <= s.len() {
            after_last_match(s.skip(at + pattern.len()), pattern)
        } else {
            s
        }
    } else {
        s
    }
}

/// Whether `c` is white space.
pub fn char_is_space(c: char) -> (yes: bool)
    ensures
        yes == is_space(c),
{
    let u: u32 = c as u32;
    (0x09 <= u && u <= 0x0d) || u == 0x20 || u == 0x85 || u == 0xa0 || u == 0x1680 || (0x2000
        <= u && u <= 0x200a) || u == 0x2028 || u == 0x2029 || u == 0x202f || u == 0x205f || u
        == 0x3000
}

/// `s` without the white space at either end.
pub fn trim(s: &str) -> (out: String)
    ensures
        out@ == trimmed(s@),
{
    let chars = chars_of(s);
    let mut end: usize = chars.len();
    assert(chars@.take(end as int) =~= chars@);
    while end > 0 && char_is_space(chars[end - 1])
        invariant
            end <= chars.len(),
            trim_end(chars@) == trim_end(chars@.take(end as int)),
        decreases end,
    {
        assert(chars@.take(end as int).drop_last() =~= chars@.take(end - 1));
        end -= 1;
    }
    let ghost kept = chars@.take(end as int);
    let mut start: usize = 0;
    while start < end && char_is_space(chars[start])
        invariant
            start <= end <= chars.len(),
            trim_start(kept) == trim_start(chars@.subrange(start as int, end as int)),
        decreases end - start,
    {
        assert(chars@.subrange(start as int, end as int).drop_first() =~= chars@.subrange(
            start + 1,
            end as int,
        ));
        start += 1;
    }
    string_of(&chars, start, end)
}

/// Whether `s` begins with `prefix`.
pub fn has_prefix(s: &str, prefix: &str) -> (yes: bool)
    ensures
        yes == starts_with(s@, prefix@),
{
    let a = chars_of(s);
    let p = chars_of(prefix);
    if p.len() > a.len() {
        return false;
    }
    let mut i: usize = 0;
    while i < p.len()
        invariant
            a@ == s@,
            p@ == prefix@,
            i <= p.len() <= a.len(),
            forall|k: int| 0 <= k < i ==> a@[k] == p@[k],
        decreases p.len() - i,
    {
        if a[i] != p[i] {
            return false;
        }
        i += 1;
    }
    assert(s@.take(prefix@.len() as int) =~= prefix@);
    true
}

/// What follows `prefix` in `s`, if `s` begins with it.
pub fn strip_prefix(s: &str, prefix: &str) -> (rest: Option<String>)
    ensures
        rest is Some == after_prefix(s@, prefix@) is Some,
        rest matches Some(r) ==> Some(r@) == after_prefix(s@, prefix@),
{
    if has_prefix(s, prefix) {
        let a = chars_of(s);
        let n = prefix.unicode_len();
        let rest = string_of(&a, n, a.len());
        Some(rest)
    } else {
        None
    }
}

/// `s` with every `suffix` at its end taken off. An empty suffix takes
/// nothing off.
pub fn trim_end_matches(s: &str, suffix: &str) -> (out: String)
    ensures
        out@ == without_suffixes(s@, suffix@),
{
    let a = chars_of(s);
    let p = chars_of(suffix);
    let mut end: usize = a.len();
    assert(a@.take(end as int) =~= a@);
    if p.len() == 0 {
        return string_of(&a, 0, end);
    }
    loop
        invariant
            a@ == s@,
            p@ == suffix@,
            p.len() > 0,
            end <= a.len(),
            without_suffixes(s@, suffix@) == without_suffixes(a@.take(end as int), suffix@),
        decreases end,
    {
        let ghost head = a@.take(end as int);
        if p.len() > end {
            return string_of(&a, 0, end);
        }
        let from: usize = end - p.len();
        let same = matches_at(&a, &p, from);
        assert(a@.subrange(from as int, from + p@.len()) =~= head.skip(head.len() - p@.len()));
        if same {
            assert(head.take(head.len() - p@.len()) =~= a@.take(from as int));
            end = from;
        } else {
            return string_of(&a, 0, end);
        }
    }
}

/// A line without the carriage return at its end.
fn strip_cr(line: &str) -> (out: String)
    ensures
        out@ == without_cr(line@),
{
    let a = chars_of(line);
    if a.len() > 0 && a[a.len() - 1] == '\r' {
        let out = string_of(&a, 0, a.len() - 1);
        out
    } else {
        let out = string_of(&a, 0, a.len());
        out
    }
}

/// The lines of `s`.
pub fn lines(s: &str) -> (out: Vec<String>)
    ensures
        out.deep_view() == lines_of(s@),
{
    let pieces = split(s, '\n');
    let ghost all = split_on(s@, '\n');
    let ghost ended = Seq::new((all.len() - 1) as nat, |i: int| without_cr(all[i]));
    let last: usize = pieces.len() - 1;
    let mut out: Vec<String> = Vec::new();
    let mut i: usize = 0;
    while i < last
        invariant
            i <= last,
            last + 1 == pieces.len(),
            pieces.deep_view() == all,
            ended == Seq::new((all.len() - 1) as nat, |i: int| without_cr(all[i])),
            out.deep_view() == ended.take(i as int),
        decreases last - i,
    {
        let ghost before = out.deep_view();
        let line = strip_cr(pieces[i].as_str());
        out.push(line);
        assert(out.deep_view() =~= before.push(ended[i as int]));
        i += 1;
    }
    assert(ended.take(last as int) =~= ended);
    if pieces[last].as_str().unicode_len() > 0 {
        out.push(pieces[last].clone());
    }
    out
}

/// The words of `s`.
pub fn words(s: &str) -> (out: Vec<String>)
    ensures
        out.deep_view() == words_of(s@),
{
    let mut out: Vec<String> = Vec::new();
    let mut open = String::new();
    for c in it: s.chars()
        invariant
            it.seq() == s@,
            (out.deep_view(), open@) == scan_words(s@.take(it.index() as int)),
    {
        let ghost longer = s@.take(it.index() + 1);
        assert(longer.drop_last() =~= s@.take(it.index() as int));
        if !char_is_space(c) {
            open.push(c);
        } else if open.as_str().unicode_len() > 0 {
            out.push(open);
            open = String::new();
        }
    }
    assert(s@.take(s@.len() as int) =~= s@);
    if open.as_str().unicode_len() > 0 {
        out.push(open);
    }
    out
}

/// `s` with `with` in the place of every `c`.
pub fn replace_char(s: &str, c: char, with: &str) -> (out: String)
    ensures
        out@ == replaced(s@, c, with@),
{
    let mut out = String::new();
    for x in it: s.chars()
        invariant
            it.seq() == s@,
            out@ == replaced(s@.take(it.index() as int), c, with@),
    {
        let ghost longer = s@.take(it.index() + 1);
        assert(longer.drop_last() =~= s@.take(it.index() as int));
        if x == c {
            out.append(with);
        } else {
            out.push(x);
        }
    }
    assert(s@.take(s@.len() as int) =~= s@);
    out
}

/// Whether `pattern` stands in `a` at `at`.
fn matches_at(a: &Vec<char>, pattern: &Vec<char>, at: usize) -> (yes: bool)
    requires
        at + pattern.len() <= a.len(),
    ensures
        yes == occurs_at(a@, pattern@, at as int),
{
    let mut k: usize = 0;
    while k < pattern.len()
        invariant
            at + pattern.len() <= a.len(),
            k <= pattern.len(),
            forall|j: int| 0 <= j < k ==> a@[at + j] == pattern@[j],
        decreases pattern.len() - k,
    {
        if a[at + k] != pattern[k] {
            return false;
        }
        k += 1;
    }
    assert(a@.subrange(at as int, at + pattern.len()) =~= pattern@);
    true
}

/// Whether `pattern` stands somewhere in `s`.
pub fn contains(s: &str, pattern: &str) -> (yes: bool)
    ensures
        yes == occurs_in(s@, pattern@),
{
    let a = chars_of(s);
    let p = chars_of(pattern);
    if p.len() > a.len() {
        return false;
    }
    if p.len() == 0 {
        assert(s@.subrange(0, 0) =~= pattern@);
        assert(occurs_at(s@, pattern@, 0));
        return true;
    }
    let stop: usize = a.len() - p.len();
    let mut i: usize = 0;
    while i <= stop
        invariant
            a@ == s@,
            p@ == pattern@,
            p.len() > 0,
            stop + p.len() == a.len(),
            i <= stop + 1,
            forall|at: int| 0 <= at < i ==> !occurs_at(s@, pattern@, at),
        decreases stop + 1 - i,
    {
        if matches_at(&a, &p, i) {
            return true;
        }
        i += 1;
    }
    false
}

/// Where `pattern` stands in what follows `from`, it stands in `s`.
proof fn lemma_occurs_shifted(s: Seq<char>, pattern: Seq<char>, from: int, at: int)
    requires
        0 <= from <= s.len(),
        0 <= at,
    ensures
        occurs_at(s.skip(from), pattern, at) == occurs_at(s, pattern, from + at),
{
    if at + pattern.len() <= s.len() - from {
        assert(s.skip(from).subrange(at, at + pattern.len()) =~= s.subrange(
            from + at,
            from + at + pattern.len(),
        ));
    }
}

/// After the first occurrence, the search goes on behind it.
proof fn lemma_search_goes_on(s: Seq<char>, pattern: Seq<char>, from: int, at: int)
    requires
        pattern.len() > 0,
        0 <= from <= at,
        occurs_at(s, pattern, at),
        forall|j: int| from <= j < at ==> !occurs_at(s, pattern, j),
    ensures
        after_last_match(s.skip(from), pattern) == after_last_match(
            s.skip(at + pattern.len()),
            pattern,
        ),
{
    reveal(after_last_match);
    let tail = s.skip(from);
    let here = at - from;
    lemma_occurs_shifted(s, pattern, from, here);
    assert(occurs_at(tail, pattern, here));
    assert forall|j: int| 0 <= j < here implies !occurs_at(tail, pattern, j) by {
        lemma_occurs_shifted(s, pattern, from, j);
    }
    let f = first_occurrence(tail, pattern);
    assert(occurs_at(tail, pattern, f) && forall|j: int| 0 <= j < f ==> !occurs_at(tail, pattern, j));
    assert(f == here);
    assert(tail.skip(here + pattern.len()) =~= s.skip(at + pattern.len()));
}

/// Where nothing is found, everything is left.
proof fn lemma_search_ends(s: Seq<char>, pattern: Seq<char>, from: int)
    requires
        0 <= from <= s.len(),
        forall|j: int| from <= j ==> !occurs_at(s, pattern, j),
    ensures
        after_last_match(s.skip(from), pattern) == s.skip(from),
{
    reveal(after_last_match);
    let tail = s.skip(from);
    assert forall|at: int| !occurs_at(tail, pattern, at) by {
        if 0 <= at {
            lemma_occurs_shifted(s, pattern, from, at);
        }
    }
}

/// What follows the last `pattern` in `s`; all of `s` if there is none.
pub fn after_last(s: &str, pattern: &str) -> (out: String)
    requires
        pattern@.len() > 0,
    ensures
        out@ == after_last_match(s@, pattern@),
{
    let a = chars_of(s);
    let p = chars_of(pattern);
    assert(a@.skip(0) =~= a@);
    if p.len() > a.len() {
        proof {
            lemma_search_ends(a@, p@, 0);
        }
        return string_of(&a, 0, a.len());
    }
    let stop: usize = a.len() - p.len();
    let mut start: usize = 0;
    let mut i: usize = 0;
    while i <= stop
        invariant
            a@ == s@,
            p@ == pattern@,
            p.len() > 0,
            stop + p.len() == a.len(),
            start <= i,
            start <= a.len(),
            after_last_match(s@, pattern@) == after_last_match(a@.skip(start as int), p@),
            forall|j: int| start <= j < i ==> !occurs_at(a@, p@, j),
        decreases a.len() - i,
    {
        if matches_at(&a, &p, i) {
            proof {
                lemma_search_goes_on(a@, p@, start as int, i as int);
            }
            start = i + p.len();
            i = start;
        } else {
            i += 1;
        }
    }
    proof {
        lemma_search_ends(a@, p@, start as int);
    }
    let out = string_of(&a, start, a.len());
    out
}

} // verus!
