//! Text helpers shared by the modules: comparison, decimal numbers, searching,
//! splitting and joining, and the case and white-space rules of the standard library.

use vstd::prelude::*;
use vstd::string::*;

verus! {

broadcast use vstd::string::group_string_axioms;

/// What `str::to_lowercase` returns for a text.
pub uninterp spec fn lowercase_of(s: Seq<char>) -> Seq<char>;

/// What `str::to_uppercase` returns for a text.
pub uninterp spec fn uppercase_of(s: Seq<char>) -> Seq<char>;

/// Whether `char::is_whitespace` holds of a character.
pub uninterp spec fn is_whitespace_char(c: char) -> bool;

/// Calls `str::to_lowercase`. Trusted: the result is named `lowercase_of`; it
/// depends on the text alone (the Unicode lower-case mapping).
#[verifier::external_body]
pub(crate) fn lowercase(s: &str) -> (r: String)
    ensures
        r@ == lowercase_of(s@),
{
    s.to_lowercase()
}

/// Calls `str::to_uppercase`. Trusted: the result is named `uppercase_of`; it
/// depends on the text alone (the Unicode upper-case mapping).
#[verifier::external_body]
pub(crate) fn uppercase(s: &str) -> (r: String)
    ensures
        r@ == uppercase_of(s@),
{
    s.to_uppercase()
}

/// Calls `char::is_whitespace`. Trusted: the result is named `is_whitespace_char`;
/// it depends on the character alone (the Unicode `White_Space` property).
#[verifier::external_body]
pub(crate) fn is_whitespace(c: char) -> (r: bool)
    ensures
        r == is_whitespace_char(c),
{
    c.is_whitespace()
}

/// Collects characters into a `String` with `String::from_iter`. Trusted: the
/// string holds exactly the characters of `v`, in order.
#[verifier::external_body]
pub(crate) fn string_of(v: &Vec<char>) -> (r: String)
    ensures
        r@ == v@,
{
    String::from_iter(v.iter())
}

/// The characters of `s`, in order.
pub fn chars_of(s: &str) -> (r: Vec<char>)
    ensures
        r@ == s@,
{
    let n = s.unicode_len();
    let mut out: Vec<char> = Vec::new();
    let mut i: usize = 0;
    while i < n
        invariant
            n == s@.len(),
            i <= n,
            out@ == s@.subrange(0, i as int),
        decreases n - i,
    {
        out.push(s.get_char(i));
        i = i + 1;
        assert(out@ =~= s@.subrange(0, i as int));
    }
    assert(out@ =~= s@);
    out
}

/// Whether two texts hold the same characters.
pub fn same(a: &str, b: &str) -> (r: bool)
    ensures
        r == (a@ == b@),
{
    let x = String::from_str(a);
    let y = String::from_str(b);
    x == y
}

/// An owned copy of a text.
pub fn owned(s: &str) -> (r: String)
    ensures
        r@ == s@,
{
    String::from_str(s)
}

/// The decimal digit for `d`; `'0'` where `d` is no digit.
pub open spec fn digit_char(d: nat) -> char {
    if d == 1 {
        '1'
    } else if d == 2 {
        '2'
    } else if d == 3 {
        '3'
    } else if d == 4 {
        '4'
    } else if d == 5 {
        '5'
    } else if d == 6 {
        '6'
    } else if d == 7 {
        '7'
    } else if d == 8 {
        '8'
    } else if d == 9 {
        '9'
    } else {
        '0'
    }
}

/// The decimal notation of `n`, without sign or leading zeros.
pub open spec fn decimal_digits(n: nat) -> Seq<char>
    decreases n,
{
    if n < 10 {
        seq![digit_char(n)]
    } else {
        decimal_digits(n / 10).push(digit_char(n % 10))
    }
}

fn digit(d: u64) -> (c: char)
    requires
        d < 10,
    ensures
        c == digit_char(d as nat),
{
    if d == 1 {
        '1'
    } else if d == 2 {
        '2'
    } else if d == 3 {
        '3'
    } else if d == 4 {
        '4'
    } else if d == 5 {
        '5'
    } else if d == 6 {
        '6'
    } else if d == 7 {
        '7'
    } else if d == 8 {
        '8'
    } else if d == 9 {
        '9'
    } else {
        '0'
    }
}

fn push_decimal(out: &mut Vec<char>, n: u64)
    ensures
        final(out)@ == old(out)@ + decimal_digits(n as nat),
    decreases n,
{
    if n >= 10 {
        push_decimal(out, n / 10);
    }
    out.push(digit(n % 10));
    assert(final(out)@ =~= old(out)@ + decimal_digits(n as nat));
}

/// Writes `n` in decimal notation.
pub fn decimal(n: usize) -> (r: String)
    ensures
        r@ == decimal_digits(n as nat),
{
    decimal_u64(n as u64)
}

/// Writes `n` in decimal notation.
pub fn decimal_u64(n: u64) -> (r: String)
    ensures
        r@ == decimal_digits(n as nat),
{
    let mut out: Vec<char> = Vec::new();
    push_decimal(&mut out, n);
    assert(out@ =~= decimal_digits(n as nat));
    string_of(&out)
}

/// The decimal notation of `n`, with a minus sign where it is negative.
pub open spec fn signed_digits(n: int) -> Seq<char> {
    if n < 0 {
        seq!['-'] + decimal_digits((-n) as nat)
    } else {
        decimal_digits(n as nat)
    }
}

/// Writes `n` in decimal notation, with a minus sign where it is negative.
pub fn signed_decimal(n: i64) -> (r: String)
    ensures
        r@ == signed_digits(n as int),
{
    let mut out: Vec<char> = Vec::new();
    if n < 0 {
        out.push('-');
        let magnitude: u64 = (0 - n as i128) as u64;
        push_decimal(&mut out, magnitude);
        assert(out@ =~= seq!['-'] + decimal_digits((-n) as nat));
    } else {
        push_decimal(&mut out, n as u64);
        assert(out@ =~= decimal_digits(n as nat));
    }
    string_of(&out)
}

/// A copy of an optional text.
pub fn copied(text: &Option<String>) -> (r: Option<String>)
    ensures
        r == *text,
{
    match text {
        Some(t) => Some(t.clone()),
        None => None,
    }
}

/// Copies of the texts of a list.
pub fn copies(names: &Vec<String>) -> (r: Vec<String>)
    ensures
        texts(r@) == texts(names@),
{
    let mut out: Vec<String> = Vec::new();
    let mut i: usize = 0;
    while i < names.len()
        invariant
            i <= names.len(),
            out@.len() == i,
            forall|k: int| 0 <= k < i ==> (#[trigger] out@[k])@ == names@[k]@,
        decreases names.len() - i,
    {
        out.push(names[i].clone());
        i = i + 1;
    }
    assert(texts(out@) =~= texts(names@));
    out
}

/// Whether `needle` occurs in `hay` at position `at`.
pub open spec fn occurs_at(hay: Seq<char>, needle: Seq<char>, at: int) -> bool {
    0 <= at && at + needle.len() <= hay.len() && hay.subrange(at, at + needle.len()) == needle
}

/// Whether `needle` occurs somewhere in `hay`. The empty text occurs in every text.
pub open spec fn is_substring(hay: Seq<char>, needle: Seq<char>) -> bool {
    exists|at: int| occurs_at(hay, needle, at)
}

/// Whether `hay` begins with `prefix`.
pub open spec fn has_prefix(hay: Seq<char>, prefix: Seq<char>) -> bool {
    occurs_at(hay, prefix, 0)
}

fn matches_at(hay: &Vec<char>, needle: &Vec<char>, at: usize) -> (r: bool)
    requires
        at + needle.len() <= hay.len(),
    ensures
        r == occurs_at(hay@, needle@, at as int),
{
    let mut j: usize = 0;
    while j < needle.len()
        invariant
            at + needle.len() <= hay.len(),
            j <= needle.len(),
            forall|k: int| 0 <= k < j ==> hay@[at + k] == needle@[k],
        decreases needle.len() - j,
    {
        if hay[at + j] != needle[j] {
            proof {
                let sub = hay@.subrange(at as int, at + needle.len());
                assert(sub[j as int] == hay@[at + j]);
            }
            return false;
        }
        j = j + 1;
    }
    assert(hay@.subrange(at as int, at + needle.len()) =~= needle@);
    true
}

/// Whether `needle` occurs in `hay`, as `str::contains` decides it for a text pattern.
pub fn contains(hay: &str, needle: &str) -> (r: bool)
    ensures
        r == is_substring(hay@, needle@),
{
    let h = chars_of(hay);
    let n = chars_of(needle);
    if n.len() > h.len() {
        return false;
    }
    let last = h.len() - n.len();
    let mut at: usize = 0;
    while at < last
        invariant
            last == h.len() - n.len(),
            n.len() <= h.len(),
            at <= last,
            h@ == hay@,
            n@ == needle@,
            forall|k: int| 0 <= k < at ==> !occurs_at(h@, n@, k),
        decreases last - at,
    {
        if matches_at(&h, &n, at) {
            return true;
        }
        at = at + 1;
    }
    matches_at(&h, &n, last)
}

/// Whether `hay` begins with `prefix`, as `str::starts_with` decides it for a text pattern.
pub fn starts_with(hay: &str, prefix: &str) -> (r: bool)
    ensures
        r == has_prefix(hay@, prefix@),
{
    let h = chars_of(hay);
    let p = chars_of(prefix);
    if p.len() > h.len() {
        return false;
    }
    matches_at(&h, &p, 0)
}

/// `parts` joined with `sep` between neighbours.
pub open spec fn joined(parts: Seq<Seq<char>>, sep: Seq<char>) -> Seq<char>
    decreases parts.len(),
{
    if parts.len() == 0 {
        Seq::empty()
    } else if parts.len() == 1 {
        parts[0]
    } else {
        joined(parts.drop_last(), sep) + sep + parts.last()
    }
}

/// The texts of a vector of strings.
pub open spec fn texts(v: Seq<String>) -> Seq<Seq<char>> {
    Seq::new(v.len(), |i: int| v[i]@)
}

/// Joins `parts` with `sep` between neighbours.
pub fn join(parts: &Vec<String>, sep: &str) -> (r: String)
    ensures
        r@ == joined(texts(parts@), sep@),
{
    let mut out = String::new();
    let mut i: usize = 0;
    while i < parts.len()
        invariant
            i <= parts.len(),
            out@ == joined(texts(parts@).subrange(0, i as int), sep@),
        decreases parts.len() - i,
    {
        let ghost before = texts(parts@).subrange(0, i as int);
        let ghost after = texts(parts@).subrange(0, i + 1);
        if i > 0 {
            out.append(sep);
        }
        out.append(parts[i].as_str());
        proof {
            assert(after.drop_last() =~= before);
            assert(after.last() == parts@[i as int]@);
            if i == 0 {
                assert(out@ =~= parts@[0]@);
            }
        }
        i = i + 1;
    }
    assert(texts(parts@).subrange(0, parts.len() as int) =~= texts(parts@));
    out
}

/// The number of white-space characters at the start of `s`.
pub open spec fn leading_whitespace(s: Seq<char>) -> nat
    decreases s.len(),
{
    if s.len() > 0 && is_whitespace_char(s[0]) {
        1 + leading_whitespace(s.drop_first())
    } else {
        0
    }
}

/// The number of white-space characters at the end of `s`.
pub open spec fn trailing_whitespace(s: Seq<char>) -> nat
    decreases s.len(),
{
    if s.len() > 0 && is_whitespace_char(s.last()) {
        1 + trailing_whitespace(s.drop_last())
    } else {
        0
    }
}

/// `s` without the white space at its start and at its end.
pub open spec fn trimmed(s: Seq<char>) -> Seq<char> {
    let lead = leading_whitespace(s);
    if lead == s.len() {
        Seq::empty()
    } else {
        s.subrange(lead as int, s.len() - trailing_whitespace(s))
    }
}

proof fn lemma_leading_bound(s: Seq<char>)
    ensures
        leading_whitespace(s) <= s.len(),
    decreases s.len(),
{
    if s.len() > 0 && is_whitespace_char(s[0]) {
        lemma_leading_bound(s.drop_first());
    }
}

proof fn lemma_leading_step(s: Seq<char>, k: int)
    requires
        0 <= k <= s.len(),
        forall|j: int| 0 <= j < k ==> is_whitespace_char(s[j]),
    ensures
        leading_whitespace(s) == k + leading_whitespace(s.subrange(k, s.len() as int)),
    decreases k,
{
    if k == 0 {
        assert(s.subrange(0, s.len() as int) =~= s);
    } else {
        lemma_leading_step(s.drop_first(), k - 1);
        assert(s.drop_first().subrange(k - 1, s.len() - 1) =~= s.subrange(k, s.len() as int));
    }
}

proof fn lemma_trailing_step(s: Seq<char>, k: int)
    requires
        0 <= k <= s.len(),
        forall|j: int| s.len() - k <= j < s.len() ==> is_whitespace_char(s[j]),
    ensures
        trailing_whitespace(s) == k + trailing_whitespace(s.subrange(0, s.len() - k)),
    decreases k,
{
    if k == 0 {
        assert(s.subrange(0, s.len() as int) =~= s);
    } else {
        lemma_trailing_step(s.drop_last(), k - 1);
        assert(s.drop_last().subrange(0, s.len() - 1 - (k - 1)) =~= s.subrange(0, s.len() - k));
    }
}

/// Removes the white space at both ends, as `str::trim` does.
pub fn trim(s: &str) -> (r: String)
    ensures
        r@ == trimmed(s@),
{
    let v = chars_of(s);
    let n = v.len();
    let mut lead: usize = 0;
    while lead < n && is_whitespace(v[lead])
        invariant
            n == v.len(),
            lead <= n,
            forall|j: int| 0 <= j < lead ==> is_whitespace_char(v@[j]),
        decreases n - lead,
    {
        lead = lead + 1;
    }
    proof {
        lemma_leading_step(v@, lead as int);
    }
    if lead == n {
        assert(v@.subrange(n as int, n as int) =~= Seq::<char>::empty());
        return String::new();
    }
    let mut end: usize = n;
    while end > lead && is_whitespace(v[end - 1])
        invariant
            n == v.len(),
            lead < n,
            lead <= end <= n,
            !is_whitespace_char(v@[lead as int]),
            forall|j: int| end <= j < n ==> is_whitespace_char(v@[j]),
        decreases end,
    {
        end = end - 1;
    }
    proof {
        lemma_trailing_step(v@, n - end);
        assert(end > lead);
        let rest = v@.subrange(0, end as int);
        assert(rest.last() == v@[end - 1]);
        assert(v@.subrange(lead as int, n as int)[0] == v@[lead as int]);
    }
    let mut out: Vec<char> = Vec::new();
    let mut i: usize = lead;
    while i < end
        invariant
            lead <= i <= end <= v.len(),
            out@ == v@.subrange(lead as int, i as int),
        decreases end - i,
    {
        out.push(v[i]);
        i = i + 1;
        assert(out@ =~= v@.subrange(lead as int, i as int));
    }
    string_of(&out)
}

/// The number of characters equal to `c` at the end of `s`.
pub open spec fn trailing_run(s: Seq<char>, c: char) -> nat
    decreases s.len(),
{
    if s.len() > 0 && s.last() == c {
        1 + trailing_run(s.drop_last(), c)
    } else {
        0
    }
}

/// `s` without the run of `c` at its end.
pub open spec fn without_trailing(s: Seq<char>, c: char) -> Seq<char> {
    s.subrange(0, s.len() - trailing_run(s, c))
}

proof fn lemma_trailing_run_step(s: Seq<char>, c: char, k: int)
    requires
        0 <= k <= s.len(),
        forall|j: int| s.len() - k <= j < s.len() ==> s[j] == c,
    ensures
        trailing_run(s, c) == k + trailing_run(s.subrange(0, s.len() - k), c),
    decreases k,
{
    if k == 0 {
        assert(s.subrange(0, s.len() as int) =~= s);
    } else {
        lemma_trailing_run_step(s.drop_last(), c, k - 1);
        assert(s.drop_last().subrange(0, s.len() - 1 - (k - 1)) =~= s.subrange(0, s.len() - k));
    }
}

/// Removes every `c` at the end of `s`, as `str::trim_end_matches` does for a
/// character pattern.
pub fn trim_end_matches(s: &str, c: char) -> (r: String)
    ensures
        r@ == without_trailing(s@, c),
{
    let v = chars_of(s);
    let n = v.len();
    let mut end: usize = n;
    while end > 0 && v[end - 1] == c
        invariant
            n == v.len(),
            end <= n,
            forall|j: int| end <= j < n ==> v@[j] == c,
        decreases end,
    {
        end = end - 1;
    }
    proof {
        lemma_trailing_run_step(v@, c, n - end);
        let rest = v@.subrange(0, end as int);
        if end > 0 {
            assert(rest.last() == v@[end - 1]);
        }
    }
    let mut out: Vec<char> = Vec::new();
    let mut i: usize = 0;
    while i < end
        invariant
            i <= end <= v.len(),
            out@ == v@.subrange(0, i as int),
        decreases end - i,
    {
        out.push(v[i]);
        i = i + 1;
        assert(out@ =~= v@.subrange(0, i as int));
    }
    string_of(&out)
}

/// The pieces of `s` between occurrences of `sep`. A text without `sep` is one
/// piece; a separator at either end leaves an empty piece there.
pub open spec fn split_on(s: Seq<char>, sep: char) -> Seq<Seq<char>>
    decreases s.len(),
{
    if s.len() == 0 {
        seq![Seq::<char>::empty()]
    } else {
        let before = split_on(s.drop_last(), sep);
        if s.last() == sep {
            before.push(Seq::<char>::empty())
        } else {
            before.drop_last().push(before.last().push(s.last()))
        }
    }
}

/// A split text has at least one piece.
pub proof fn lemma_split_nonempty(s: Seq<char>, sep: char)
    ensures
        split_on(s, sep).len() >= 1,
    decreases s.len(),
{
    if s.len() > 0 {
        lemma_split_nonempty(s.drop_last(), sep);
    }
}

/// Splits `s` at every `sep`, as `str::split` does for a character pattern.
pub fn split(s: &str, sep: char) -> (r: Vec<String>)
    ensures
        texts(r@) == split_on(s@, sep),
        r@.len() >= 1,
{
    let v = chars_of(s);
    let mut parts: Vec<String> = Vec::new();
    let mut current: Vec<char> = Vec::new();
    let mut i: usize = 0;
    assert(v@.subrange(0, 0) =~= Seq::<char>::empty());
    assert(texts(parts@).push(current@) =~= seq![Seq::<char>::empty()]);
    while i < v.len()
        invariant
            i <= v.len(),
            split_on(v@.subrange(0, i as int), sep) == texts(parts@).push(current@),
        decreases v.len() - i,
    {
        let ghost prefix = v@.subrange(0, i as int);
        let ghost next = v@.subrange(0, i + 1);
        let ghost done = texts(parts@);
        let ghost cur = current@;
        let c = v[i];
        assert(next.drop_last() =~= prefix);
        assert(next.last() == c);
        if c == sep {
            parts.push(string_of(&current));
            current = Vec::new();
            assert(texts(parts@) =~= done.push(cur));
        } else {
            current.push(c);
            assert(done.push(cur).drop_last() =~= done);
        }
        i = i + 1;
    }
    assert(v@.subrange(0, v.len() as int) =~= v@);
    let ghost done = texts(parts@);
    parts.push(string_of(&current));
    assert(texts(parts@) =~= done.push(current@));
    parts
}

/// The position of the first occurrence of `needle` in `hay`, or -1.
#[verifier::opaque]
pub open spec fn first_occurrence(hay: Seq<char>, needle: Seq<char>) -> int {
    if is_substring(hay, needle) {
        choose|at: int| occurs_at(hay, needle, at) && forall|k: int| 0 <= k < at ==> !occurs_at(hay, needle, k)
    } else {
        -1
    }
}

/// The first occurrence is an occurrence, and no occurrence comes before it.
pub proof fn lemma_first_occurrence(hay: Seq<char>, needle: Seq<char>, at: int)
    requires
        occurs_at(hay, needle, at),
        forall|k: int| 0 <= k < at ==> !occurs_at(hay, needle, k),
    ensures
        first_occurrence(hay, needle) == at,
{
    reveal(first_occurrence);
    let found = first_occurrence(hay, needle);
    assert(occurs_at(hay, needle, found) && forall|k: int|
        0 <= k < found ==> !occurs_at(hay, needle, k));
    if found < at {
        assert(!occurs_at(hay, needle, found));
    } else if at < found {
        assert(!occurs_at(hay, needle, at));
    }
}

/// The position, counted in characters, of the first occurrence of `needle`.
pub fn find(hay: &Vec<char>, needle: &Vec<char>) -> (r: Option<usize>)
    ensures
        match r {
            Some(at) => at == first_occurrence(hay@, needle@) && at + needle@.len() <= hay@.len(),
            None => first_occurrence(hay@, needle@) == -1 && !is_substring(hay@, needle@),
        },
{
    if needle.len() > hay.len() {
        proof {
            reveal(first_occurrence);
        }
        return None;
    }
    let last = hay.len() - needle.len();
    let mut at: usize = 0;
    while at < last
        invariant
            last == hay.len() - needle.len(),
            needle.len() <= hay.len(),
            at <= last,
            forall|k: int| 0 <= k < at ==> !occurs_at(hay@, needle@, k),
        decreases last - at,
    {
        if matches_at(hay, needle, at) {
            proof {
                lemma_first_occurrence(hay@, needle@, at as int);
            }
            return Some(at);
        }
        at = at + 1;
    }
    if matches_at(hay, needle, last) {
        proof {
            lemma_first_occurrence(hay@, needle@, last as int);
        }
        Some(last)
    } else {
        proof {
            reveal(first_occurrence);
        }
        None
    }
}

/// The characters of `v` from `from` up to `to`, as a string.
pub fn slice_of(v: &Vec<char>, from: usize, to: usize) -> (r: String)
    requires
        from <= to <= v@.len(),
    ensures
        r@ == v@.subrange(from as int, to as int),
{
    let mut out: Vec<char> = Vec::new();
    let mut i: usize = from;
    while i < to
        invariant
            from <= i <= to <= v.len(),
            out@ == v@.subrange(from as int, i as int),
        decreases to - i,
    {
        out.push(v[i]);
        i = i + 1;
        assert(out@ =~= v@.subrange(from as int, i as int));
    }
    string_of(&out)
}

} // verus!
