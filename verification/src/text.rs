//! Text as sequences of characters.
//!
//! The spec functions say what each operation gives, over `Seq<char>`.
//! The executable functions work on slices of characters, so that cutting a
//! piece out of a longer text never copies it.
use vstd::prelude::*;
use vstd::slice::slice_subrange;

verus! {

/// `String::push` appends the character to the end of the string.
pub assume_specification[ String::push ](s: &mut String, c: char)
    ensures
        final(s)@ == old(s)@.push(c),
;

/// The texts of a list of owned strings.
pub open spec fn texts(list: Seq<String>) -> Seq<Seq<char>> {
    list.map_values(|s: String| s@)
}

/// The texts of a list of character slices.
pub open spec fn pieces(list: Seq<&[char]>) -> Seq<Seq<char>> {
    list.map_values(|s: &[char]| s@)
}

/// The text of an optional string.
pub open spec fn text_option(s: Option<String>) -> Option<Seq<char>> {
    match s {
        Some(t) => Some(t@),
        None => None,
    }
}

/// The characters with the Unicode property `White_Space`.
pub open spec fn is_white_space(c: char) -> bool {
    ||| '\u{9}' <= c <= '\u{d}'
    ||| c == ' '
    ||| c == '\u{85}'
    ||| c == '\u{a0}'
    ||| c == '\u{1680}'
    ||| '\u{2000}' <= c <= '\u{200a}'
    ||| c == '\u{2028}'
    ||| c == '\u{2029}'
    ||| c == '\u{202f}'
    ||| c == '\u{205f}'
    ||| c == '\u{3000}'
}

/// `s` without its leading white space.
pub open spec fn trimmed_start(s: Seq<char>) -> Seq<char>
    decreases s.len(),
{
    if s.len() > 0 && is_white_space(s[0]) {
        trimmed_start(s.skip(1))
    } else {
        s
    }
}

/// `s` without its trailing white space.
pub open spec fn trimmed_end(s: Seq<char>) -> Seq<char>
    decreases s.len(),
{
    if s.len() > 0 && is_white_space(s.last()) {
        trimmed_end(s.drop_last())
    } else {
        s
    }
}

/// `s` without the white space at either end.
pub open spec fn trimmed(s: Seq<char>) -> Seq<char> {
    trimmed_end(trimmed_start(s))
}

/// `s` is white space only.
pub open spec fn is_blank(s: Seq<char>) -> bool {
    trimmed(s).len() == 0
}

/// `s` begins with `prefix`.
pub open spec fn starts_with(s: Seq<char>, prefix: Seq<char>) -> bool {
    prefix.len() <= s.len() && s.take(prefix.len() as int) == prefix
}

/// `s` ends with `suffix`.
pub open spec fn ends_with(s: Seq<char>, suffix: Seq<char>) -> bool {
    suffix.len() <= s.len() && s.skip(s.len() - suffix.len()) == suffix
}

/// The first character of `s` is `c`.
pub open spec fn starts_with_char(s: Seq<char>, c: char) -> bool {
    s.len() > 0 && s[0] == c
}

/// `part` occurs in `s` at position `at`.
pub open spec fn occurs_at(s: Seq<char>, part: Seq<char>, at: int) -> bool {
    0 <= at && at + part.len() <= s.len() && s.subrange(at, at + part.len()) == part
}

/// `part` occurs somewhere in `s`.
pub open spec fn has_part(s: Seq<char>, part: Seq<char>) -> bool {
    exists|at: int| occurs_at(s, part, at)
}

/// `s` with every repetition of `suffix` taken off its end.
pub open spec fn without_suffixes(s: Seq<char>, suffix: Seq<char>) -> Seq<char>
    decreases s.len(),
{
    if suffix.len() > 0 && ends_with(s, suffix) {
        without_suffixes(s.take(s.len() - suffix.len()), suffix)
    } else {
        s
    }
}

/// `s` with every repetition of `prefix` taken off its start.
pub open spec fn without_prefixes(s: Seq<char>, prefix: Seq<char>) -> Seq<char>
    decreases s.len(),
{
    if prefix.len() > 0 && starts_with(s, prefix) {
        without_prefixes(s.skip(prefix.len() as int), prefix)
    } else {
        s
    }
}

/// How many characters of `s` stand before the first `c`: all of them, when
/// there is none.
pub open spec fn before(s: Seq<char>, c: char) -> nat
    decreases s.len(),
{
    if s.len() == 0 || s[0] == c {
        0
    } else {
        1 + before(s.skip(1), c)
    }
}

/// The pieces of `s` between the occurrences of `c`.
pub open spec fn fields(s: Seq<char>, c: char) -> Seq<Seq<char>>
    decreases s.len(),
    via fields_decreases
{
    let i = before(s, c) as int;
    if i >= s.len() {
        seq![s]
    } else {
        seq![s.take(i)] + fields(s.skip(i + 1), c)
    }
}

#[via_fn]
proof fn fields_decreases(s: Seq<char>, c: char) {
}

/// The first `n - 1` pieces of `s` between occurrences of `c`, and the rest of
/// `s` as the last piece.
pub open spec fn fields_up_to(s: Seq<char>, c: char, n: nat) -> Seq<Seq<char>>
    decreases n,
{
    let i = before(s, c) as int;
    if n <= 1 || i >= s.len() {
        seq![s]
    } else {
        seq![s.take(i)] + fields_up_to(s.skip(i + 1), c, (n - 1) as nat)
    }
}

/// The piece of `s` after the last `c`: all of `s`, when there is none.
pub open spec fn last_field(s: Seq<char>, c: char) -> Seq<char>
    decreases s.len(),
{
    if s.len() == 0 || s.last() == c {
        Seq::empty()
    } else {
        last_field(s.drop_last(), c).push(s.last())
    }
}

/// `line` without the carriage return that ends it.
pub open spec fn without_return(line: Seq<char>) -> Seq<char> {
    if line.len() > 0 && line.last() == '\r' {
        line.drop_last()
    } else {
        line
    }
}

/// The lines of `s`. A line ends at a line feed, with or without a carriage
/// return before it; the ending of the last line is optional.
pub open spec fn lines_of(s: Seq<char>) -> Seq<Seq<char>>
    decreases s.len(),
    via lines_of_decreases
{
    let i = before(s, '\n') as int;
    if s.len() == 0 {
        Seq::empty()
    } else if i >= s.len() {
        seq![s]
    } else {
        seq![without_return(s.take(i))] + lines_of(s.skip(i + 1))
    }
}

#[via_fn]
proof fn lines_of_decreases(s: Seq<char>) {
}

/// The texts of a list that are not blank, without the white space around them.
pub open spec fn nonblank(list: Seq<Seq<char>>) -> Seq<Seq<char>>
    decreases list.len(),
{
    if list.len() == 0 {
        Seq::empty()
    } else {
        let rest = nonblank(list.drop_last());
        if is_blank(list.last()) {
            rest
        } else {
            rest.push(trimmed(list.last()))
        }
    }
}

/// Lines, each with the line feed that ends it.
pub open spec fn printed(lines: Seq<Seq<char>>) -> Seq<char>
    decreases lines.len(),
{
    if lines.len() == 0 {
        Seq::empty()
    } else {
        lines[0] + seq!['\n'] + printed(lines.skip(1))
    }
}

/// A text that is one line when it is printed: it holds no line feed, and no
/// carriage return ends it.
pub open spec fn is_line(s: Seq<char>) -> bool {
    !s.contains('\n') && (s.len() > 0 ==> s.last() != '\r')
}

/// The texts of `parts` one after the other, with `sep` between neighbours.
pub open spec fn joined(parts: Seq<Seq<char>>, sep: Seq<char>) -> Seq<char>
    decreases parts.len(),
{
    if parts.len() == 0 {
        Seq::empty()
    } else if parts.len() == 1 {
        parts[0]
    } else {
        joined(parts.drop_last(), sep) + sep + parts.last()
    }
}

/// `s` with every `c` replaced by `by`.
pub open spec fn replaced(s: Seq<char>, c: char, by: Seq<char>) -> Seq<char>
    decreases s.len(),
{
    if s.len() == 0 {
        Seq::empty()
    } else {
        replaced(s.drop_last(), c, by) + if s.last() == c {
            by
        } else {
            seq![s.last()]
        }
    }
}

/// The decimal digit for `d`.
pub open spec fn digit(d: nat) -> char {
    if d == 0 {
        '0'
    } else if d == 1 {
        '1'
    } else if d == 2 {
        '2'
    } else if d == 3 {
        '3'
    } else if d == 4 {
        '4'
    } else if d == 5 {
        '5'
    } else if d == 6 {
        '6'
    } else if d == 7 {
        '7'
    } else if d == 8 {
        '8'
    } else {
        '9'
    }
}

/// `n` in decimal, without leading zeros.
pub open spec fn decimal(n: nat) -> Seq<char>
    decreases n,
{
    if n < 10 {
        seq![digit(n)]
    } else {
        decimal(n / 10).push(digit(n % 10))
    }
}

/// The number that a decimal digit stands for.
pub open spec fn digit_value(c: char) -> nat {
    (c as int - '0' as int) as nat
}

/// Every character of `s` is a decimal digit, and there is at least one.
pub open spec fn is_number(s: Seq<char>) -> bool {
    s.len() > 0 && forall|i: int| 0 <= i < s.len() ==> '0' <= #[trigger] s[i] <= '9'
}

/// The number that a row of decimal digits stands for.
pub open spec fn number_value(s: Seq<char>) -> nat
    decreases s.len(),
{
    if s.len() == 0 {
        0
    } else {
        number_value(s.drop_last()) * 10 + digit_value(s.last())
    }
}

/// The digits of `s`: all of it but one leading plus sign.
pub open spec fn unsigned_digits(s: Seq<char>) -> Seq<char> {
    if starts_with_char(s, '+') {
        s.skip(1)
    } else {
        s
    }
}

/// The 16-bit number that `s` writes in decimal.
pub open spec fn parsed_u16(s: Seq<char>) -> Option<u16> {
    let d = unsigned_digits(s);
    if is_number(d) && number_value(d) <= u16::MAX {
        Some(number_value(d) as u16)
    } else {
        None
    }
}

/// The characters of `s`, in order.
pub fn chars_of(s: &str) -> (r: Vec<char>)
    ensures
        r@ == s@,
{
    let mut r: Vec<char> = Vec::new();
    for c in it: s.chars()
        invariant
            it.seq() == s@,
            r@ == s@.take(it.index() as int),
    {
        r.push(c);
    }
    r
}

/// Appends characters to a string.
pub fn push_chars(out: &mut String, cs: &[char])
    ensures
        final(out)@ == old(out)@ + cs@,
{
    let n: usize = cs.len();
    for i in 0..n
        invariant
            n == cs@.len(),
            out@ == old(out)@ + cs@.take(i as int),
    {
        out.push(cs[i]);
        assert(cs@.take(i + 1) == cs@.take(i as int).push(cs@[i as int]));
    }
    assert(cs@.take(n as int) == cs@);
}

/// The string made of the characters `cs`.
pub fn text_of(cs: &[char]) -> (r: String)
    ensures
        r@ == cs@,
{
    let mut r = String::new();
    push_chars(&mut r, cs);
    r
}

/// Appends a text to a string.
pub fn push_text(out: &mut String, s: &str)
    ensures
        final(out)@ == old(out)@ + s@,
{
    push_chars(out, chars_of(s).as_slice());
}

/// Whether two rows of characters are the same.
pub fn same(a: &[char], b: &[char]) -> (r: bool)
    ensures
        r == (a@ == b@),
{
    if a.len() != b.len() {
        return false;
    }
    let n: usize = a.len();
    for i in 0..n
        invariant
            n == a@.len(),
            n == b@.len(),
            a@.take(i as int) == b@.take(i as int),
    {
        if a[i] != b[i] {
            return false;
        }
        assert(a@.take(i + 1) == a@.take(i as int).push(a@[i as int]));
        assert(b@.take(i + 1) == b@.take(i as int).push(b@[i as int]));
    }
    assert(a@.take(n as int) == a@);
    assert(b@.take(n as int) == b@);
    true
}

/// Whether two texts are the same.
pub fn same_text(a: &str, b: &str) -> (r: bool)
    ensures
        r == (a@ == b@),
{
    same(chars_of(a).as_slice(), chars_of(b).as_slice())
}

/// Whether `c` is white space.
pub fn white_space(c: char) -> (r: bool)
    ensures
        r == is_white_space(c),
{
    ('\u{9}' <= c && c <= '\u{d}') || c == ' ' || c == '\u{85}' || c == '\u{a0}' || c == '\u{1680}'
        || ('\u{2000}' <= c && c <= '\u{200a}') || c == '\u{2028}' || c == '\u{2029}' || c
        == '\u{202f}' || c == '\u{205f}' || c == '\u{3000}'
}

/// Cuts off the leading white space.
pub fn trim_start(s: &[char]) -> (r: &[char])
    ensures
        r@ == trimmed_start(s@),
{
    let n: usize = s.len();
    let mut i: usize = 0;
    assert(s@.skip(0) == s@);
    while i < n && white_space(s[i])
        invariant
            i <= n,
            n == s@.len(),
            trimmed_start(s@) == trimmed_start(s@.skip(i as int)),
        decreases n - i,
    {
        assert(s@.skip(i as int).skip(1) == s@.skip(i + 1));
        i = i + 1;
    }
    slice_subrange(s, i, n)
}

/// Cuts off the trailing white space.
pub fn trim_end(s: &[char]) -> (r: &[char])
    ensures
        r@ == trimmed_end(s@),
{
    let mut n: usize = s.len();
    assert(s@.take(n as int) == s@);
    while n > 0 && white_space(s[n - 1])
        invariant
            n <= s@.len(),
            trimmed_end(s@) == trimmed_end(s@.take(n as int)),
        decreases n,
    {
        assert(s@.take(n as int).drop_last() == s@.take(n - 1));
        n = n - 1;
    }
    slice_subrange(s, 0, n)
}

/// Cuts off the white space at both ends.
pub fn trim(s: &[char]) -> (r: &[char])
    ensures
        r@ == trimmed(s@),
{
    trim_end(trim_start(s))
}

/// Whether `s` begins with `prefix`.
pub fn begins(s: &[char], prefix: &[char]) -> (r: bool)
    ensures
        r == starts_with(s@, prefix@),
{
    prefix.len() <= s.len() && same(slice_subrange(s, 0, prefix.len()), prefix)
}

/// Whether `s` ends with `suffix`.
pub fn ends(s: &[char], suffix: &[char]) -> (r: bool)
    ensures
        r == ends_with(s@, suffix@),
{
    suffix.len() <= s.len() && same(slice_subrange(s, s.len() - suffix.len(), s.len()), suffix)
}

/// Whether the first character of `s` is `c`.
pub fn begins_char(s: &[char], c: char) -> (r: bool)
    ensures
        r == starts_with_char(s@, c),
{
    s.len() > 0 && s[0] == c
}

/// Whether `c` occurs in `s`.
pub fn has_char(s: &[char], c: char) -> (r: bool)
    ensures
        r == s@.contains(c),
{
    let n: usize = s.len();
    for i in 0..n
        invariant
            n == s@.len(),
            forall|j: int| 0 <= j < i ==> s@[j] != c,
    {
        if s[i] == c {
            return true;
        }
    }
    false
}

/// Whether `part` occurs in `s`.
pub fn contains(s: &[char], part: &[char]) -> (r: bool)
    ensures
        r == has_part(s@, part@),
{
    if part.len() > s.len() {
        return false;
    }
    let last: usize = s.len() - part.len();
    let mut i: usize = 0;
    while i <= last
        invariant
            last + part@.len() == s@.len(),
            i <= last + 1,
            s@.len() <= usize::MAX,
            forall|j: int| 0 <= j < i ==> !#[trigger] occurs_at(s@, part@, j),
        decreases last + 1 - i,
    {
        if same(slice_subrange(s, i, i + part.len()), part) {
            assert(occurs_at(s@, part@, i as int));
            return true;
        }
        assert(!occurs_at(s@, part@, i as int));
        if i == last {
            assert forall|j: int| !occurs_at(s@, part@, j) by {}
            return false;
        }
        i = i + 1;
    }
    false
}

/// Cuts every repetition of `suffix` off the end of `s`.
pub fn trim_end_matches<'a>(s: &'a [char], suffix: &[char]) -> (r: &'a [char])
    ensures
        r@ == without_suffixes(s@, suffix@),
{
    let mut n: usize = s.len();
    assert(s@.take(n as int) == s@);
    while suffix.len() > 0 && ends(slice_subrange(s, 0, n), suffix)
        invariant
            n <= s@.len(),
            without_suffixes(s@, suffix@) == without_suffixes(s@.take(n as int), suffix@),
        decreases n,
    {
        assert(s@.take(n as int).take(n - suffix@.len()) == s@.take(n - suffix@.len()));
        n = n - suffix.len();
    }
    slice_subrange(s, 0, n)
}

/// Cuts every repetition of `prefix` off the start of `s`.
pub fn trim_start_matches<'a>(s: &'a [char], prefix: &[char]) -> (r: &'a [char])
    ensures
        r@ == without_prefixes(s@, prefix@),
{
    let n: usize = s.len();
    let mut i: usize = 0;
    assert(s@.skip(0) == s@);
    while prefix.len() > 0 && begins(slice_subrange(s, i, n), prefix)
        invariant
            i <= n,
            n == s@.len(),
            without_prefixes(s@, prefix@) == without_prefixes(s@.skip(i as int), prefix@),
        decreases n - i,
    {
        assert(s@.subrange(i as int, n as int) == s@.skip(i as int));
        assert(s@.skip(i as int).skip(prefix@.len() as int) == s@.skip(i + prefix@.len()));
        i = i + prefix.len();
    }
    slice_subrange(s, i, n)
}

/// What [`before`] counts: nothing up to there is `c`, and `c` is there unless
/// the text ends.
pub proof fn lemma_before(s: Seq<char>, c: char)
    ensures
        before(s, c) <= s.len(),
        forall|j: int| 0 <= j < before(s, c) ==> s[j] != c,
        before(s, c) < s.len() ==> s[before(s, c) as int] == c,
        before(s, c) == s.len() <==> !s.contains(c),
    decreases s.len(),
{
    if s.len() == 0 || s[0] == c {
        if s.len() > 0 {
            assert(s.contains(c));
        }
    } else {
        let rest = s.skip(1);
        lemma_before(rest, c);
        assert forall|j: int| 0 <= j < before(s, c) implies s[j] != c by {
            if j > 0 {
                assert(s[j] == rest[j - 1]);
            }
        }
        if before(s, c) < s.len() {
            assert(s[before(s, c) as int] == rest[before(rest, c) as int]);
            assert(s.contains(c));
        } else {
            assert forall|j: int| 0 <= j < s.len() implies s[j] != c by {}
        }
    }
}

/// [`before`] is the only count with the properties of [`lemma_before`].
pub proof fn lemma_before_is(s: Seq<char>, c: char, i: int)
    requires
        0 <= i <= s.len(),
        forall|j: int| 0 <= j < i ==> s[j] != c,
        i < s.len() ==> s[i] == c,
    ensures
        before(s, c) == i,
{
    lemma_before(s, c);
    if before(s, c) < i {
        assert(s[before(s, c) as int] == c);
    }
}

/// The pieces of two texts with a separator between them are the pieces of the
/// one and then the pieces of the other.
pub proof fn lemma_fields_concat(a: Seq<char>, c: char, b: Seq<char>)
    ensures
        fields(a + seq![c] + b, c) == fields(a, c) + fields(b, c),
    decreases a.len(),
{
    let whole = a + seq![c] + b;
    let i = before(a, c) as int;
    lemma_before(a, c);
    assert forall|j: int| 0 <= j < i implies whole[j] != c by {
        assert(whole[j] == a[j]);
    }
    lemma_before_is(whole, c, i);
    if i < a.len() {
        let rest = a.skip(i + 1);
        lemma_fields_concat(rest, c, b);
        assert(whole.skip(i + 1) == rest + seq![c] + b);
        assert(whole.take(i) == a.take(i));
        assert(seq![a.take(i)] + (fields(rest, c) + fields(b, c)) == (seq![a.take(i)] + fields(
            rest,
            c,
        )) + fields(b, c));
    } else {
        assert(whole.skip(i + 1) == b);
        assert(whole.take(i) == a);
    }
}

/// A text without the separator is its only piece.
pub proof fn lemma_fields_single(s: Seq<char>, c: char)
    requires
        !s.contains(c),
    ensures
        fields(s, c) == seq![s],
{
    lemma_before(s, c);
}

/// A text that starts and ends with something else than white space is trimmed
/// already.
pub proof fn lemma_trimmed_already(s: Seq<char>)
    requires
        s.len() > 0 ==> !is_white_space(s[0]) && !is_white_space(s.last()),
    ensures
        trimmed(s) == s,
        trimmed_start(s) == s,
        trimmed_end(s) == s,
{
}

/// Trimming only takes something away.
pub proof fn lemma_trimmed_lengths(s: Seq<char>)
    ensures
        trimmed_start(s).len() <= s.len(),
        trimmed_end(s).len() <= s.len(),
        trimmed_end(s) == s.take(trimmed_end(s).len() as int),
    decreases s.len(),
{
    if s.len() > 0 {
        if is_white_space(s[0]) {
            lemma_trimmed_lengths(s.skip(1));
        }
        if is_white_space(s.last()) {
            lemma_trimmed_lengths(s.drop_last());
            let n = trimmed_end(s.drop_last()).len() as int;
            assert(s.drop_last().take(n) == s.take(n));
        } else {
            assert(s.take(s.len() as int) == s);
        }
    }
}

/// A text that trimming leaves as it is starts and ends with something else than
/// white space.
pub proof fn lemma_trimmed_ends(s: Seq<char>)
    requires
        trimmed(s) == s,
        s.len() > 0,
    ensures
        !is_white_space(s[0]),
        !is_white_space(s.last()),
{
    lemma_trimmed_lengths(s);
    lemma_trimmed_lengths(trimmed_start(s));
    if is_white_space(s[0]) {
        lemma_trimmed_lengths(s.skip(1));
    } else if is_white_space(s.last()) {
        lemma_trimmed_lengths(s.drop_last());
    }
}

/// A text that starts with something else than white space still starts with it
/// when it is trimmed.
pub proof fn lemma_trimmed_keeps_first(s: Seq<char>)
    requires
        s.len() > 0,
        !is_white_space(s[0]),
    ensures
        trimmed_start(s) == s,
        trimmed(s).len() > 0,
        trimmed(s)[0] == s[0],
    decreases s.len(),
{
    if is_white_space(s.last()) {
        let head = s.drop_last();
        assert(head.len() > 0);
        assert(head[0] == s[0]);
        lemma_trimmed_keeps_first(head);
    }
}

/// A first piece without the separator, and the rest.
pub proof fn lemma_fields_up_to_step(a: Seq<char>, c: char, b: Seq<char>, n: nat)
    requires
        !a.contains(c),
        n >= 2,
    ensures
        fields_up_to(a + seq![c] + b, c, n) == seq![a] + fields_up_to(b, c, (n - 1) as nat),
{
    let whole = a + seq![c] + b;
    assert forall|j: int| 0 <= j < a.len() implies whole[j] != c by {
        assert(whole[j] == a[j]);
        assert(a.contains(a[j]));
    }
    lemma_before_is(whole, c, a.len() as int);
    assert(whole.take(a.len() as int) == a);
    assert(whole.skip(a.len() as int + 1) == b);
}

/// How many characters of `s` stand before the first `c`.
pub fn find(s: &[char], c: char) -> (r: usize)
    ensures
        r == before(s@, c),
        r <= s@.len(),
{
    let n: usize = s.len();
    let mut i: usize = 0;
    while i < n && s[i] != c
        invariant
            i <= n,
            n == s@.len(),
            forall|j: int| 0 <= j < i ==> s@[j] != c,
        decreases n - i,
    {
        i = i + 1;
    }
    proof {
        lemma_before_is(s@, c, i as int);
    }
    i
}

/// The pieces of `s` between the occurrences of `c`.
pub fn split(s: &[char], c: char) -> (r: Vec<&[char]>)
    ensures
        pieces(r@) == fields(s@, c),
{
    let mut r: Vec<&[char]> = Vec::new();
    let mut rest: &[char] = s;
    assert(pieces(r@) + fields(rest@, c) == fields(s@, c));
    loop
        invariant
            pieces(r@) + fields(rest@, c) == fields(s@, c),
        decreases rest@.len(),
    {
        let i: usize = find(rest, c);
        let ghost done = pieces(r@);
        if i >= rest.len() {
            r.push(rest);
            assert(pieces(r@) == done.push(rest@));
            return r;
        }
        let head = slice_subrange(rest, 0, i);
        let tail = slice_subrange(rest, i + 1, rest.len());
        assert(head@ == rest@.take(i as int));
        assert(tail@ == rest@.skip(i + 1));
        r.push(head);
        assert(pieces(r@) == done.push(head@));
        assert(done + (seq![head@] + fields(tail@, c)) == done.push(head@) + fields(tail@, c));
        rest = tail;
    }
}

/// The first `n - 1` pieces of `s` between occurrences of `c`, and the rest.
pub fn split_up_to(s: &[char], c: char, n: usize) -> (r: Vec<&[char]>)
    ensures
        pieces(r@) == fields_up_to(s@, c, n as nat),
{
    let mut r: Vec<&[char]> = Vec::new();
    let mut rest: &[char] = s;
    let mut left: usize = n;
    assert(pieces(r@) + fields_up_to(rest@, c, left as nat) == fields_up_to(s@, c, n as nat));
    loop
        invariant
            pieces(r@) + fields_up_to(rest@, c, left as nat) == fields_up_to(s@, c, n as nat),
        decreases left,
    {
        let i: usize = find(rest, c);
        let ghost done = pieces(r@);
        if left <= 1 || i >= rest.len() {
            r.push(rest);
            assert(pieces(r@) == done.push(rest@));
            return r;
        }
        let head = slice_subrange(rest, 0, i);
        let tail = slice_subrange(rest, i + 1, rest.len());
        assert(head@ == rest@.take(i as int));
        assert(tail@ == rest@.skip(i + 1));
        r.push(head);
        assert(pieces(r@) == done.push(head@));
        assert(done + (seq![head@] + fields_up_to(tail@, c, (left - 1) as nat)) == done.push(head@)
            + fields_up_to(tail@, c, (left - 1) as nat));
        rest = tail;
        left = left - 1;
    }
}

/// The piece of `s` after the last `c`.
pub fn last_piece(s: &[char], c: char) -> (r: &[char])
    ensures
        r@ == last_field(s@, c),
{
    let n: usize = s.len();
    let mut i: usize = n;
    assert(s@.take(n as int) == s@);
    assert(s@.subrange(n as int, n as int) == Seq::<char>::empty());
    while i > 0 && s[i - 1] != c
        invariant
            i <= n,
            n == s@.len(),
            last_field(s@, c) == last_field(s@.take(i as int), c) + s@.subrange(
                i as int,
                n as int,
            ),
        decreases i,
    {
        assert(s@.take(i as int).drop_last() == s@.take(i - 1));
        assert(s@.subrange(i - 1, n as int) == seq![s@[i - 1]] + s@.subrange(i as int, n as int));
        i = i - 1;
    }
    slice_subrange(s, i, n)
}

/// The lines of `s`.
pub fn lines(s: &[char]) -> (r: Vec<&[char]>)
    ensures
        pieces(r@) == lines_of(s@),
{
    let mut r: Vec<&[char]> = Vec::new();
    let mut rest: &[char] = s;
    assert(pieces(r@) + lines_of(rest@) == lines_of(s@));
    while rest.len() > 0
        invariant
            pieces(r@) + lines_of(rest@) == lines_of(s@),
        decreases rest@.len(),
    {
        let i: usize = find(rest, '\n');
        let ghost done = pieces(r@);
        if i >= rest.len() {
            r.push(rest);
            assert(pieces(r@) == done.push(rest@));
            return r;
        }
        let end: usize = if i > 0 && rest[i - 1] == '\r' {
            i - 1
        } else {
            i
        };
        let head = slice_subrange(rest, 0, end);
        let tail = slice_subrange(rest, i + 1, rest.len());
        assert(head@ == without_return(rest@.take(i as int)));
        assert(tail@ == rest@.skip(i + 1));
        r.push(head);
        assert(pieces(r@) == done.push(head@));
        assert(done + (seq![head@] + lines_of(tail@)) == done.push(head@) + lines_of(tail@));
        rest = tail;
    }
    r
}

/// Lines that are printed are read back.
pub proof fn lemma_lines_printed(lines: Seq<Seq<char>>)
    requires
        forall|i: int| 0 <= i < lines.len() ==> is_line(#[trigger] lines[i]),
    ensures
        lines_of(printed(lines)) == lines,
    decreases lines.len(),
{
    if lines.len() > 0 {
        let first = lines[0];
        let rest = lines.skip(1);
        let whole = printed(lines);
        assert(is_line(first));
        assert forall|i: int| 0 <= i < rest.len() implies is_line(#[trigger] rest[i]) by {
            assert(rest[i] == lines[i + 1]);
        }
        lemma_lines_printed(rest);
        lemma_before_is(whole, '\n', first.len() as int);
        assert(whole.take(first.len() as int) == first);
        assert(whole.skip(first.len() as int + 1) == printed(rest));
        assert(seq![first] + rest == lines);
    }
}

/// Joining takes the first text, the separator, and the rest joined.
pub proof fn lemma_joined_first(parts: Seq<Seq<char>>, sep: Seq<char>)
    requires
        parts.len() >= 2,
    ensures
        joined(parts, sep) == parts[0] + sep + joined(parts.skip(1), sep),
    decreases parts.len(),
{
    let head = parts.drop_last();
    let rest = parts.skip(1);
    if parts.len() == 2 {
        assert(joined(head, sep) == head[0]);
        assert(joined(rest, sep) == rest[0]);
    } else {
        lemma_joined_first(head, sep);
        assert(head.skip(1) == rest.drop_last());
        assert(joined(parts, sep) == parts[0] + sep + (joined(rest.drop_last(), sep) + sep
            + parts.last()));
    }
}

/// Lines that are joined by line feeds are read back, when the last of them is not
/// empty.
pub proof fn lemma_lines_joined(list: Seq<Seq<char>>)
    requires
        forall|i: int| 0 <= i < list.len() ==> is_line(#[trigger] list[i]),
        list.len() > 0 ==> list.last().len() > 0,
    ensures
        lines_of(joined(list, seq!['\n'])) == list,
    decreases list.len(),
{
    let sep = seq!['\n'];
    let whole = joined(list, sep);
    if list.len() == 1 {
        let only = list[0];
        assert(is_line(only));
        lemma_before(only, '\n');
        assert(lines_of(only) == seq![only]);
        assert(list == seq![only]);
    } else if list.len() > 1 {
        let first = list[0];
        let rest = list.skip(1);
        assert(is_line(first));
        assert forall|i: int| 0 <= i < rest.len() implies is_line(#[trigger] rest[i]) by {
            assert(rest[i] == list[i + 1]);
        }
        assert(rest.last() == list.last());
        lemma_lines_joined(rest);
        lemma_joined_first(list, sep);
        lemma_before_is(whole, '\n', first.len() as int);
        assert(whole.take(first.len() as int) == first);
        assert(whole.skip(first.len() as int + 1) == joined(rest, sep));
        assert(seq![first] + rest == list);
    }
}

/// Nothing changes in a list whose texts are not blank and have no white space
/// around them.
pub proof fn lemma_nonblank_already(list: Seq<Seq<char>>)
    requires
        forall|i: int|
            0 <= i < list.len() ==> (#[trigger] list[i]).len() > 0 && trimmed(list[i]) == list[i],
    ensures
        nonblank(list) == list,
    decreases list.len(),
{
    if list.len() > 0 {
        let head = list.drop_last();
        assert forall|i: int| 0 <= i < head.len() implies (#[trigger] head[i]).len() > 0
            && trimmed(head[i]) == head[i] by {
            assert(head[i] == list[i]);
        }
        lemma_nonblank_already(head);
        assert(list.last() == list[list.len() - 1]);
        assert(head.push(list.last()) == list);
    }
}

/// The pieces of a list that are not blank, without the white space around them.
pub fn nonblank_pieces(list: &[&[char]]) -> (r: Vec<String>)
    ensures
        texts(r@) == nonblank(pieces(list@)),
{
    let mut r: Vec<String> = Vec::new();
    let n: usize = list.len();
    let ghost all = pieces(list@);
    for i in 0..n
        invariant
            n == list@.len(),
            all == pieces(list@),
            texts(r@) == nonblank(all.take(i as int)),
    {
        let t = trim(list[i]);
        assert(all.take(i + 1).drop_last() == all.take(i as int));
        let ghost done = texts(r@);
        if t.len() > 0 {
            r.push(text_of(t));
            assert(texts(r@) == done.push(t@));
        }
    }
    assert(all.take(n as int) == all);
    r
}

/// The strings of a list that are not blank, without the white space around them.
pub fn nonblank_texts(list: &[String]) -> (r: Vec<String>)
    ensures
        texts(r@) == nonblank(texts(list@)),
{
    let mut r: Vec<String> = Vec::new();
    let n: usize = list.len();
    let ghost all = texts(list@);
    for i in 0..n
        invariant
            n == list@.len(),
            all == texts(list@),
            texts(r@) == nonblank(all.take(i as int)),
    {
        let cs = chars_of(list[i].as_str());
        let t = trim(cs.as_slice());
        assert(all.take(i + 1).drop_last() == all.take(i as int));
        let ghost done = texts(r@);
        if t.len() > 0 {
            r.push(text_of(t));
            assert(texts(r@) == done.push(t@));
        }
    }
    assert(all.take(n as int) == all);
    r
}

/// The texts of `parts` with `sep` between neighbours.
pub fn join(parts: &[String], sep: &str) -> (r: String)
    ensures
        r@ == joined(texts(parts@), sep@),
{
    let mut r = String::new();
    let n: usize = parts.len();
    let ghost all = texts(parts@);
    for i in 0..n
        invariant
            n == parts@.len(),
            all == texts(parts@),
            r@ == joined(all.take(i as int), sep@),
    {
        if i > 0 {
            push_text(&mut r, sep);
        }
        push_text(&mut r, parts[i].as_str());
        assert(all.take(i + 1).drop_last() == all.take(i as int));
    }
    assert(all.take(n as int) == all);
    r
}

/// `s` with every `c` replaced by `by`.
pub fn replace(s: &[char], c: char, by: &[char]) -> (r: String)
    ensures
        r@ == replaced(s@, c, by@),
{
    let mut r = String::new();
    let n: usize = s.len();
    for i in 0..n
        invariant
            n == s@.len(),
            r@ == replaced(s@.take(i as int), c, by@),
    {
        if s[i] == c {
            push_chars(&mut r, by);
        } else {
            r.push(s[i]);
        }
        assert(s@.take(i + 1).drop_last() == s@.take(i as int));
    }
    assert(s@.take(n as int) == s@);
    r
}

/// The decimal digit for `d`.
fn digit_char(d: u64) -> (r: char)
    requires
        d < 10,
    ensures
        r == digit(d as nat),
{
    if d == 0 {
        '0'
    } else if d == 1 {
        '1'
    } else if d == 2 {
        '2'
    } else if d == 3 {
        '3'
    } else if d == 4 {
        '4'
    } else if d == 5 {
        '5'
    } else if d == 6 {
        '6'
    } else if d == 7 {
        '7'
    } else if d == 8 {
        '8'
    } else {
        '9'
    }
}

/// `n` in decimal.
pub fn number(n: u64) -> (r: String)
    ensures
        r@ == decimal(n as nat),
    decreases n,
{
    let mut r = if n < 10 {
        String::new()
    } else {
        number(n / 10)
    };
    r.push(digit_char(n % 10));
    r
}

/// The 16-bit number that `s` writes in decimal.
pub fn parse_u16(s: &[char]) -> (r: Option<u16>)
    ensures
        r == parsed_u16(s@),
{
    let d = if begins_char(s, '+') {
        slice_subrange(s, 1, s.len())
    } else {
        s
    };
    assert(d@ == unsigned_digits(s@));
    let n: usize = d.len();
    if n == 0 {
        return None;
    }
    let mut value: u32 = 0;
    for i in 0..n
        invariant
            n == d@.len(),
            n > 0,
            d@ == unsigned_digits(s@),
            value <= u16::MAX,
            value == number_value(d@.take(i as int)),
            forall|j: int| 0 <= j < i ==> '0' <= #[trigger] d@[j] <= '9',
    {
        let c = d[i];
        if c < '0' || c > '9' {
            return None;
        }
        assert(d@.take(i + 1).drop_last() == d@.take(i as int));
        value = value * 10 + (c as u32 - '0' as u32);
        if value > u16::MAX as u32 {
            proof {
                lemma_number_value_grows(d@, i + 1);
            }
            return None;
        }
    }
    assert(d@.take(n as int) == d@);
    Some(value as u16)
}

/// A number that is written in decimal is read back.
pub proof fn lemma_decimal_value(n: nat)
    ensures
        is_number(decimal(n)),
        number_value(decimal(n)) == n,
    decreases n,
{
    if n < 10 {
        let s = decimal(n);
        assert(s.drop_last() == Seq::<char>::empty());
        assert(number_value(s.drop_last()) == 0);
        assert(digit_value(digit(n)) == n);
    } else {
        lemma_decimal_value(n / 10);
        assert(digit_value(digit(n % 10)) == n % 10);
        let head = decimal(n / 10);
        let s = decimal(n);
        assert(s.drop_last() == head);
        assert forall|i: int| 0 <= i < s.len() implies '0' <= #[trigger] s[i] <= '9' by {
            if i < head.len() {
                assert(s[i] == head[i]);
            }
        }
    }
}

/// A 16-bit number that is written in decimal is read back.
pub proof fn lemma_parsed_decimal(n: u16)
    ensures
        parsed_u16(decimal(n as nat)) == Some(n),
{
    lemma_decimal_value(n as nat);
    assert('0' <= decimal(n as nat)[0] <= '9');
}

/// More digits never make a number smaller.
proof fn lemma_number_value_grows(s: Seq<char>, i: int)
    requires
        0 <= i <= s.len(),
    ensures
        number_value(s.take(i)) <= number_value(s),
    decreases s.len() - i,
{
    if i == s.len() {
        assert(s.take(i) == s);
    } else {
        lemma_number_value_grows(s, i + 1);
        assert(s.take(i + 1).drop_last() == s.take(i));
    }
}

/// The last piece of a text is what stands behind the last separator.
pub proof fn law_last_field(a: Seq<char>, c: char, b: Seq<char>)
    requires
        !b.contains(c),
    ensures
        last_field(a + seq![c] + b, c) == b,
        last_field(b, c) == b,
    decreases b.len(),
{
    let whole = a + seq![c] + b;
    if b.len() == 0 {
        assert(whole.last() == c);
        assert(last_field(whole, c) == b);
    } else {
        let head = b.drop_last();
        assert(!head.contains(c)) by {
            if head.contains(c) {
                let i = choose|i: int| 0 <= i < head.len() && head[i] == c;
                assert(b[i] == c);
            }
        }
        law_last_field(a, c, head);
        assert(b[b.len() - 1] == b.last());
        assert(b.last() != c);
        assert(whole.last() == b.last());
        assert(whole.drop_last() == a + seq![c] + head);
        assert(head.push(b.last()) == b);
    }
}

/// A text that does not end with the suffix comes back when the suffix behind it is
/// taken off, however often it stands there; and it is left as it is.
pub proof fn law_without_suffixes(s: Seq<char>, suffix: Seq<char>, times: nat)
    requires
        suffix.len() > 0,
        !ends_with(s, suffix),
    ensures
        without_suffixes(s + repeated(suffix, times), suffix) == s,
    decreases times,
{
    if times == 0 {
        assert(s + repeated(suffix, times) == s);
    } else {
        let less = repeated(suffix, (times - 1) as nat);
        let whole = s + repeated(suffix, times);
        assert(whole == s + less + suffix);
        assert(whole.skip(whole.len() - suffix.len()) == suffix);
        assert(whole.take(whole.len() - suffix.len()) == s + less);
        law_without_suffixes(s, suffix, (times - 1) as nat);
    }
}

/// `part`, so many times.
pub open spec fn repeated(part: Seq<char>, times: nat) -> Seq<char>
    decreases times,
{
    if times == 0 {
        Seq::empty()
    } else {
        repeated(part, (times - 1) as nat) + part
    }
}

/// A text without the suffix, with the suffix behind it once.
pub proof fn lemma_without_suffix(s: Seq<char>, suffix: Seq<char>)
    requires
        suffix.len() > 0,
        !ends_with(s, suffix),
    ensures
        without_suffixes(s + suffix, suffix) == s,
        without_suffixes(s, suffix) == s,
{
    law_without_suffixes(s, suffix, 1);
    assert(repeated(suffix, 0) + suffix == suffix);
    reveal_with_fuel(repeated, 2);
    assert(repeated(suffix, 1) == suffix);
}

/// Trimming takes the white space off both ends and nothing else: what is left is a
/// part of the text that starts and ends with something else, and what was around it
/// is white space.
pub proof fn law_trimmed(a: Seq<char>, s: Seq<char>, b: Seq<char>)
    requires
        forall|i: int| 0 <= i < a.len() ==> is_white_space(#[trigger] a[i]),
        forall|i: int| 0 <= i < b.len() ==> is_white_space(#[trigger] b[i]),
        s.len() > 0 ==> !is_white_space(s[0]) && !is_white_space(s.last()),
    ensures
        trimmed(a + s + b) == s,
        s.len() > 0 ==> trimmed_start(a + s + b) == s + b,
        s.len() > 0 ==> trimmed_end(a + s + b) == a + s,
    decreases a.len() + b.len(),
{
    let whole = a + s + b;
    if a.len() > 0 {
        assert(whole[0] == a[0]);
        assert(whole.skip(1) == a.skip(1) + s + b);
        assert forall|i: int| 0 <= i < a.skip(1).len() implies is_white_space(
            #[trigger] a.skip(1)[i],
        ) by {
            assert(a.skip(1)[i] == a[i + 1]);
        }
        law_trimmed(a.skip(1), s, b);
    } else {
        assert(whole == s + b);
    }
    if b.len() > 0 {
        let c = b.drop_last();
        assert(whole.last() == b[b.len() - 1]);
        assert(whole.drop_last() == a + s + c);
        assert forall|i: int| 0 <= i < c.len() implies is_white_space(#[trigger] c[i]) by {
            assert(c[i] == b[i]);
        }
        law_trimmed(a, s, c);
        if a.len() == 0 {
            if s.len() > 0 {
                assert(trimmed_start(whole) == whole);
                assert(trimmed_start(whole.drop_last()) == whole.drop_last());
                assert(s + b == whole);
            } else {
                assert(whole[0] == b[0]);
                assert(whole.skip(1) == b.skip(1));
                assert forall|i: int| 0 <= i < b.skip(1).len() implies is_white_space(
                    #[trigger] b.skip(1)[i],
                ) by {
                    assert(b.skip(1)[i] == b[i + 1]);
                }
                assert(a + s + b.skip(1) == b.skip(1));
                law_trimmed(a, s, b.skip(1));
            }
        }
    } else {
        assert(whole == a + s);
        if a.len() == 0 {
            assert(whole == s);
            assert(s + b == s);
        }
        if s.len() > 0 {
            assert(whole.last() == s.last());
            assert(s + b == s);
        }
    }
}

/// A text is made of its pieces with the separator between them, and no piece holds
/// the separator.
pub proof fn law_fields(s: Seq<char>, c: char)
    ensures
        fields(s, c).len() > 0,
        joined(fields(s, c), seq![c]) == s,
        forall|i: int| 0 <= i < fields(s, c).len() ==> !(#[trigger] fields(s, c)[i]).contains(c),
    decreases s.len(),
{
    let i = before(s, c) as int;
    lemma_before(s, c);
    let all = fields(s, c);
    if i < s.len() {
        let rest = s.skip(i + 1);
        law_fields(rest, c);
        assert(all == seq![s.take(i)] + fields(rest, c));
        assert(all.skip(1) == fields(rest, c));
        lemma_joined_first(all, seq![c]);
        assert(s == s.take(i) + seq![c] + rest);
        assert forall|k: int| 0 <= k < all.len() implies !(#[trigger] all[k]).contains(c) by {
            if k > 0 {
                assert(all[k] == fields(rest, c)[k - 1]);
            } else if all[0].contains(c) {
                let j = choose|j: int| 0 <= j < all[0].len() && all[0][j] == c;
                assert(s[j] == c);
            }
        }
    }
}

/// Lines end at a line feed, with or without a carriage return before it; a last line
/// needs no ending.
pub proof fn law_lines(a: Seq<char>, b: Seq<char>)
    requires
        is_line(a),
    ensures
        lines_of(a + "\n"@ + b) == seq![a] + lines_of(b),
        lines_of(a + "\r\n"@ + b) == seq![a] + lines_of(b),
        a.len() > 0 ==> lines_of(a) == seq![a],
        lines_of(Seq::empty()) == Seq::<Seq<char>>::empty(),
{
    reveal_strlit("\n");
    reveal_strlit("\r\n");
    let plain = a + "\n"@ + b;
    let n = a.len() as int;
    assert forall|j: int| 0 <= j < n implies plain[j] != '\n' by {
        assert(plain[j] == a[j]);
        assert(a.contains(a[j]));
    }
    lemma_before_is(plain, '\n', n);
    assert(plain.take(n) =~= a);
    assert(plain.skip(n + 1) =~= b);
    let other = a + "\r\n"@ + b;
    assert forall|j: int| 0 <= j < n + 1 implies other[j] != '\n' by {
        if j < n {
            assert(other[j] == a[j]);
            assert(a.contains(a[j]));
        }
    }
    lemma_before_is(other, '\n', n + 1);
    assert(other.take(n + 1) =~= a.push('\r'));
    assert(a.push('\r').drop_last() =~= a);
    assert(other.skip(n + 2) =~= b);
    lemma_before(a, '\n');
}

/// What is not blank of a list stays, in its order and without the white space around
/// it, and what is blank goes.
pub proof fn law_nonblank(list: Seq<Seq<char>>, a: Seq<char>, s: Seq<char>, b: Seq<char>)
    requires
        forall|i: int| 0 <= i < a.len() ==> is_white_space(#[trigger] a[i]),
        forall|i: int| 0 <= i < b.len() ==> is_white_space(#[trigger] b[i]),
        s.len() > 0,
        !is_white_space(s[0]),
        !is_white_space(s.last()),
    ensures
        nonblank(list.push(a + s + b)) == nonblank(list).push(s),
        nonblank(list.push(a)) == nonblank(list),
        nonblank(Seq::empty()) == Seq::<Seq<char>>::empty(),
{
    law_trimmed(a, s, b);
    let none = Seq::<char>::empty();
    law_trimmed(a, none, none);
    assert(a + none + none =~= a);
    assert(list.push(a + s + b).drop_last() =~= list);
    assert(list.push(a).drop_last() =~= list);
}

/// The characters that count as white space: the tab, the line feed and what follows
/// it up to the carriage return, the blank, and the others that Unicode names.
pub proof fn law_white_space(c: char)
    ensures
        is_white_space(c) <==> c == '\t' || c == '\n' || c == '\u{b}' || c == '\u{c}' || c == '\r'
            || c == ' ' || c == '\u{85}' || c == '\u{a0}' || c == '\u{1680}' || c == '\u{2000}' || c
            == '\u{2001}' || c == '\u{2002}' || c == '\u{2003}' || c == '\u{2004}' || c == '\u{2005}'
            || c == '\u{2006}' || c == '\u{2007}' || c == '\u{2008}' || c == '\u{2009}' || c
            == '\u{200a}' || c == '\u{2028}' || c == '\u{2029}' || c == '\u{202f}' || c
            == '\u{205f}' || c == '\u{3000}',
{
}

/// A port is read from its decimal digits, with or without a plus sign before them, and
/// from nothing else: not from an empty text, nor from one with another character in it.
pub proof fn law_ports(n: u16, a: Seq<char>, c: char, b: Seq<char>)
    ensures
        parsed_u16(decimal(n as nat)) == Some(n),
        parsed_u16(seq!['+'] + decimal(n as nat)) == Some(n),
        !('0' <= c <= '9') && c != '+' ==> parsed_u16(a + seq![c] + b) is None,
        parsed_u16(Seq::empty()) is None,
        parsed_u16(seq!['+']) is None,
{
    lemma_parsed_decimal(n);
    let digits = decimal(n as nat);
    lemma_decimal_value(n as nat);
    assert((seq!['+'] + digits).skip(1) =~= digits);
    let s = a + seq![c] + b;
    assert(s[a.len() as int] == c);
    if !('0' <= c <= '9') && c != '+' {
        let d = unsigned_digits(s);
        if starts_with_char(s, '+') {
            assert(a.len() > 0);
            assert(d[a.len() - 1] == c);
        } else {
            assert(d[a.len() as int] == c);
        }
        assert(!is_number(d));
    }
    assert(seq!['+'].skip(1) =~= Seq::empty());
}

/// Cut into at most `n` pieces, a text is made of its pieces with the separator between
/// them, and only the last piece may hold the separator.
pub proof fn law_fields_up_to(s: Seq<char>, c: char, n: nat)
    requires
        n > 0,
    ensures
        0 < fields_up_to(s, c, n).len() <= n,
        joined(fields_up_to(s, c, n), seq![c]) == s,
        forall|i: int|
            0 <= i < fields_up_to(s, c, n).len() - 1 ==> !(#[trigger] fields_up_to(
                s,
                c,
                n,
            )[i]).contains(c),
        fields_up_to(s, c, n).len() < n ==> !fields_up_to(s, c, n).last().contains(c),
    decreases n,
{
    let i = before(s, c) as int;
    lemma_before(s, c);
    let all = fields_up_to(s, c, n);
    if n > 1 && i < s.len() {
        let rest = s.skip(i + 1);
        let m = (n - 1) as nat;
        law_fields_up_to(rest, c, m);
        assert(all == seq![s.take(i)] + fields_up_to(rest, c, m));
        assert(all.skip(1) == fields_up_to(rest, c, m));
        lemma_joined_first(all, seq![c]);
        assert(s == s.take(i) + seq![c] + rest);
        assert forall|k: int| 0 <= k < all.len() - 1 implies !(#[trigger] all[k]).contains(c) by {
            if k > 0 {
                assert(all[k] == fields_up_to(rest, c, m)[k - 1]);
            } else if all[0].contains(c) {
                let j = choose|j: int| 0 <= j < all[0].len() && all[0][j] == c;
                assert(s[j] == c);
            }
        }
        assert(all.last() == fields_up_to(rest, c, m).last());
    }
}

/// A text that does not start with the prefix comes back when the prefix before it is
/// taken off, however often it stands there.
pub proof fn law_without_prefixes(prefix: Seq<char>, times: nat, s: Seq<char>)
    requires
        prefix.len() > 0,
        !starts_with(s, prefix),
    ensures
        without_prefixes(repeated(prefix, times) + s, prefix) == s,
    decreases times,
{
    if times == 0 {
        assert(repeated(prefix, times) + s =~= s);
    } else {
        let less = repeated(prefix, (times - 1) as nat);
        lemma_repeated_front(prefix, (times - 1) as nat);
        let whole = repeated(prefix, times) + s;
        assert(whole =~= prefix + (less + s));
        assert(whole.take(prefix.len() as int) =~= prefix);
        assert(whole.skip(prefix.len() as int) =~= less + s);
        law_without_prefixes(prefix, (times - 1) as nat, s);
    }
}

proof fn lemma_repeated_front(part: Seq<char>, times: nat)
    ensures
        repeated(part, times + 1) == part + repeated(part, times),
    decreases times,
{
    if times == 0 {
        reveal_with_fuel(repeated, 2);
        assert(repeated(part, 1) =~= part + repeated(part, 0));
    } else {
        lemma_repeated_front(part, (times - 1) as nat);
        let less = repeated(part, (times - 1) as nat);
        assert(repeated(part, times + 1) == repeated(part, times) + part);
        assert((part + less) + part =~= part + (less + part));
    }
}

} // verus!
