//! Quoting words for the POSIX shell and for a Windows command line.
//!
//! Next to each way of quoting stands a model of the reader it is meant for,
//! and the proof that the reader gets back what was quoted.
use vstd::prelude::*;
use crate::text::{chars_of, join, joined, push_chars, replace, replaced, text_of, texts};

verus! {

/// What `char::is_alphanumeric` says of `c`: whether `c` has the Unicode
/// property `Alphabetic` or is one of the numeric characters.
pub uninterp spec fn alphanumeric(c: char) -> bool;

/// An ASCII letter or digit.
pub open spec fn is_ascii_alphanumeric(c: char) -> bool {
    ||| 'a' <= c <= 'z'
    ||| 'A' <= c <= 'Z'
    ||| '0' <= c <= '9'
}

/// `char::is_alphanumeric`. Its answer depends on the character alone. Among
/// the ASCII characters it holds of the letters and the digits and of no others.
#[verifier::external_body]
fn is_alphanumeric(c: char) -> (r: bool)
    ensures
        r == alphanumeric(c),
        c <= '\u{7f}' ==> r == is_ascii_alphanumeric(c),
{
    c.is_alphanumeric()
}

/// What stands for a single quote inside single quotes: the quotes are closed,
/// an escaped quote follows, and they are opened again.
pub open spec fn escaped_quote() -> Seq<char> {
    seq!['\'', '\\', '\'', '\'']
}

/// `s` in single quotes.
pub open spec fn single_quoted(s: Seq<char>) -> Seq<char> {
    seq!['\''] + replaced(s, '\'', escaped_quote()) + seq!['\'']
}

/// How the shell reads the next character.
pub enum ShellMode {
    /// Outside quotes.
    Plain,
    /// Inside single quotes.
    Quoted,
    /// After a backslash outside quotes.
    Escaped,
}

/// How far the shell has read: the words before, and the word it is in.
pub struct ShellState {
    pub words: Seq<Seq<char>>,
    pub word: Option<Seq<char>>,
    pub mode: ShellMode,
}

/// The characters that mean something to the shell outside quotes, besides the
/// blank between words, the single quote and the backslash.
pub open spec fn is_shell_special(c: char) -> bool {
    ||| c == '\n'
    ||| c == '\r'
    ||| c == '"'
    ||| c == '`'
    ||| c == '$'
    ||| c == '&'
    ||| c == '|'
    ||| c == ';'
    ||| c == '<'
    ||| c == '>'
    ||| c == '('
    ||| c == ')'
    ||| c == '{'
    ||| c == '}'
    ||| c == '['
    ||| c == ']'
    ||| c == '*'
    ||| c == '?'
    ||| c == '!'
    ||| c == '#'
    ||| c == '~'
    ||| c == '^'
    ||| c == '%'
}

/// A character that simply belongs to the word it stands in.
pub open spec fn is_shell_plain(c: char) -> bool {
    !is_shell_special(c) && c != ' ' && c != '\t' && c != '\'' && c != '\\'
}

/// The word read so far, with `s` behind it.
pub open spec fn extended(word: Option<Seq<char>>, s: Seq<char>) -> Option<Seq<char>> {
    match word {
        Some(w) => Some(w + s),
        None => Some(s),
    }
}

/// The shell reads one character. `None` stands for a line in which a special
/// character was met outside quotes: such a line is more than a row of words.
pub open spec fn shell_step(state: Option<ShellState>, c: char) -> Option<ShellState> {
    match state {
        None => None,
        Some(st) => match st.mode {
            ShellMode::Plain => if c == '\'' {
                Some(
                    ShellState {
                        word: extended(st.word, Seq::empty()),
                        mode: ShellMode::Quoted,
                        ..st
                    },
                )
            } else if c == '\\' {
                Some(ShellState { mode: ShellMode::Escaped, ..st })
            } else if c == ' ' || c == '\t' {
                match st.word {
                    Some(w) => Some(ShellState { words: st.words.push(w), word: None, ..st }),
                    None => Some(st),
                }
            } else if is_shell_special(c) {
                None
            } else {
                Some(ShellState { word: extended(st.word, seq![c]), ..st })
            },
            ShellMode::Quoted => if c == '\'' {
                Some(ShellState { mode: ShellMode::Plain, ..st })
            } else {
                Some(ShellState { word: extended(st.word, seq![c]), ..st })
            },
            ShellMode::Escaped => if c == '\n' {
                Some(ShellState { mode: ShellMode::Plain, ..st })
            } else {
                Some(ShellState { word: extended(st.word, seq![c]), mode: ShellMode::Plain, ..st })
            },
        },
    }
}

/// The shell reads `s`.
pub open spec fn shell_read(state: Option<ShellState>, s: Seq<char>) -> Option<ShellState>
    decreases s.len(),
{
    if s.len() == 0 {
        state
    } else {
        shell_step(shell_read(state, s.drop_last()), s.last())
    }
}

/// Between two words, with `words` read.
pub open spec fn between(words: Seq<Seq<char>>) -> ShellState {
    ShellState { words, word: None, mode: ShellMode::Plain }
}

/// At the end of `word`, with `words` read before it.
pub open spec fn holding(words: Seq<Seq<char>>, word: Seq<char>) -> ShellState {
    ShellState { words, word: Some(word), mode: ShellMode::Plain }
}

/// The words that the shell makes of `line`. `None` when the line is more than a
/// row of words, or ends inside quotes.
pub open spec fn shell_words(line: Seq<char>) -> Option<Seq<Seq<char>>> {
    match shell_read(Some(between(Seq::empty())), line) {
        None => None,
        Some(st) => match (st.mode, st.word) {
            (ShellMode::Plain, Some(w)) => Some(st.words.push(w)),
            (ShellMode::Plain, None) => Some(st.words),
            _ => None,
        },
    }
}

/// The shell, outside quotes and between two words, reads `quoted` as the one
/// word `word`.
pub open spec fn is_word_for(quoted: Seq<char>, word: Seq<char>) -> bool {
    forall|words: Seq<Seq<char>>| #[trigger]
        shell_read(Some(between(words)), quoted) == Some(holding(words, word))
}

proof fn lemma_shell_read_push(state: Option<ShellState>, s: Seq<char>, c: char)
    ensures
        shell_read(state, s.push(c)) == shell_step(shell_read(state, s), c),
{
    assert(s.push(c).drop_last() == s);
}

/// Reading one text after another.
pub proof fn lemma_shell_read_concat(state: Option<ShellState>, a: Seq<char>, b: Seq<char>)
    ensures
        shell_read(state, a + b) == shell_read(shell_read(state, a), b),
    decreases b.len(),
{
    if b.len() == 0 {
        assert(a + b == a);
    } else {
        lemma_shell_read_concat(state, a, b.drop_last());
        assert((a + b).drop_last() == a + b.drop_last());
    }
}

/// Inside single quotes a text with its quotes escaped adds itself to the word.
proof fn lemma_read_quoted(st: ShellState, w: Seq<char>, s: Seq<char>)
    requires
        st.mode == ShellMode::Quoted,
        st.word == Some(w),
    ensures
        shell_read(Some(st), replaced(s, '\'', escaped_quote())) == Some(
            ShellState { word: Some(w + s), ..st },
        ),
    decreases s.len(),
{
    if s.len() == 0 {
        assert(w + s == w);
    } else {
        let head = s.drop_last();
        lemma_read_quoted(st, w, head);
        let read = replaced(head, '\'', escaped_quote());
        let mid = ShellState { word: Some(w + head), ..st };
        assert(w + s == (w + head).push(s.last()));
        if s.last() == '\'' {
            let e0: Seq<char> = Seq::empty();
            let e1 = e0.push('\'');
            let e2 = e1.push('\\');
            let e3 = e2.push('\'');
            let e4 = e3.push('\'');
            assert(e4 == escaped_quote());
            lemma_shell_read_push(Some(mid), e0, '\'');
            lemma_shell_read_push(Some(mid), e1, '\\');
            lemma_shell_read_push(Some(mid), e2, '\'');
            lemma_shell_read_push(Some(mid), e3, '\'');
            assert((w + head) + seq!['\''] == w + s);
            assert((w + s) + Seq::<char>::empty() == w + s);
            lemma_shell_read_concat(Some(st), read, escaped_quote());
        } else {
            let one = seq![s.last()];
            assert(one.drop_last() == Seq::<char>::empty());
            assert((w + head) + one == w + s);
            lemma_shell_read_concat(Some(st), read, one);
        }
    }
}

/// The shell reads a text in single quotes as that text, whatever the text
/// holds: outside quotes, `single_quoted(s)` adds `s` to the word it stands in
/// and leaves the shell outside quotes.
pub proof fn law_single_quotes_protect(st: ShellState, s: Seq<char>)
    requires
        st.mode == ShellMode::Plain,
    ensures
        shell_read(Some(st), single_quoted(s)) == Some(
            ShellState { word: extended(st.word, s), ..st },
        ),
{
    let body = replaced(s, '\'', escaped_quote());
    let open = seq!['\''];
    let w = extended(st.word, Seq::empty())->0;
    let inside = ShellState { word: Some(w), mode: ShellMode::Quoted, ..st };
    lemma_shell_read_push(Some(st), Seq::empty(), '\'');
    assert(Seq::<char>::empty().push('\'') == open);
    lemma_read_quoted(inside, w, s);
    lemma_shell_read_concat(Some(st), open, body);
    lemma_shell_read_push(Some(st), open + body, '\'');
    assert((open + body).push('\'') == single_quoted(s));
    assert(extended(st.word, s) == Some(w + s)) by {
        assert(Seq::<char>::empty() + s == s);
        match st.word {
            Some(v) => {
                assert(v + Seq::<char>::empty() == v);
            },
            None => {},
        }
    }
}

/// A text in single quotes is one word for the shell.
pub proof fn law_single_quoted_is_one_word(s: Seq<char>)
    ensures
        is_word_for(single_quoted(s), s),
{
    assert forall|words: Seq<Seq<char>>| #[trigger]
        shell_read(Some(between(words)), single_quoted(s)) == Some(holding(words, s)) by {
        law_single_quotes_protect(between(words), s);
    }
}

/// A row of plain characters adds itself to the word.
proof fn lemma_read_plain(st: ShellState, s: Seq<char>)
    requires
        st.mode == ShellMode::Plain,
        s.len() > 0,
        forall|i: int| 0 <= i < s.len() ==> is_shell_plain(#[trigger] s[i]),
    ensures
        shell_read(Some(st), s) == Some(ShellState { word: extended(st.word, s), ..st }),
    decreases s.len(),
{
    let head = s.drop_last();
    assert(is_shell_plain(s[s.len() - 1]));
    if head.len() == 0 {
        assert(s == seq![s.last()]);
        assert(shell_read(Some(st), head) == Some(st));
    } else {
        assert forall|i: int| 0 <= i < head.len() implies is_shell_plain(#[trigger] head[i]) by {
            assert(head[i] == s[i]);
        }
        lemma_read_plain(st, head);
        match st.word {
            Some(w) => {
                assert((w + head) + seq![s.last()] == w + s);
            },
            None => {
                assert(head + seq![s.last()] == s);
            },
        }
    }
}

pub proof fn lemma_plain_is_word(s: Seq<char>)
    requires
        s.len() > 0,
        forall|i: int| 0 <= i < s.len() ==> is_shell_plain(#[trigger] s[i]),
    ensures
        is_word_for(s, s),
{
    assert forall|words: Seq<Seq<char>>| #[trigger]
        shell_read(Some(between(words)), s) == Some(holding(words, s)) by {
        lemma_read_plain(between(words), s);
    }
}

/// Quoted words, with one blank between neighbours, are read as the words.
pub proof fn lemma_joined_words(quoted: Seq<Seq<char>>, words: Seq<Seq<char>>)
    requires
        quoted.len() == words.len(),
        forall|i: int| 0 <= i < words.len() ==> is_word_for(#[trigger] quoted[i], words[i]),
    ensures
        shell_words(joined(quoted, seq![' '])) == Some(words),
        words.len() > 0 ==> shell_read(
            Some(between(Seq::empty())),
            joined(quoted, seq![' ']),
        ) == Some(holding(words.drop_last(), words.last())),
    decreases quoted.len(),
{
    let start = Some(between(Seq::empty()));
    if quoted.len() == 0 {
        assert(words == Seq::<Seq<char>>::empty());
    } else {
        assert(is_word_for(quoted[quoted.len() - 1], words.last()));
        if quoted.len() == 1 {
            assert(words.drop_last() == Seq::<Seq<char>>::empty());
            assert(shell_read(start, quoted.last()) == Some(
                holding(words.drop_last(), words.last()),
            ));
        } else {
            let q = quoted.drop_last();
            let w = words.drop_last();
            assert forall|i: int| 0 <= i < w.len() implies is_word_for(#[trigger] q[i], w[i]) by {
                assert(is_word_for(quoted[i], words[i]));
            }
            lemma_joined_words(q, w);
            let line = joined(q, seq![' ']);
            lemma_shell_read_push(start, line, ' ');
            assert(line.push(' ') == line + seq![' ']);
            assert(w.drop_last().push(w.last()) == w);
            lemma_shell_read_concat(start, line + seq![' '], quoted.last());
            assert(shell_read(Some(between(w)), quoted.last()) == Some(holding(w, words.last())));
        }
        assert(words.drop_last().push(words.last()) == words);
    }
}

/// Quotes a value for POSIX `sh` by wrapping it in single quotes.
pub fn shq(s: &str) -> (r: String)
    ensures
        r@ == single_quoted(s@),
        is_word_for(r@, s@),
{
    let r = shq_chars(chars_of(s).as_slice());
    r
}

/// Quotes a row of characters for POSIX `sh` by wrapping it in single quotes.
pub fn shq_chars(s: &[char]) -> (r: String)
    ensures
        r@ == single_quoted(s@),
        is_word_for(r@, s@),
{
    let escape: Vec<char> = vec!['\'', '\\', '\'', '\''];
    assert(escape@ == escaped_quote());
    let body = replace(s, '\'', escape.as_slice());
    let mut r = String::new();
    r.push('\'');
    push_chars(&mut r, chars_of(body.as_str()).as_slice());
    r.push('\'');
    proof {
        assert(r@ == single_quoted(s@));
        law_single_quoted_is_one_word(s@);
    }
    r
}

/// A character that [`shell_join`] leaves unquoted.
pub open spec fn is_join_plain(c: char) -> bool {
    alphanumeric(c) || c == '@' || c == '_' || c == '-' || c == '.' || c == ':' || c == '/'
}

/// A character that [`sh_quote`] leaves unquoted.
pub open spec fn is_quote_plain(c: char) -> bool {
    is_join_plain(c) || c == '='
}

/// An ASCII character that [`shell_join`] leaves unquoted.
pub open spec fn is_ascii_join_plain(c: char) -> bool {
    is_ascii_alphanumeric(c) || c == '@' || c == '_' || c == '-' || c == '.' || c == ':' || c
        == '/'
}

/// An ASCII text that [`shell_join`] leaves as it is.
pub open spec fn is_plain_argument(s: Seq<char>) -> bool {
    forall|i: int| 0 <= i < s.len() ==> is_ascii_join_plain(#[trigger] s[i])
}

/// An ASCII text that [`sh_quote`] leaves as it is.
pub open spec fn is_plain_word(s: Seq<char>) -> bool {
    s.len() > 0 && forall|i: int|
        0 <= i < s.len() ==> is_ascii_join_plain(#[trigger] s[i]) || s[i] == '='
}

fn join_plain(c: char) -> (r: bool)
    ensures
        r == is_join_plain(c),
        r ==> is_shell_plain(c),
        is_ascii_join_plain(c) ==> r,
{
    is_alphanumeric(c) || c == '@' || c == '_' || c == '-' || c == '.' || c == ':' || c == '/'
}

/// Whether every character of `s` may stay unquoted; `equals` says whether the
/// equals sign may.
fn all_plain(s: &[char], equals: bool) -> (r: bool)
    ensures
        r == forall|i: int|
            0 <= i < s@.len() ==> is_join_plain(#[trigger] s@[i]) || (equals && s@[i] == '='),
        r ==> forall|i: int| 0 <= i < s@.len() ==> is_shell_plain(#[trigger] s@[i]),
        is_plain_argument(s@) ==> r,
        is_plain_word(s@) && equals ==> r,
{
    let n: usize = s.len();
    for i in 0..n
        invariant
            n == s@.len(),
            forall|j: int|
                0 <= j < i ==> is_join_plain(#[trigger] s@[j]) || (equals && s@[j] == '='),
            forall|j: int| 0 <= j < i ==> is_shell_plain(#[trigger] s@[j]),
    {
        let c = s[i];
        if !(join_plain(c) || (equals && c == '=')) {
            assert(!is_ascii_join_plain(s@[i as int]));
            return false;
        }
    }
    true
}

/// The word that stands for `s` in a shell command.
pub open spec fn sh_quoted(s: Seq<char>) -> Seq<char> {
    if s.len() > 0 && forall|i: int| 0 <= i < s.len() ==> is_quote_plain(#[trigger] s[i]) {
        s
    } else {
        single_quoted(s)
    }
}

/// Quotes one word for the POSIX shell git uses to split `GIT_SSH_COMMAND`. The
/// shell reads the result as the one word `s`, whatever `s` holds. A plain word stays
/// as it is.
pub fn sh_quote(s: &str) -> (r: String)
    ensures
        r@ == sh_quoted(s@),
        is_word_for(r@, s@),
        is_plain_word(s@) ==> r@ == s@,
{
    let cs = chars_of(s);
    if cs.len() > 0 && all_plain(cs.as_slice(), true) {
        proof {
            lemma_plain_is_word(s@);
        }
        return text_of(cs.as_slice());
    }
    shq_chars(cs.as_slice())
}

/// What stands for `s` in a line that [`shell_join`] makes.
pub open spec fn join_quoted(s: Seq<char>) -> Seq<char> {
    if forall|i: int| 0 <= i < s.len() ==> is_join_plain(#[trigger] s[i]) {
        s
    } else {
        single_quoted(s)
    }
}

/// The arguments as one shell command line. The shell reads it as `args`, unless
/// one of them is empty: an empty argument leaves nothing in the line. Plain
/// arguments stay as they are.
pub fn shell_join(args: &[String]) -> (r: String)
    ensures
        r@ == joined(texts(args@).map_values(|s: Seq<char>| join_quoted(s)), seq![' ']),
        (forall|i: int| 0 <= i < args@.len() ==> (#[trigger] args@[i])@.len() > 0) ==> shell_words(
            r@,
        ) == Some(texts(args@)),
        forall|i: int|
            0 <= i < args@.len() && is_plain_argument(args@[i]@) ==> #[trigger] join_quoted(
                args@[i]@,
            ) == args@[i]@,
        (forall|i: int| 0 <= i < args@.len() ==> is_plain_argument(#[trigger] texts(args@)[i]))
            ==> r@ == joined(texts(args@), seq![' ']),
{
    let mut quoted: Vec<String> = Vec::new();
    let n: usize = args.len();
    for i in 0..n
        invariant
            n == args@.len(),
            quoted@.len() == i,
            forall|j: int| 0 <= j < i ==> (#[trigger] quoted@[j])@ == join_quoted(args@[j]@),
            forall|j: int|
                0 <= j < i && is_plain_argument(args@[j]@) ==> #[trigger] join_quoted(args@[j]@)
                    == args@[j]@,
            forall|j: int|
                0 <= j < i && args@[j]@.len() > 0 ==> is_word_for(
                    (#[trigger] quoted@[j])@,
                    args@[j]@,
                ),
    {
        let cs = chars_of(args[i].as_str());
        if all_plain(cs.as_slice(), false) {
            proof {
                if cs@.len() > 0 {
                    lemma_plain_is_word(cs@);
                }
            }
            quoted.push(text_of(cs.as_slice()));
        } else {
            quoted.push(shq_chars(cs.as_slice()));
        }
    }
    let blank = " ";
    proof {
        reveal_strlit(" ");
        assert(blank@ == seq![' ']);
        assert(texts(quoted@) == texts(args@).map_values(|s: Seq<char>| join_quoted(s)));
        if forall|i: int| 0 <= i < args@.len() ==> is_plain_argument(#[trigger] texts(args@)[i]) {
            assert forall|i: int| 0 <= i < args@.len() implies texts(quoted@)[i] == texts(
                args@,
            )[i] by {
                assert(is_plain_argument(texts(args@)[i]));
                assert(join_quoted(args@[i]@) == args@[i]@);
            }
            assert(texts(quoted@) == texts(args@));
        }
        if forall|i: int| 0 <= i < args@.len() ==> (#[trigger] args@[i])@.len() > 0 {
            assert forall|i: int| 0 <= i < texts(args@).len() implies is_word_for(
                #[trigger] texts(quoted@)[i],
                texts(args@)[i],
            ) by {
                assert(args@[i]@.len() > 0);
                assert(is_word_for(quoted@[i]@, args@[i]@));
            }
            lemma_joined_words(texts(quoted@), texts(args@));
        }
    }
    join(quoted.as_slice(), blank)
}

/// `words`, each quoted by [`sh_quote`], as one shell command.
pub open spec fn sh_command(words: Seq<Seq<char>>) -> Seq<char> {
    joined(words.map_values(|s: Seq<char>| sh_quoted(s)), seq![' '])
}

/// Quotes each word and makes one shell command of them, which the shell splits
/// into `words` again. Plain words stay as they are.
pub fn sh_join(words: &[String]) -> (r: String)
    ensures
        r@ == sh_command(texts(words@)),
        shell_words(r@) == Some(texts(words@)),
        forall|i: int|
            0 <= i < words@.len() && is_plain_word(words@[i]@) ==> #[trigger] sh_quoted(words@[i]@)
                == words@[i]@,
        (forall|i: int| 0 <= i < words@.len() ==> is_plain_word(#[trigger] texts(words@)[i]))
            ==> r@ == joined(texts(words@), seq![' ']),
{
    let mut quoted: Vec<String> = Vec::new();
    let n: usize = words.len();
    for i in 0..n
        invariant
            n == words@.len(),
            quoted@.len() == i,
            forall|j: int| 0 <= j < i ==> (#[trigger] quoted@[j])@ == sh_quoted(words@[j]@),
            forall|j: int|
                0 <= j < i && is_plain_word(words@[j]@) ==> #[trigger] sh_quoted(words@[j]@)
                    == words@[j]@,
            forall|j: int| 0 <= j < i ==> is_word_for((#[trigger] quoted@[j])@, words@[j]@),
    {
        quoted.push(sh_quote(words[i].as_str()));
    }
    let blank = " ";
    proof {
        reveal_strlit(" ");
        assert(blank@ == seq![' ']);
        assert(texts(quoted@) == texts(words@).map_values(|s: Seq<char>| sh_quoted(s)));
        if forall|i: int| 0 <= i < words@.len() ==> is_plain_word(#[trigger] texts(words@)[i]) {
            assert forall|i: int| 0 <= i < words@.len() implies texts(quoted@)[i] == texts(
                words@,
            )[i] by {
                assert(is_plain_word(texts(words@)[i]));
                assert(sh_quoted(words@[i]@) == words@[i]@);
            }
            assert(texts(quoted@) == texts(words@));
        }
        assert forall|i: int| 0 <= i < texts(words@).len() implies is_word_for(
            #[trigger] texts(quoted@)[i],
            texts(words@)[i],
        ) by {
            assert(is_word_for(quoted@[i]@, words@[i]@));
        }
        lemma_joined_words(texts(quoted@), texts(words@));
    }
    join(quoted.as_slice(), blank)
}

} // verus!
