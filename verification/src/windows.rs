//! Quoting arguments for a Windows command line.
//!
//! A program on Windows gets one line and splits it itself, by the rules of
//! `CommandLineToArgvW`. The model of those rules stands here, with the proof
//! that a line made of quoted arguments is split into those arguments.
use vstd::prelude::*;
use crate::quote::extended;
use crate::text::{chars_of, join, joined, text_of, texts};

verus! {

/// A character for which an argument is quoted.
pub open spec fn is_win_special(c: char) -> bool {
    c == ' ' || c == '\t' || c == '"' || c == '&' || c == '|' || c == '<' || c == '>' || c == '^'
}

/// `n` backslashes.
pub open spec fn slashes(n: nat) -> Seq<char> {
    Seq::new(n, |i: int| '\\')
}

/// How many backslashes `s` ends with.
pub open spec fn trailing_slashes(s: Seq<char>) -> nat
    decreases s.len(),
{
    if s.len() > 0 && s.last() == '\\' {
        1 + trailing_slashes(s.drop_last())
    } else {
        0
    }
}

/// `s` as it stands between double quotes: each double quote has a backslash
/// before it, and the backslashes that were there already are doubled.
pub open spec fn win_body(s: Seq<char>) -> Seq<char>
    decreases s.len(),
{
    if s.len() == 0 {
        Seq::empty()
    } else {
        let head = s.drop_last();
        if s.last() == '"' {
            win_body(head) + slashes(trailing_slashes(head) + 1) + seq!['"']
        } else {
            win_body(head).push(s.last())
        }
    }
}

/// What stands for `arg` in a command line.
pub open spec fn win_quoted(arg: Seq<char>) -> Seq<char> {
    if arg.len() > 0 && forall|i: int| 0 <= i < arg.len() ==> !is_win_special(#[trigger] arg[i]) {
        arg
    } else {
        seq!['"'] + win_body(arg) + slashes(trailing_slashes(arg)) + seq!['"']
    }
}

/// How far a command line has been read: the arguments before, the argument
/// being read, whether it is inside quotes, and the backslashes just read.
pub struct WinState {
    pub args: Seq<Seq<char>>,
    pub arg: Option<Seq<char>>,
    pub quoted: bool,
    pub slashes: nat,
}

/// The argument being read, with the backslashes just read taken as they stand.
pub open spec fn flushed(st: WinState) -> Option<Seq<char>> {
    if st.slashes > 0 {
        extended(st.arg, slashes(st.slashes))
    } else {
        st.arg
    }
}

/// Reads one character. Backslashes before a double quote count in pairs, and an
/// odd one makes the quote a character of the argument; elsewhere they stand for
/// themselves.
pub open spec fn win_step(st: WinState, c: char) -> WinState {
    if c == '\\' {
        WinState { slashes: st.slashes + 1, ..st }
    } else if c == '"' {
        let arg = extended(st.arg, slashes(st.slashes / 2));
        if st.slashes % 2 == 1 {
            WinState { arg: extended(arg, seq!['"']), slashes: 0, ..st }
        } else {
            WinState { arg, quoted: !st.quoted, slashes: 0, ..st }
        }
    } else if !st.quoted && (c == ' ' || c == '\t') {
        match flushed(st) {
            Some(a) => WinState { args: st.args.push(a), arg: None, slashes: 0, ..st },
            None => st,
        }
    } else {
        WinState { arg: extended(flushed(st), seq![c]), slashes: 0, ..st }
    }
}

/// Reads `s`.
pub open spec fn win_read(st: WinState, s: Seq<char>) -> WinState
    decreases s.len(),
{
    if s.len() == 0 {
        st
    } else {
        win_step(win_read(st, s.drop_last()), s.last())
    }
}

/// Between two arguments, with `args` read.
pub open spec fn win_between(args: Seq<Seq<char>>) -> WinState {
    WinState { args, arg: None, quoted: false, slashes: 0 }
}

/// The arguments that a program makes of a command line.
pub open spec fn win_args(line: Seq<char>) -> Seq<Seq<char>> {
    let st = win_read(win_between(Seq::empty()), line);
    match flushed(st) {
        Some(a) => st.args.push(a),
        None => st.args,
    }
}

/// At the end of the argument `arg`, outside quotes, with `args` read before it.
pub open spec fn is_at_end_of(st: WinState, args: Seq<Seq<char>>, arg: Seq<char>) -> bool {
    st.args == args && !st.quoted && flushed(st) == Some(arg)
}

proof fn lemma_win_read_push(st: WinState, s: Seq<char>, c: char)
    ensures
        win_read(st, s.push(c)) == win_step(win_read(st, s), c),
{
    assert(s.push(c).drop_last() == s);
}

proof fn lemma_win_read_concat(st: WinState, a: Seq<char>, b: Seq<char>)
    ensures
        win_read(st, a + b) == win_read(win_read(st, a), b),
    decreases b.len(),
{
    if b.len() == 0 {
        assert(a + b == a);
    } else {
        lemma_win_read_concat(st, a, b.drop_last());
        assert((a + b).drop_last() == a + b.drop_last());
    }
}

proof fn lemma_win_read_slashes(st: WinState, n: nat)
    ensures
        win_read(st, slashes(n)) == (WinState { slashes: st.slashes + n, ..st }),
    decreases n,
{
    if n > 0 {
        lemma_win_read_slashes(st, (n - 1) as nat);
        assert(slashes(n).drop_last() == slashes((n - 1) as nat));
    } else {
        assert(slashes(n) == Seq::<char>::empty());
    }
}

/// The end of a text is the backslashes it ends with.
proof fn lemma_trailing(s: Seq<char>)
    ensures
        trailing_slashes(s) <= s.len(),
        s == s.take(s.len() - trailing_slashes(s)) + slashes(trailing_slashes(s)),
    decreases s.len(),
{
    if s.len() > 0 && s.last() == '\\' {
        let head = s.drop_last();
        lemma_trailing(head);
        let t = trailing_slashes(head);
        assert(s.take(s.len() - (t + 1)) == head.take(head.len() - t));
        assert(slashes(t + 1) == slashes(t).push('\\'));
        assert(s == head.push('\\'));
    }
}

/// Inside quotes, reading `win_body(s)` adds `s` to the argument; the backslashes
/// at its end are still pending.
proof fn lemma_read_win_body(st: WinState, w: Seq<char>, s: Seq<char>)
    requires
        st.quoted,
        st.arg == Some(w),
        st.slashes == 0,
    ensures
        win_read(st, win_body(s)) == (WinState {
            arg: Some(w + s.take(s.len() - trailing_slashes(s))),
            slashes: trailing_slashes(s),
            ..st
        }),
    decreases s.len(),
{
    lemma_trailing(s);
    if s.len() == 0 {
        assert(w + s.take(0) == w);
    } else {
        let head = s.drop_last();
        let t = trailing_slashes(head);
        lemma_trailing(head);
        lemma_read_win_body(st, w, head);
        let mid = win_read(st, win_body(head));
        let kept = head.take(head.len() - t);
        assert(w + head == w + kept + slashes(t));
        if s.last() == '\\' {
            lemma_win_read_push(st, win_body(head), '\\');
            assert(s.take(s.len() - (t + 1)) == kept);
        } else if s.last() == '"' {
            lemma_win_read_concat(st, win_body(head), slashes(t + 1));
            lemma_win_read_slashes(mid, t + 1);
            let before_quote = win_body(head) + slashes(t + 1);
            lemma_win_read_push(st, before_quote, '"');
            assert(before_quote.push('"') == before_quote + seq!['"']);
            assert((2 * t + 1) / 2 == t);
            assert((2 * t + 1) % 2 == 1);
            assert(w + s.take(s.len() as int) == (w + kept + slashes(t)) + seq!['"']);
        } else {
            lemma_win_read_push(st, win_body(head), s.last());
            if t == 0 {
                assert(kept == head);
            }
            assert(w + s.take(s.len() as int) == (w + head) + seq![s.last()]);
        }
    }
}

/// A row of characters none of which is special is read as it stands.
proof fn lemma_read_win_plain(args: Seq<Seq<char>>, s: Seq<char>)
    requires
        forall|i: int| 0 <= i < s.len() ==> !is_win_special(#[trigger] s[i]),
    ensures
        ({
            let st = win_read(win_between(args), s);
            &&& st.args == args
            &&& !st.quoted
            &&& s.len() > 0 ==> flushed(st) == Some(s)
            &&& s.len() == 0 ==> flushed(st) is None
        }),
        win_read(win_between(args), s).slashes == trailing_slashes(s),
    decreases s.len(),
{
    if s.len() > 0 {
        let head = s.drop_last();
        assert forall|i: int| 0 <= i < head.len() implies !is_win_special(#[trigger] head[i]) by {
            assert(head[i] == s[i]);
        }
        lemma_read_win_plain(args, head);
        assert(!is_win_special(s[s.len() - 1]));
        let mid = win_read(win_between(args), head);
        assert(s == head.push(s.last()));
        if s.last() == '\\' {
            let t = mid.slashes;
            assert(slashes(t + 1) == slashes(t).push('\\'));
            lemma_trailing(head);
            match mid.arg {
                Some(a) => {
                    assert(a + slashes(t + 1) == (a + slashes(t)).push('\\'));
                    assert(a + slashes(0) == a);
                },
                None => {
                    assert(slashes(0).push('\\') == slashes(1));
                    if head.len() == 0 {
                        assert(head.push('\\') == slashes(1));
                    }
                },
            }
        } else {
            if head.len() == 0 {
                assert(seq![s.last()] == s);
            } else {
                assert(head + seq![s.last()] == s);
            }
        }
    }
}

/// A program reads a quoted argument as that argument, whatever it holds.
pub proof fn law_win_quoted_is_one_argument(args: Seq<Seq<char>>, arg: Seq<char>)
    ensures
        is_at_end_of(win_read(win_between(args), win_quoted(arg)), args, arg),
{
    if arg.len() > 0 && forall|i: int| 0 <= i < arg.len() ==> !is_win_special(#[trigger] arg[i]) {
        lemma_read_win_plain(args, arg);
    } else {
        let start = win_between(args);
        let open = seq!['"'];
        let t = trailing_slashes(arg);
        lemma_win_read_push(start, Seq::empty(), '"');
        assert(Seq::<char>::empty().push('"') == open);
        assert(slashes(0) == Seq::<char>::empty());
        let inside = win_read(start, open);
        lemma_win_read_concat(start, open, win_body(arg));
        lemma_read_win_body(inside, Seq::empty(), arg);
        let after = win_read(start, open + win_body(arg));
        lemma_win_read_concat(start, open + win_body(arg), slashes(t));
        lemma_win_read_slashes(after, t);
        let line = open + win_body(arg) + slashes(t);
        lemma_win_read_push(start, line, '"');
        assert(line.push('"') == win_quoted(arg));
        lemma_trailing(arg);
        assert((t + t) / 2 == t);
        assert((t + t) % 2 == 0);
        let kept = arg.take(arg.len() - t);
        assert(Seq::<char>::empty() + kept == kept);
    }
}

/// A command line made of quoted arguments, with one blank between neighbours, is
/// split into those arguments.
pub proof fn law_win_line_is_split_into_its_arguments(args: Seq<Seq<char>>)
    ensures
        win_args(joined(args.map_values(|a: Seq<char>| win_quoted(a)), seq![' '])) == args,
        args.len() > 0 ==> is_at_end_of(
            win_read(
                win_between(Seq::empty()),
                joined(args.map_values(|a: Seq<char>| win_quoted(a)), seq![' ']),
            ),
            args.drop_last(),
            args.last(),
        ),
    decreases args.len(),
{
    let start = win_between(Seq::empty());
    let quoted = args.map_values(|a: Seq<char>| win_quoted(a));
    if args.len() == 0 {
        assert(args == Seq::<Seq<char>>::empty());
    } else {
        let rest = args.drop_last();
        if args.len() == 1 {
            assert(rest == Seq::<Seq<char>>::empty());
            law_win_quoted_is_one_argument(Seq::empty(), args.last());
        } else {
            law_win_line_is_split_into_its_arguments(rest);
            assert(quoted.drop_last() == rest.map_values(|a: Seq<char>| win_quoted(a)));
            let line = joined(quoted.drop_last(), seq![' ']);
            lemma_win_read_push(start, line, ' ');
            assert(line.push(' ') == line + seq![' ']);
            assert(rest.drop_last().push(rest.last()) == rest);
            assert(win_read(start, line + seq![' ']) == win_between(rest));
            lemma_win_read_concat(start, line + seq![' '], quoted.last());
            law_win_quoted_is_one_argument(rest, args.last());
        }
        assert(rest.push(args.last()) == args);
    }
}

fn push_slashes(out: &mut String, n: usize)
    ensures
        final(out)@ == old(out)@ + slashes(n as nat),
{
    for i in 0..n
        invariant
            out@ == old(out)@ + slashes(i as nat),
    {
        out.push('\\');
        assert(slashes((i + 1) as nat) == slashes(i as nat).push('\\'));
    }
}

fn win_plain(arg: &[char]) -> (r: bool)
    ensures
        r == (arg@.len() > 0 && forall|i: int|
            0 <= i < arg@.len() ==> !is_win_special(#[trigger] arg@[i])),
{
    let n: usize = arg.len();
    for i in 0..n
        invariant
            n == arg@.len(),
            forall|j: int| 0 <= j < i ==> !is_win_special(#[trigger] arg@[j]),
    {
        let c = arg[i];
        if c == ' ' || c == '\t' || c == '"' || c == '&' || c == '|' || c == '<' || c == '>' || c
            == '^' {
            assert(is_win_special(arg@[i as int]));
            return false;
        }
    }
    n > 0
}

/// Quotes one argument for a Windows command line.
pub fn win_quote(arg: &str) -> (r: String)
    ensures
        r@ == win_quoted(arg@),
{
    let cs = chars_of(arg);
    if win_plain(cs.as_slice()) {
        return text_of(cs.as_slice());
    }
    let mut out = String::new();
    out.push('"');
    let mut backslashes: usize = 0;
    let n: usize = cs.len();
    let ghost open = seq!['"'];
    assert(open + win_body(cs@.take(0)) == open);
    for i in 0..n
        invariant
            n == cs@.len(),
            open == seq!['"'],
            out@ == open + win_body(cs@.take(i as int)),
            backslashes == trailing_slashes(cs@.take(i as int)),
            backslashes <= i,
    {
        let c = cs[i];
        assert(cs@.take(i + 1).drop_last() == cs@.take(i as int));
        if c == '\\' {
            backslashes = backslashes + 1;
            out.push('\\');
        } else if c == '"' {
            push_slashes(&mut out, backslashes + 1);
            out.push('"');
            backslashes = 0;
        } else {
            backslashes = 0;
            out.push(c);
        }
    }
    assert(cs@.take(n as int) == cs@);
    push_slashes(&mut out, backslashes);
    out.push('"');
    out
}

/// The arguments as one Windows command line, which a program splits into `args`
/// again.
pub fn win_join(args: &[String]) -> (r: String)
    ensures
        r@ == joined(texts(args@).map_values(|a: Seq<char>| win_quoted(a)), seq![' ']),
        win_args(r@) == texts(args@),
{
    let mut quoted: Vec<String> = Vec::new();
    let n: usize = args.len();
    for i in 0..n
        invariant
            n == args@.len(),
            quoted@.len() == i,
            forall|j: int| 0 <= j < i ==> (#[trigger] quoted@[j])@ == win_quoted(args@[j]@),
    {
        quoted.push(win_quote(args[i].as_str()));
    }
    let blank = " ";
    proof {
        reveal_strlit(" ");
        assert(blank@ == seq![' ']);
        assert(texts(quoted@) == texts(args@).map_values(|a: Seq<char>| win_quoted(a)));
        law_win_line_is_split_into_its_arguments(texts(args@));
    }
    join(quoted.as_slice(), blank)
}

} // verus!
