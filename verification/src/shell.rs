//! A model of the part of the POSIX shell that the scripts are written in: how a
//! program is spelled, and what it does on a machine.
use vstd::prelude::*;
use crate::quote::{escaped_quote, single_quoted};
use crate::text::{decimal, ends_with, lines_of, replaced, starts_with};

verus! {

/// A word of a command, as it is spelled.
pub enum Word {
    /// Characters that the shell leaves alone.
    Bare(Seq<char>),
    /// A text in single quotes.
    Single(Seq<char>),
    /// A variable, and a text behind it, in double quotes: `"$name/tail"`.
    Double(Seq<char>, Seq<char>),
    /// A variable outside quotes. The programs here do so with numbers only, which
    /// are one word.
    Variable(Seq<char>),
    /// An option with a variable in double quotes behind it: `--option="$name"`.
    Option(Seq<char>, Seq<char>),
    /// An option with a text in single quotes behind it: `--option='text'`.
    Fixed(Seq<char>, Seq<char>),
    /// A redirection. The machine sees it among the words of the command.
    Redirect(Seq<char>),
    /// Nothing: there is only a second blank.
    Gap,
}

/// What a value is compared with in a `case`.
pub enum Pattern {
    /// `*text`: the value ends with the text.
    Ends(Seq<char>),
    /// `"text"*`: the value starts with the text.
    Starts(Seq<char>),
}

/// A command.
pub enum Command {
    /// A program with its arguments.
    Run(Seq<Word>),
    /// `name=word`.
    Assign(Seq<char>, Word),
    /// `name=$(command)`.
    Capture(Seq<char>, Box<Command>),
    /// `a && b`.
    And(Box<Command>, Box<Command>),
    /// `a || b`.
    Or(Box<Command>, Box<Command>),
    /// `a | b`.
    Pipe(Box<Command>, Box<Command>),
    /// `a; b`.
    Semicolon(Box<Command>, Box<Command>),
    /// `a` on a line and `b` on the next, behind so much white space.
    Lines(Box<Command>, Box<Command>, Seq<char>),
    /// `{ a; }`.
    Group(Box<Command>),
    /// `if a; then b; fi`.
    If(Box<Command>, Box<Command>),
    /// `if a; then b; else c; fi`.
    IfElse(Box<Command>, Box<Command>, Box<Command>),
    /// `if a; then`, `b` on the lines below, and `fi` behind so much white space.
    IfLines(Box<Command>, Box<Command>, Seq<char>),
    /// `for name in words; do`, the body on the lines below, and `done`.
    For(Seq<char>, Seq<Word>, Box<Command>),
    /// `while IFS= read -r name; do`, the body on the lines below, and `done`.
    WhileRead(Seq<char>, Box<Command>),
    /// `case word in pattern) a ;; esac`.
    Case(Word, Pattern, Box<Command>),
    /// `exit n`.
    Exit(nat),
    /// `continue`.
    Continue,
}

/// How a word is spelled.
pub open spec fn spelled(word: Word) -> Seq<char> {
    match word {
        Word::Bare(s) => s,
        Word::Single(s) => single_quoted(s),
        Word::Double(name, tail) => "\"$"@ + name + tail + "\""@,
        Word::Variable(name) => "$"@ + name,
        Word::Option(option, name) => option + "\"$"@ + name + "\""@,
        Word::Fixed(option, s) => option + single_quoted(s),
        Word::Redirect(s) => s,
        Word::Gap => Seq::empty(),
    }
}

/// How a row of words is spelled: with a blank between neighbours.
pub open spec fn phrase(words: Seq<Word>) -> Seq<char>
    decreases words.len(),
{
    if words.len() == 0 {
        Seq::empty()
    } else if words.len() == 1 {
        spelled(words[0])
    } else {
        phrase(words.drop_last()) + " "@ + spelled(words.last())
    }
}

/// How a pattern is spelled.
pub open spec fn pattern_text(pattern: Pattern) -> Seq<char> {
    match pattern {
        Pattern::Ends(s) => "*"@ + s,
        Pattern::Starts(s) => "\""@ + s + "\"*"@,
    }
}

/// How a command is spelled.
pub open spec fn text(command: Command) -> Seq<char>
    decreases command,
{
    match command {
        Command::Run(words) => phrase(words),
        Command::Assign(name, word) => name + "="@ + spelled(word),
        Command::Capture(name, a) => name + "=$("@ + text(*a) + ")"@,
        Command::And(a, b) => text(*a) + " && "@ + text(*b),
        Command::Or(a, b) => text(*a) + " || "@ + text(*b),
        Command::Pipe(a, b) => text(*a) + " | "@ + text(*b),
        Command::Semicolon(a, b) => text(*a) + "; "@ + text(*b),
        Command::Lines(a, b, indent) => text(*a) + "\n"@ + indent + text(*b),
        Command::Group(a) => "{ "@ + text(*a) + "; }"@,
        Command::If(a, b) => "if "@ + text(*a) + "; then "@ + text(*b) + "; fi"@,
        Command::IfElse(a, b, c) => "if "@ + text(*a) + "; then "@ + text(*b) + "; else "@ + text(
            *c,
        ) + "; fi"@,
        Command::IfLines(a, b, indent) => "if "@ + text(*a) + "; then\n"@ + indent + "  "@ + text(
            *b,
        ) + "\n"@ + indent + "fi"@,
        Command::For(name, words, a) => "for "@ + name + " in "@ + phrase(words) + "; do\n  "@
            + text(*a) + "\ndone"@,
        Command::WhileRead(name, a) => "while IFS= read -r "@ + name + "; do\n  "@ + text(*a)
            + "\ndone"@,
        Command::Case(word, pattern, a) => "case "@ + spelled(word) + " in "@ + pattern_text(
            pattern,
        ) + ") "@ + text(*a) + " ;; esac"@,
        Command::Exit(n) => "exit "@ + decimal(n),
        Command::Continue => "continue"@,
    }
}

/// A command that stands as one operand beside `|`, `&&` and `||`.
pub open spec fn is_operand(command: Command) -> bool {
    !(command is And || command is Or || command is Pipe || command is Semicolon
        || command is Lines)
}

/// A command that may stand before `&&` or `||`: the two bind alike, from the left.
pub open spec fn is_chain(command: Command) -> bool {
    !(command is Semicolon || command is Lines)
}

/// The spelling of `command` is read as `command` again: `|` binds more than `&&`
/// and `||`, which bind alike and from the left, and these bind more than `;` and
/// the end of the line.
pub open spec fn is_grouped(command: Command) -> bool
    decreases command,
{
    match command {
        Command::Run(words) => words.len() > 0,
        Command::Assign(_, _) => true,
        Command::Capture(_, a) => is_grouped(*a),
        Command::And(a, b) => is_chain(*a) && (is_operand(*b) || *b is Pipe) && is_grouped(*a)
            && is_grouped(*b),
        Command::Or(a, b) => is_chain(*a) && (is_operand(*b) || *b is Pipe) && is_grouped(*a)
            && is_grouped(*b),
        Command::Pipe(a, b) => is_operand(*a) && is_operand(*b) && is_grouped(*a) && is_grouped(
            *b,
        ),
        Command::Semicolon(a, b) => !(*a is Lines) && !(*b is Lines) && is_grouped(*a)
            && is_grouped(*b),
        Command::Lines(a, b, _) => is_grouped(*a) && is_grouped(*b),
        Command::Group(a) => is_grouped(*a),
        Command::If(a, b) => is_grouped(*a) && is_grouped(*b),
        Command::IfElse(a, b, c) => is_grouped(*a) && is_grouped(*b) && is_grouped(*c),
        Command::IfLines(a, b, _) => is_grouped(*a) && is_grouped(*b),
        Command::For(_, _, a) => is_grouped(*a),
        Command::WhileRead(_, a) => is_grouped(*a),
        Command::Case(_, _, a) => is_grouped(*a),
        Command::Exit(_) => true,
        Command::Continue => true,
    }
}

/// What a program does on a machine: given what was run before, its words, and
/// what it reads, whether it succeeds and what it prints.
pub type Machine = spec_fn(Seq<Seq<Seq<char>>>, Seq<Seq<char>>, Seq<char>) -> (bool, Seq<char>);

/// What comes after a command.
pub enum Flow {
    /// The next command.
    On,
    /// The next round of the loop.
    Round,
    /// Nothing: the script ended with this status.
    Ended(nat),
}

/// How far a script has come.
pub struct Stage {
    /// The variables.
    pub vars: Map<Seq<char>, Seq<char>>,
    /// The programs that were run, each with its words.
    pub ran: Seq<Seq<Seq<char>>>,
    /// What was printed.
    pub out: Seq<char>,
    /// The last command succeeded.
    pub ok: bool,
    /// What comes next.
    pub flow: Flow,
}

/// The value of a variable. An unset one is empty, and `?` tells whether the last
/// command succeeded.
pub open spec fn variable(stage: Stage, name: Seq<char>) -> Seq<char> {
    if name == "?"@ {
        if stage.ok {
            "0"@
        } else {
            "1"@
        }
    } else if stage.vars.dom().contains(name) {
        stage.vars[name]
    } else {
        Seq::empty()
    }
}

/// What the shell makes of a word.
pub open spec fn value(stage: Stage, word: Word) -> Seq<char> {
    match word {
        Word::Bare(s) => s,
        Word::Single(s) => s,
        Word::Double(name, tail) => variable(stage, name) + tail,
        Word::Variable(name) => variable(stage, name),
        Word::Option(option, name) => option + variable(stage, name),
        Word::Fixed(option, s) => option + s,
        Word::Redirect(s) => s,
        Word::Gap => Seq::empty(),
    }
}

/// The words of a command, as the program sees them.
pub open spec fn arguments(stage: Stage, words: Seq<Word>) -> Seq<Seq<char>>
    decreases words.len(),
{
    if words.len() == 0 {
        Seq::empty()
    } else if words.last() is Gap {
        arguments(stage, words.drop_last())
    } else {
        arguments(stage, words.drop_last()).push(value(stage, words.last()))
    }
}

/// `s` without the ends of line at its end, as `$(..)` takes what a command printed.
pub open spec fn chomped(s: Seq<char>) -> Seq<char>
    decreases s.len(),
{
    if s.len() > 0 && s.last() == '\n' {
        chomped(s.drop_last())
    } else {
        s
    }
}

/// `value` is what `pattern` stands for.
pub open spec fn fits(value: Seq<char>, pattern: Pattern) -> bool {
    match pattern {
        Pattern::Ends(s) => ends_with(value, s),
        Pattern::Starts(s) => starts_with(value, s),
    }
}

/// What `command` does on `machine`, with `input` to read.
pub open spec fn run(
    machine: Machine,
    command: Command,
    input: Seq<char>,
    stage: Stage,
) -> Stage
    decreases command, 0nat,
{
    match command {
        Command::Run(words) => {
            let args = arguments(stage, words);
            let (ok, out) = machine(stage.ran, args, input);
            Stage { ran: stage.ran.push(args), out: stage.out + out, ok, ..stage }
        },
        Command::Assign(name, word) => Stage {
            vars: stage.vars.insert(name, value(stage, word)),
            ok: true,
            ..stage
        },
        Command::Capture(name, a) => {
            let inner = run(machine, *a, input, Stage { out: Seq::empty(), ..stage });
            Stage {
                vars: stage.vars.insert(name, chomped(inner.out)),
                ran: inner.ran,
                ok: inner.ok,
                ..stage
            }
        },
        Command::And(a, b) => {
            let first = run(machine, *a, input, stage);
            if first.flow is On && first.ok {
                run(machine, *b, input, first)
            } else {
                first
            }
        },
        Command::Or(a, b) => {
            let first = run(machine, *a, input, stage);
            if first.flow is On && !first.ok {
                run(machine, *b, input, first)
            } else {
                first
            }
        },
        Command::Pipe(a, b) => {
            let first = run(machine, *a, input, Stage { out: Seq::empty(), ..stage });
            let second = run(
                machine,
                *b,
                first.out,
                Stage { ran: first.ran, out: Seq::empty(), ..stage },
            );
            Stage { ran: second.ran, out: stage.out + second.out, ok: second.ok, ..stage }
        },
        Command::Semicolon(a, b) => {
            let first = run(machine, *a, input, stage);
            if first.flow is On {
                run(machine, *b, input, first)
            } else {
                first
            }
        },
        Command::Lines(a, b, _) => {
            let first = run(machine, *a, input, stage);
            if first.flow is On {
                run(machine, *b, input, first)
            } else {
                first
            }
        },
        Command::Group(a) => run(machine, *a, input, stage),
        Command::If(a, b) => {
            let first = run(machine, *a, input, stage);
            if !(first.flow is On) {
                first
            } else if first.ok {
                run(machine, *b, input, first)
            } else {
                Stage { ok: true, ..first }
            }
        },
        Command::IfElse(a, b, c) => {
            let first = run(machine, *a, input, stage);
            if !(first.flow is On) {
                first
            } else if first.ok {
                run(machine, *b, input, first)
            } else {
                run(machine, *c, input, first)
            }
        },
        Command::IfLines(a, b, _) => {
            let first = run(machine, *a, input, stage);
            if !(first.flow is On) {
                first
            } else if first.ok {
                run(machine, *b, input, first)
            } else {
                Stage { ok: true, ..first }
            }
        },
        Command::For(name, words, a) => rounds(
            machine,
            name,
            arguments(stage, words),
            *a,
            input,
            stage,
        ),
        Command::WhileRead(name, a) => rounds(machine, name, lines_of(input), *a, input, stage),
        Command::Case(word, pattern, a) => if fits(value(stage, word), pattern) {
            run(machine, *a, input, stage)
        } else {
            Stage { ok: true, ..stage }
        },
        Command::Exit(n) => Stage { ok: n == 0, flow: Flow::Ended(n), ..stage },
        Command::Continue => Stage { ok: true, flow: Flow::Round, ..stage },
    }
}

/// What a loop does: its body runs with `name` set to each of `values` in turn.
pub open spec fn rounds(
    machine: Machine,
    name: Seq<char>,
    values: Seq<Seq<char>>,
    body: Command,
    input: Seq<char>,
    stage: Stage,
) -> Stage
    decreases body, 1 + values.len(),
{
    if values.len() == 0 {
        stage
    } else {
        let before = rounds(machine, name, values.drop_last(), body, input, stage);
        if before.flow is Ended {
            before
        } else {
            let after = run(
                machine,
                body,
                input,
                Stage { vars: before.vars.insert(name, values.last()), ..before },
            );
            if after.flow is Round {
                Stage { flow: Flow::On, ..after }
            } else {
                after
            }
        }
    }
}

/// A script that has not begun: no variable is set and nothing was run.
pub open spec fn start() -> Stage {
    Stage {
        vars: Map::empty(),
        ran: Seq::empty(),
        out: Seq::empty(),
        ok: true,
        flow: Flow::On,
    }
}

/// `[ flag "$d/tail" ]`.
pub open spec fn probe(flag: Seq<char>, tail: Seq<char>) -> Command {
    Command::Run(
        seq![Word::Bare("["@), Word::Bare(flag), Word::Double("d"@, tail), Word::Bare("]"@)],
    )
}

/// `{ echo 'message'; exit code; }`.
pub open spec fn refusal(message: Seq<char>, code: nat) -> Command {
    Command::Group(
        Box::new(
            Command::Semicolon(
                Box::new(Command::Run(seq![Word::Bare("echo"@), Word::Single(message)])),
                Box::new(Command::Exit(code)),
            ),
        ),
    )
}

proof fn lemma_replaced_nothing(s: Seq<char>, c: char, by: Seq<char>)
    requires
        !s.contains(c),
    ensures
        replaced(s, c, by) == s,
    decreases s.len(),
{
    if s.len() > 0 {
        let head = s.drop_last();
        assert(s[s.len() - 1] == s.last());
        assert(!head.contains(c)) by {
            if head.contains(c) {
                let i = choose|i: int| 0 <= i < head.len() && head[i] == c;
                assert(s[i] == c);
            }
        }
        lemma_replaced_nothing(head, c, by);
        assert(s == head + seq![s.last()]);
    }
}

/// A text without quotes stands between two single quotes as it is.
pub proof fn lemma_single_quoted_plain(s: Seq<char>)
    requires
        !s.contains('\''),
    ensures
        single_quoted(s) == "'"@ + s + "'"@,
{
    reveal_strlit("'");
    assert("'"@ == seq!['\'']);
    lemma_replaced_nothing(s, '\'', escaped_quote());
}

pub proof fn lemma_test_text(flag: Seq<char>, tail: Seq<char>)
    ensures
        text(probe(flag, tail)) == "[ "@ + flag + " \"$d"@ + tail + "\" ]"@,
        is_grouped(probe(flag, tail)),
{
    reveal_strlit("[ ");
    reveal_strlit("[");
    reveal_strlit("]");
    reveal_strlit(" ");
    reveal_strlit("d");
    reveal_strlit("\"$");
    reveal_strlit("\"");
    reveal_strlit(" \"$d");
    reveal_strlit("\" ]");
    reveal_with_fuel(phrase, 5);
    assert(text(probe(flag, tail)) =~= "[ "@ + flag + " \"$d"@ + tail + "\" ]"@);
}

pub proof fn lemma_refusal_text(message: Seq<char>, code: nat)
    requires
        !message.contains('\''),
    ensures
        text(refusal(message, code)) == "{ echo '"@ + message + "'; exit "@ + decimal(code) + "; }"@,
        is_grouped(refusal(message, code)),
{
    reveal_with_fuel(is_grouped, 4);
    lemma_single_quoted_plain(message);
    reveal_strlit("{ ");
    reveal_strlit("echo");
    reveal_strlit(" ");
    reveal_strlit("'");
    reveal_strlit("; ");
    reveal_strlit("; }");
    reveal_strlit("exit ");
    reveal_strlit("{ echo '");
    reveal_strlit("'; exit ");
    reveal_with_fuel(phrase, 3);
    reveal_with_fuel(text, 4);
    assert(text(refusal(message, code)) =~= "{ echo '"@ + message + "'; exit "@ + decimal(code)
        + "; }"@);
}

/// `[ flag path ]`, as the machine sees it.
pub open spec fn test_words(flag: Seq<char>, path: Seq<char>) -> Seq<Seq<char>> {
    seq!["["@, flag, path, "]"@]
}

/// Before anything was run, the test `[ flag path ]` holds on `machine`.
pub open spec fn holds(machine: Machine, flag: Seq<char>, path: Seq<char>) -> bool {
    machine(Seq::empty(), test_words(flag, path), Seq::empty()).0
}

/// The program that was run at `i` succeeded.
pub open spec fn succeeded(machine: Machine, ran: Seq<Seq<Seq<char>>>, i: int) -> bool {
    machine(ran.take(i), ran[i], Seq::empty()).0
}

/// What programs do on `machine` is not changed by programs run before, as long as
/// none of these is `change`.
pub open spec fn changed_only_by(machine: Machine, change: Seq<Seq<char>>) -> bool {
    forall|ran: Seq<Seq<Seq<char>>>, args: Seq<Seq<char>>, input: Seq<char>|
        !ran.contains(change) ==> #[trigger] machine(ran, args, input) == machine(
            Seq::empty(),
            args,
            input,
        )
}

pub proof fn lemma_test_run(
    machine: Machine,
    flag: Seq<char>,
    tail: Seq<char>,
    path: Seq<char>,
    input: Seq<char>,
    stage: Stage,
)
    requires
        variable(stage, "d"@) + tail == path,
    ensures
        run(machine, probe(flag, tail), input, stage) == (Stage {
            ran: stage.ran.push(test_words(flag, path)),
            out: stage.out + machine(stage.ran, test_words(flag, path), input).1,
            ok: machine(stage.ran, test_words(flag, path), input).0,
            ..stage
        }),
{
    reveal_with_fuel(arguments, 5);
    let words = seq![Word::Bare("["@), Word::Bare(flag), Word::Double("d"@, tail), Word::Bare("]"@)];
    assert(arguments(stage, words) =~= test_words(flag, path));
}

pub proof fn lemma_refusal_run(
    machine: Machine,
    message: Seq<char>,
    code: nat,
    input: Seq<char>,
    stage: Stage,
)
    requires
        stage.flow is On,
    ensures
        ({
            let end = run(machine, refusal(message, code), input, stage);
            &&& end.flow == Flow::Ended(code)
            &&& end.ran == stage.ran.push(seq!["echo"@, message])
            &&& end.vars == stage.vars
        }),
{
    reveal_with_fuel(arguments, 3);
    let words = seq![Word::Bare("echo"@), Word::Single(message)];
    assert(arguments(stage, words) =~= seq!["echo"@, message]);
    let say = Command::Run(words);
    let leave = Command::Exit(code);
    let both = Command::Semicolon(Box::new(say), Box::new(leave));
    let said = run(machine, say, input, stage);
    assert(run(machine, both, input, stage) == run(machine, leave, input, said));
    assert(run(machine, refusal(message, code), input, stage) == run(machine, both, input, stage));
}

/// `a || { echo 'message'; exit code; }`, where `a` is a program with its arguments.
pub open spec fn guarded(words: Seq<Word>, message: Seq<char>, code: nat) -> Command {
    Command::Or(Box::new(Command::Run(words)), Box::new(refusal(message, code)))
}

pub proof fn lemma_guarded_run(
    machine: Machine,
    words: Seq<Word>,
    args: Seq<Seq<char>>,
    message: Seq<char>,
    code: nat,
    input: Seq<char>,
    stage: Stage,
)
    requires
        stage.flow is On,
        arguments(stage, words) == args,
    ensures
        ({
            let end = run(machine, guarded(words, message, code), input, stage);
            let (ok, out) = machine(stage.ran, args, input);
            &&& ok ==> end == (Stage {
                ran: stage.ran.push(args),
                out: stage.out + out,
                ok: true,
                ..stage
            })
            &&& !ok ==> end.flow == Flow::Ended(code) && end.ran == stage.ran.push(args).push(
                seq!["echo"@, message],
            )
        }),
{
    let end = run(machine, guarded(words, message, code), input, stage);
    let s1 = run(machine, Command::Run(words), input, stage);
    lemma_refusal_run(machine, message, code, input, s1);
    assert(end == if s1.ok {
        s1
    } else {
        run(machine, refusal(message, code), input, s1)
    });
}

pub proof fn lemma_guarded_text(words: Seq<Word>, message: Seq<char>, code: nat)
    requires
        !message.contains('\''),
        words.len() > 0,
    ensures
        text(guarded(words, message, code)) == phrase(words) + " || { echo '"@ + message
            + "'; exit "@ + decimal(code) + "; }"@,
        is_grouped(guarded(words, message, code)),
{
    lemma_refusal_text(message, code);
    reveal_strlit(" || ");
    reveal_strlit("{ echo '");
    reveal_strlit(" || { echo '");
    assert(is_grouped(Command::Run(words)));
    assert(text(Command::Run(words)) == phrase(words));
    assert(text(guarded(words, message, code)) =~= phrase(words) + " || { echo '"@ + message
        + "'; exit "@ + decimal(code) + "; }"@);
}

} // verus!
