//! Telling built-in commands apart, and the values they compute.
//!
//! `cd`, `exit`, `!` and `exec` are recognised by an exact match on the first
//! word; any other word names an external program.

use vstd::prelude::*;
use crate::command::texts;
use crate::text::is_word;
use crate::executor::FAILURE_STATUS;
use crate::paths::{cd_target, standardized};

verus! {

/// What a command is, by its first word.
#[derive(PartialEq, Eq, Structural, Clone, Copy, Debug)]
pub enum CommandKind {
    /// No words (or `exec` alone): nothing runs.
    Empty,
    /// `cd`: change the working directory.
    ChangeDirectory,
    /// `exit`: end the interpreter.
    Exit,
    /// `!`: run the rest of the words and negate the outcome. With nothing
    /// after it, the empty command succeeds and the outcome is 1.
    Negate,
    /// `exec` followed by a program: replace the interpreter by it.
    Exec,
    /// Any other program, run in a child process.
    External,
}

/// The kind of the command with words `args`. `exec` with nothing after it
/// has nothing to run, and is empty.
pub open spec fn kind_of(args: Seq<Seq<char>>) -> CommandKind {
    if args.len() == 0 {
        CommandKind::Empty
    } else if args[0] == seq!['c', 'd'] {
        CommandKind::ChangeDirectory
    } else if args[0] == seq!['e', 'x', 'i', 't'] {
        CommandKind::Exit
    } else if args[0] == seq!['!'] {
        CommandKind::Negate
    } else if args[0] == seq!['e', 'x', 'e', 'c'] {
        if args.len() > 1 {
            CommandKind::Exec
        } else {
            CommandKind::Empty
        }
    } else {
        CommandKind::External
    }
}

/// The kind of the command with words `arguments`.
pub fn command_kind(arguments: &Vec<String>) -> (r: CommandKind)
    ensures
        r == kind_of(texts(arguments@)),
{
    if arguments.len() == 0 {
        return CommandKind::Empty;
    }
    let first = &arguments[0];
    proof {
        reveal_strlit("cd");
        reveal_strlit("exit");
        reveal_strlit("!");
        reveal_strlit("exec");
    }
    assert(texts(arguments@)[0] == first@);
    if is_word(first, "cd") {
        assert("cd"@ =~= seq!['c', 'd']);
        CommandKind::ChangeDirectory
    } else if is_word(first, "exit") {
        assert("exit"@ =~= seq!['e', 'x', 'i', 't']);
        assert(!(first@ =~= seq!['c', 'd']));
        CommandKind::Exit
    } else if is_word(first, "!") {
        assert("!"@ =~= seq!['!']);
        assert(!(first@ =~= seq!['c', 'd']));
        assert(!(first@ =~= seq!['e', 'x', 'i', 't']));
        CommandKind::Negate
    } else {
        assert(first@ != seq!['c', 'd']) by {
            assert("cd"@ =~= seq!['c', 'd']);
        }
        assert(first@ != seq!['e', 'x', 'i', 't']) by {
            assert("exit"@ =~= seq!['e', 'x', 'i', 't']);
        }
        assert(first@ != seq!['!']) by {
            assert("!"@ =~= seq!['!']);
        }
        if is_word(first, "exec") {
            assert("exec"@ =~= seq!['e', 'x', 'e', 'c']);
            if arguments.len() > 1 {
                CommandKind::Exec
            } else {
                CommandKind::Empty
            }
        } else {
            assert(first@ != seq!['e', 'x', 'e', 'c']) by {
                assert("exec"@ =~= seq!['e', 'x', 'e', 'c']);
            }
            CommandKind::External
        }
    }
}

/// The status of `!`: 0 when the negated command failed, 1 when it succeeded.
pub fn negate_status(status: i8) -> (r: i8)
    ensures
        r == (if status != 0 {
            0i8
        } else {
            1i8
        }),
{
    if status != 0 {
        0
    } else {
        1
    }
}

pub open spec fn is_digit(c: char) -> bool {
    '0' <= c && c <= '9'
}

/// Whether `s` is one or more decimal digits.
pub open spec fn all_digits(s: Seq<char>) -> bool {
    s.len() > 0 && forall|i: int| 0 <= i < s.len() ==> is_digit(#[trigger] s[i])
}

/// The value of the decimal digits `s`.
pub open spec fn digits_value(s: Seq<char>) -> int
    decreases s.len(),
{
    if s.len() == 0 {
        0
    } else {
        digits_value(s.drop_last()) * 10 + (s.last() as int - '0' as int)
    }
}

/// The integer that `s` writes in decimal, with an optional `+` or `-` sign,
/// if it writes one.
pub open spec fn decimal_value(s: Seq<char>) -> Option<int> {
    if s.len() > 0 && s[0] == '-' {
        if all_digits(s.drop_first()) {
            Some(-digits_value(s.drop_first()))
        } else {
            None
        }
    } else {
        let d = if s.len() > 0 && s[0] == '+' {
            s.drop_first()
        } else {
            s
        };
        if all_digits(d) {
            Some(digits_value(d))
        } else {
            None
        }
    }
}

/// The `i32` that `s` writes in decimal, if it writes one in range.
pub open spec fn decimal_i32(s: Seq<char>) -> Option<i32> {
    match decimal_value(s) {
        Some(v) => if i32::MIN <= v <= i32::MAX {
            Some(v as i32)
        } else {
            None
        },
        None => None,
    }
}

/// Appending digits never makes a value of digits smaller.
proof fn lemma_digits_value_grows(s: Seq<char>, k: int)
    requires
        0 <= k <= s.len(),
        forall|i: int| 0 <= i < s.len() ==> is_digit(#[trigger] s[i]),
    ensures
        0 <= digits_value(s.subrange(0, k)) <= digits_value(s),
    decreases s.len() - k,
{
    if k < s.len() {
        lemma_digits_value_grows(s, k + 1);
        let p = s.subrange(0, k + 1);
        assert(p.drop_last() =~= s.subrange(0, k));
        assert(is_digit(p.last()));
    } else {
        assert(s.subrange(0, k) =~= s);
        lemma_digits_value_nonneg(s);
    }
}

proof fn lemma_digits_value_nonneg(s: Seq<char>)
    requires
        forall|i: int| 0 <= i < s.len() ==> is_digit(#[trigger] s[i]),
    ensures
        0 <= digits_value(s),
    decreases s.len(),
{
    if s.len() > 0 {
        lemma_digits_value_nonneg(s.drop_last());
        assert(is_digit(s[s.len() - 1]));
    }
}

/// The value of the digits of `s` from index `start`, if all of them are
/// digits, there is at least one, and the value is at most `limit`.
fn bounded_digits(s: &Vec<char>, start: usize, limit: i64) -> (r: Option<i64>)
    requires
        start <= s@.len(),
        0 <= limit <= i32::MAX as i64 + 1,
    ensures
        ({
            let d = s@.subrange(start as int, s@.len() as int);
            match r {
                Some(v) => all_digits(d) && v == digits_value(d) && 0 <= v <= limit,
                None => !all_digits(d) || digits_value(d) > limit,
            }
        }),
{
    let ghost d = s@.subrange(start as int, s@.len() as int);
    if start == s.len() {
        return None;
    }
    let mut value: i64 = 0;
    let mut i: usize = start;
    while i < s.len()
        invariant
            start <= i <= s@.len(),
            d == s@.subrange(start as int, s@.len() as int),
            0 <= limit <= i32::MAX as i64 + 1,
            0 <= value <= limit,
            forall|j: int| start <= j < i ==> is_digit(#[trigger] s@[j]),
            value == digits_value(s@.subrange(start as int, i as int)),
        decreases s.len() - i,
    {
        let c = s[i];
        if !('0' <= c && c <= '9') {
            assert(!is_digit(d[i - start]));
            return None;
        }
        let digit = (c as u32 - '0' as u32) as i64;
        let next = value * 10 + digit;
        proof {
            let p = s@.subrange(start as int, i + 1);
            assert(p.drop_last() =~= s@.subrange(start as int, i as int));
        }
        if next > limit {
            proof {
                if forall|j: int| 0 <= j < d.len() ==> is_digit(#[trigger] d[j]) {
                    lemma_digits_value_grows(d, i + 1 - start);
                    assert(d.subrange(0, i + 1 - start) =~= s@.subrange(start as int, i + 1));
                }
            }
            return None;
        }
        value = next;
        i = i + 1;
    }
    assert(d =~= s@.subrange(start as int, i as int));
    Some(value)
}

/// The `i32` that `text` writes in decimal, if it writes one in range.
pub fn parse_i32(text: &String) -> (r: Option<i32>)
    ensures
        r == decimal_i32(text@),
{
    let cs = crate::text::chars_of(text.as_str());
    let ghost s = cs@;
    if cs.len() > 0 && cs[0] == '-' {
        assert(s.drop_first() =~= s.subrange(1, s.len() as int));
        match bounded_digits(&cs, 1, i32::MAX as i64 + 1) {
            Some(v) => Some((-v) as i32),
            None => None,
        }
    } else {
        let start: usize = if cs.len() > 0 && cs[0] == '+' {
            1
        } else {
            0
        };
        if start == 1 {
            assert(s.drop_first() =~= s.subrange(1, s.len() as int));
        } else {
            assert(s =~= s.subrange(0, s.len() as int));
        }
        match bounded_digits(&cs, start, i32::MAX as i64) {
            Some(v) => Some(v as i32),
            None => None,
        }
    }
}

/// The status that `exit` ends the interpreter with: 0 without an argument,
/// else the argument read as a decimal `i32`; `None` when it is not one.
pub fn exit_status(arguments: &Vec<String>) -> (r: Option<i32>)
    ensures
        arguments@.len() <= 1 ==> r == Some(0i32),
        arguments@.len() > 1 ==> r == decimal_i32(arguments@[1]@),
{
    if arguments.len() <= 1 {
        Some(0)
    } else {
        parse_i32(&arguments[1])
    }
}

/// What to do for one command.
#[derive(Debug)]
pub enum Dispatch {
    /// Nothing runs; the command ends with this status.
    Done(i8),
    /// Make `target` the working directory; when `update_pwd` holds, also
    /// record it as the present working directory.
    ChangeDirectory { target: String, update_pwd: bool },
    /// End the interpreter with this status.
    Exit(i32),
    /// Run the words after the first and negate the outcome.
    Negate,
    /// Replace the interpreter by the program named by the second word.
    Exec,
    /// Run the program named by the first word in a child process.
    External,
}

/// What to do for the command with words `arguments`, where `pwd` is the
/// present working directory and `home` the home directory, if known:
/// - no words, or `exec` alone: done, status 0;
/// - `cd` with an argument: change to it, resolved against `pwd`, and record it;
/// - `cd` alone: change to `home`; without one, done, status `FAILURE_STATUS`;
/// - `exit`: end with its argument, or 0 without one; an argument that is not
///   a decimal `i32` ends nothing and gives `FAILURE_STATUS`;
/// - `!`, `exec` with a program, or any other program: run it.
pub fn dispatch(arguments: &Vec<String>, pwd: &str, home: Option<&str>) -> (r: Dispatch)
    ensures
        ({
            let args = arguments@;
            match kind_of(texts(args)) {
                CommandKind::Empty => r matches Dispatch::Done(s) && s == 0,
                CommandKind::ChangeDirectory => if args.len() > 1 {
                    r matches Dispatch::ChangeDirectory { target, update_pwd } && update_pwd
                        && target@ == standardized(args[1]@, pwd@)
                } else {
                    match home {
                        Some(h) => r matches Dispatch::ChangeDirectory { target, update_pwd }
                            && !update_pwd && target@ == h@,
                        None => r matches Dispatch::Done(s) && s == FAILURE_STATUS,
                    }
                },
                CommandKind::Exit => if args.len() <= 1 {
                    r matches Dispatch::Exit(c) && c == 0
                } else {
                    match decimal_i32(args[1]@) {
                        Some(v) => r matches Dispatch::Exit(c) && c == v,
                        None => r matches Dispatch::Done(s) && s == FAILURE_STATUS,
                    }
                },
                CommandKind::Negate => r is Negate,
                CommandKind::Exec => r is Exec,
                CommandKind::External => r is External,
            }
        }),
{
    match command_kind(arguments) {
        CommandKind::Empty => Dispatch::Done(0),
        CommandKind::ChangeDirectory => match cd_target(arguments, pwd, home) {
            Some(target) => Dispatch::ChangeDirectory { target, update_pwd: arguments.len() > 1 },
            None => Dispatch::Done(FAILURE_STATUS),
        },
        CommandKind::Exit => match exit_status(arguments) {
            Some(c) => Dispatch::Exit(c),
            None => Dispatch::Done(FAILURE_STATUS),
        },
        CommandKind::Negate => Dispatch::Negate,
        CommandKind::Exec => Dispatch::Exec,
        CommandKind::External => Dispatch::External,
    }
}

} // verus!
