//! The decisions of the interactive shell: what a line read from the user
//! asks for, and the source of the class that evaluates an expression.

use crate::numerals::{decimal, to_decimal};
use crate::primitives::str_eq;
use crate::primitives::string::{char_is_whitespace, is_whitespace};
use vstd::prelude::*;

verus! {

/// A line with its leading whitespace removed.
pub open spec fn trim_start(s: Seq<char>) -> Seq<char>
    decreases s.len(),
{
    if s.len() > 0 && is_whitespace(s[0]) {
        trim_start(s.drop_first())
    } else {
        s
    }
}

/// A line with its trailing whitespace removed.
pub open spec fn trim_end(s: Seq<char>) -> Seq<char>
    decreases s.len(),
{
    if s.len() > 0 && is_whitespace(s.last()) {
        trim_end(s.drop_last())
    } else {
        s
    }
}

/// A line with its leading and trailing whitespace removed.
pub open spec fn trimmed(s: Seq<char>) -> Seq<char> {
    trim_end(trim_start(s))
}

/// The class the shell compiles to evaluate the expression `expr`: its
/// `run:` method stores the value in a local, prints `it = ` and the value,
/// and answers it.
pub open spec fn shell_class_source(counter: nat, expr: Seq<char>) -> Seq<char> {
    "ShellClass_"@ + decimal(counter) + " = ( run: it = ( | tmp | tmp := ("@ + expr
        + "). 'it = ' print. ^tmp println ) )"@
}

/// What a line read by the shell asks for.
pub enum ShellInput {
    /// The input ended: the shell says `exit` and stops.
    EndOfInput,
    /// The user typed `exit`.
    Exit,
    /// A blank line: the shell asks again.
    Blank,
    /// An expression, wrapped into the source of a class to compile and run.
    Evaluate(String),
}

/// Removes the leading and trailing whitespace of a line.
pub fn trim(line: &str) -> (r: String)
    ensures
        r@ == trimmed(line@),
{
    let n = line.unicode_len();
    let mut i: usize = 0;
    assert(line@.subrange(0, n as int) =~= line@);
    while i < n && char_is_whitespace(line.get_char(i))
        invariant
            n == line@.len(),
            i <= n,
            trim_start(line@) == trim_start(line@.subrange(i as int, n as int)),
        decreases n - i,
    {
        let ghost rest = line@.subrange(i as int, n as int);
        assert(rest.drop_first() =~= line@.subrange(i + 1, n as int));
        i += 1;
    }
    let ghost start = line@.subrange(i as int, n as int);
    assert(trim_start(line@) == start) by {
        if i < n {
            assert(start[0] == line@[i as int]);
        } else {
            assert(start.len() == 0);
        }
    }
    let mut j: usize = n;
    while j > i && char_is_whitespace(line.get_char(j - 1))
        invariant
            n == line@.len(),
            i <= j <= n,
            start == line@.subrange(i as int, n as int),
            trim_end(start) == trim_end(line@.subrange(i as int, j as int)),
        decreases j - i,
    {
        let ghost cur = line@.subrange(i as int, j as int);
        assert(cur.last() == line@[j - 1]);
        assert(cur.drop_last() =~= line@.subrange(i as int, j - 1));
        j -= 1;
    }
    let ghost kept = line@.subrange(i as int, j as int);
    assert(trim_end(start) == kept) by {
        if j > i {
            assert(kept.last() == line@[j - 1]);
        }
    }
    line.substring_char(i, j).to_owned()
}

/// What the shell does with a line it read (the line as read, with its end
/// of line, or empty at the end of the input); `counter` numbers the
/// expressions evaluated so far.
pub fn shell_command(line: &str, counter: u64) -> (r: ShellInput)
    ensures
        line@.len() == 0 ==> r == ShellInput::EndOfInput,
        line@.len() > 0 && trimmed(line@).len() == 0 ==> r == ShellInput::Blank,
        line@.len() > 0 && trimmed(line@) == "exit"@ ==> r == ShellInput::Exit,
        line@.len() > 0 && trimmed(line@).len() > 0 && trimmed(line@) != "exit"@ ==> (r matches ShellInput::Evaluate(
            s,
        ) && s@ == shell_class_source(counter as nat, trimmed(line@))),
{
    proof {
        reveal_strlit("exit");
    }
    if line.unicode_len() == 0 {
        return ShellInput::EndOfInput;
    }
    let t = trim(line);
    if t.unicode_len() == 0 {
        return ShellInput::Blank;
    }
    if str_eq(t.as_str(), "exit") {
        return ShellInput::Exit;
    }
    let mut src = String::from_str("ShellClass_");
    let num = to_decimal(counter);
    src.append(num.as_str());
    src.append(" = ( run: it = ( | tmp | tmp := (");
    src.append(t.as_str());
    src.append("). 'it = ' print. ^tmp println ) )");
    ShellInput::Evaluate(src)
}

} // verus!
