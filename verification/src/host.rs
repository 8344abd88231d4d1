//! The hosted model of the session: arguments, scripts and lines.

use crate::text::is_text;
use vstd::prelude::*;

verus! {

/// How the hosted model runs.
#[derive(Debug)]
pub enum HostMode {
    /// One command: the argument at this position.
    Command(usize),
    /// A script: the file named by the argument at this position.
    Script(usize),
    /// Lines from the console.
    Interactive,
}

/// Whether an argument is a given text.
pub open spec fn names(argument: Seq<u8>, text: &str) -> bool {
    argument == crate::text::utf8(text)
}

/// How the hosted model runs with these arguments, or how it is used.
pub open spec fn host_mode(arguments: Seq<Vec<u8>>) -> Result<HostMode, &'static str> {
    if arguments.len() == 0 {
        Ok(HostMode::Interactive)
    } else if names(arguments[0]@, "--command") {
        if arguments.len() == 2 {
            Ok(HostMode::Command(1))
        } else {
            Err("usage: host-model --command 'COMMAND'")
        }
    } else if names(arguments[0]@, "--script") {
        if arguments.len() == 2 {
            Ok(HostMode::Script(1))
        } else {
            Err("usage: host-model --script FILE")
        }
    } else {
        Err("usage: host-model [--command 'COMMAND' | --script FILE]")
    }
}

/// Decide how the hosted model runs.
pub fn parse_arguments(arguments: &Vec<Vec<u8>>) -> (mode: Result<HostMode, &'static str>)
    ensures
        mode == host_mode(arguments@),
{
    if arguments.len() == 0 {
        return Ok(HostMode::Interactive);
    }
    if is_text(arguments[0].as_slice(), "--command") {
        if arguments.len() == 2 {
            Ok(HostMode::Command(1))
        } else {
            Err("usage: host-model --command 'COMMAND'")
        }
    } else if is_text(arguments[0].as_slice(), "--script") {
        if arguments.len() == 2 {
            Ok(HostMode::Script(1))
        } else {
            Err("usage: host-model --script FILE")
        }
    } else {
        Err("usage: host-model [--command 'COMMAND' | --script FILE]")
    }
}

/// A line without its line end: one line feed, and one carriage return before
/// it.
pub open spec fn trimmed(line: Seq<u8>) -> Seq<u8> {
    if line.len() > 0 && line.last() == 10 {
        let rest = line.drop_last();
        if rest.len() > 0 && rest.last() == 13 {
            rest.drop_last()
        } else {
            rest
        }
    } else {
        line
    }
}

/// Take the line end off a line.
pub fn trim_newline(line: &mut Vec<u8>)
    ensures
        final(line)@ == trimmed(old(line)@),
{
    if line.len() > 0 && line[line.len() - 1] == 10 {
        line.pop();
        if line.len() > 0 && line[line.len() - 1] == 13 {
            line.pop();
        }
    }
}

/// Whether a character is white space.
pub open spec fn white(c: char) -> bool {
    let n = c as u32;
    ||| 0x9 <= n <= 0xd
    ||| n == 0x20
    ||| n == 0x85
    ||| n == 0xa0
    ||| n == 0x1680
    ||| 0x2000 <= n <= 0x200a
    ||| n == 0x2028
    ||| n == 0x2029
    ||| n == 0x202f
    ||| n == 0x205f
    ||| n == 0x3000
}

/// Whether a character is white space.
pub fn is_white(c: char) -> (yes: bool)
    ensures
        yes == white(c),
{
    let n: u32 = c as u32;
    (0x9 <= n && n <= 0xd) || n == 0x20 || n == 0x85 || n == 0xa0 || n == 0x1680 || (0x2000 <= n
        && n <= 0x200a) || n == 0x2028 || n == 0x2029 || n == 0x202f || n == 0x205f || n == 0x3000
}

/// Whether the first character of a line that is not white space is at `i`.
pub open spec fn begins_at(line: Seq<char>, i: int) -> bool {
    &&& 0 <= i < line.len()
    &&& !white(line[i])
    &&& forall|k: int| 0 <= k < i ==> white(#[trigger] line[k])
}

/// Whether a line of a script is run: it holds something, and that does not
/// begin with a number sign.
pub open spec fn runs(line: Seq<char>) -> bool {
    exists|i: int| #[trigger] begins_at(line, i) && line[i] != '#'
}

/// Whether a line of a script is run.
pub fn line_runs(line: &Vec<char>) -> (yes: bool)
    ensures
        yes == runs(line@),
{
    let mut i: usize = 0;
    while i < line.len()
        invariant
            i <= line@.len(),
            forall|k: int| 0 <= k < i ==> white(#[trigger] line@[k]),
        decreases line@.len() - i,
    {
        if !is_white(line[i]) {
            assert(begins_at(line@, i as int));
            assert forall|j: int| #[trigger] begins_at(line@, j) implies j == i by {
                if j < i {
                    assert(white(line@[j]));
                } else if j > i {
                    assert(white(line@[i as int]));
                }
            }
            return line[i] != '#';
        }
        i = i + 1;
    }
    assert forall|j: int| !#[trigger] begins_at(line@, j) by {
        if begins_at(line@, j) {
            assert(white(line@[j]));
        }
    }
    false
}

/// The run of a script: it ends with the status of its last line, at the first
/// line that fails, or when the machine is to stop.
#[derive(Clone, Copy, Debug, PartialEq, Eq, Structural)]
pub struct ScriptRun {
    /// Status of the last line that ran.
    pub last: u8,
    /// Whether no further line runs.
    pub ended: bool,
}

impl ScriptRun {
    /// Before the first line.
    pub fn start() -> (run: Self)
        ensures
            run == (ScriptRun { last: 0, ended: false }),
    {
        ScriptRun { last: 0, ended: false }
    }

    /// A line ran.
    pub fn ran(&mut self, status: u8, machine_action: bool)
        requires
            !old(self).ended,
        ensures
            *final(self) == (ScriptRun { last: status, ended: status != 0 || machine_action }),
    {
        self.last = status;
        self.ended = status != 0 || machine_action;
    }
}

/// What becomes of a line from the console.
#[derive(Clone, Copy, Debug, PartialEq, Eq, Structural)]
pub enum LineVerdict {
    /// The input ended: the session ends.
    EndOfInput,
    /// The line is too long: it is reported and not run.
    TooLong,
    /// The line runs.
    Run,
}

/// Decide what becomes of a line of `line_bytes` bytes, for which `read_bytes`
/// bytes were read; at most `most` bytes run.
pub fn judge_line(read_bytes: usize, line_bytes: usize, most: usize) -> (verdict: LineVerdict)
    ensures
        verdict == (if read_bytes == 0 {
            LineVerdict::EndOfInput
        } else if line_bytes > most {
            LineVerdict::TooLong
        } else {
            LineVerdict::Run
        }),
{
    if read_bytes == 0 {
        LineVerdict::EndOfInput
    } else if line_bytes > most {
        LineVerdict::TooLong
    } else {
        LineVerdict::Run
    }
}

/// Trimming a line a second time changes nothing, unless its text itself ends
/// with a line end.
pub proof fn trimming_settles(line: Seq<u8>)
    requires
        trimmed(line).len() == 0 || trimmed(line).last() != 10,
    ensures
        trimmed(trimmed(line)) == trimmed(line),
{
}

/// Without arguments the session is interactive; with a command or a script it
/// runs the second argument, of which there is exactly one; anything else is
/// answered with how it is to be used.
pub proof fn arguments_choose_the_mode(arguments: Seq<Vec<u8>>)
    ensures
        arguments.len() == 0 ==> host_mode(arguments) == Ok::<HostMode, &'static str>(
            HostMode::Interactive,
        ),
        arguments.len() > 0 && arguments[0]@ == crate::text::utf8("--command") ==> host_mode(
            arguments,
        ) == if arguments.len() == 2 {
            Ok::<HostMode, &'static str>(HostMode::Command(1))
        } else {
            Err::<HostMode, &'static str>("usage: host-model --command 'COMMAND'")
        },
        arguments.len() > 0 && arguments[0]@ == crate::text::utf8("--script") && arguments[0]@
            != crate::text::utf8("--command") ==> host_mode(arguments) == if arguments.len() == 2 {
            Ok::<HostMode, &'static str>(HostMode::Script(1))
        } else {
            Err::<HostMode, &'static str>("usage: host-model --script FILE")
        },
        arguments.len() > 0 && arguments[0]@ != crate::text::utf8("--script") && arguments[0]@
            != crate::text::utf8("--command") ==> host_mode(arguments) == Err::<
            HostMode,
            &'static str,
        >("usage: host-model [--command 'COMMAND' | --script FILE]"),
{
}

/// A line loses its line feed, and a carriage return before that, and nothing
/// else.
pub proof fn only_line_ends_are_trimmed(line: Seq<u8>)
    ensures
        trimmed(line.push(13).push(10)) == line,
        line.len() == 0 || line.last() != 13 ==> trimmed(line.push(10)) == line,
        line.len() == 0 || line.last() != 10 ==> trimmed(line) == line,
{
    assert(line.push(13).push(10).drop_last() =~= line.push(13));
    assert(line.push(13).drop_last() =~= line);
    assert(line.push(10).drop_last() =~= line);
}

/// A line is run exactly where its first character that is not white is no
/// number sign; blank lines and comments are passed over.
pub proof fn comments_and_blanks_are_passed_over(line: Seq<char>, i: int)
    requires
        0 <= i < line.len(),
        forall|k: int| 0 <= k < i ==> white(#[trigger] line[k]),
        !white(line[i]),
    ensures
        runs(line) <==> line[i] != '#',
        !runs(Seq::<char>::empty()),
        !runs(line.take(i)),
{
    assert(begins_at(line, i));
    assert forall|j: int| #[trigger] begins_at(line, j) implies j == i by {
        if j < i {
            assert(white(line[j]));
        } else if i < j {
            assert(white(line[i]));
        }
    }
    assert forall|j: int| !#[trigger] begins_at(line.take(i), j) by {
        if 0 <= j < i {
            assert(line.take(i)[j] == line[j]);
        }
    }
}

/// White space are the separators of every script, from tabs and spaces to those
/// of ideographs, and no letter or digit is among them.
pub proof fn separators_are_white(c: char)
    ensures
        white(c) <==> (c as u32 >= 9 && c as u32 <= 13) || c as u32 == 32 || c as u32 == 133
            || c as u32 == 160 || c as u32 == 5760 || (c as u32 >= 8192 && c as u32 <= 8202) || c
            as u32 == 8232 || c as u32 == 8233 || c as u32 == 8239 || c as u32 == 8287 || c as u32
            == 12288,
{
}

} // verus!
