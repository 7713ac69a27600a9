//! A program a graph can name as a view: it prints what its arguments say, fails
//! when they say so, and never finishes when they ask for that.

use vstd::prelude::*;
use vstd::string::StringExecFns;

use crate::bound::{a_text_has_no_fewer_bytes_than_characters, bytes_of};
use crate::search::{integer_of, read_code, read_count};
use crate::text::{decimal, quote, quoted, same, write_decimal};

verus! {

/// One thing a view prints.
#[derive(Debug, PartialEq, Eq)]
pub enum Step {
    /// A text on standard output.
    Say(String),
    /// A text on standard error.
    Complain(String),
}

/// A printed thing, as text.
pub enum Printed {
    /// On standard output.
    ToOutput(Seq<char>),
    /// On standard error.
    ToError(Seq<char>),
}

/// What a step prints.
pub open spec fn printed(step: Step) -> Printed {
    match step {
        Step::Say(text) => Printed::ToOutput(text@),
        Step::Complain(text) => Printed::ToError(text@),
    }
}

/// What steps print.
pub open spec fn all_printed(steps: Seq<Step>) -> Seq<Printed> {
    steps.map_values(|step: Step| printed(step))
}

/// One row of a view.
pub open spec fn row_text(row: nat) -> Seq<char> {
    "row "@ + decimal(row) + " of the prepared view\n"@
}

proof fn a_row_has_bytes(row: nat)
    ensures
        bytes_of(row_text(row)) > 0,
{
    reveal_strlit("row ");
    a_text_has_no_fewer_bytes_than_characters(row_text(row));
}

/// The rows that bring a view to at least `bytes` bytes, from one row on.
pub open spec fn rows(bytes: int, row: nat) -> Seq<char>
    decreases
        (if bytes > 0 {
            bytes
        } else {
            0
        }),
    via rows_shrink
{
    if bytes <= 0 {
        seq![]
    } else {
        row_text(row) + rows(bytes - bytes_of(row_text(row)), row + 1)
    }
}

#[via_fn]
proof fn rows_shrink(bytes: int, row: nat) {
    a_row_has_bytes(row);
}

/// As many whole rows as it takes to print `bytes` bytes.
///
/// Rows rather than one long line: a bound that lands inside a row is what a reader
/// has to notice.
pub fn bulk(bytes: usize) -> (text: String)
    ensures
        text@ == rows(bytes as int, 0),
{
    let mut text = String::new();
    let mut left: usize = bytes;
    let mut row: u64 = 0;
    assert(text@ + rows(bytes as int, 0) =~= rows(bytes as int, 0));
    while left > 0
        invariant
            row + left <= bytes,
            rows(bytes as int, 0) == text@ + rows(left as int, row as nat),
        decreases left,
    {
        let mut line = String::from_str("row ");
        line.append(write_decimal(row).as_str());
        line.append(" of the prepared view\n");
        let ghost was = text@;
        let length: usize = line.as_str().as_bytes().len();
        text.append(line.as_str());
        proof {
            a_row_has_bytes(row as nat);
            assert(line@ == row_text(row as nat));
            assert(length == bytes_of(line@));
            assert(was + rows(left as int, row as nat) =~= text@ + rows(
                left - length,
                (row + 1) as nat,
            ));
        }
        if length >= left {
            assert(rows(left - length, (row + 1) as nat) =~= seq![]);
            left = 0;
        } else {
            left = left - length;
        }
        row = row + 1;
    }
    assert(text@ + rows(0, row as nat) =~= text@);
    text
}

/// How a view ends.
#[derive(Debug, PartialEq, Eq)]
pub enum End {
    /// With this code, once it finishes; and whether it ever does.
    Exit {
        /// The code.
        code: i32,
        /// Whether it never finishes.
        hang: bool,
    },
    /// Its arguments are refused, and why.
    Refused(String),
}

/// What a view does: what it prints, in order, and how it ends. What came before a
/// refused argument is printed all the same.
#[derive(Debug, PartialEq, Eq)]
pub struct Script {
    /// What it prints.
    pub steps: Vec<Step>,
    /// How it ends.
    pub end: End,
}

/// How a view ends, as text.
pub enum Ending {
    /// With this code, or never.
    Exit(i32, bool),
    /// Refused.
    Refused(Seq<char>),
}

/// What arguments from `at` on say, given what the ones before them said.
pub open spec fn script_of(
    argv: Seq<String>,
    at: int,
    steps: Seq<Printed>,
    code: i32,
    hang: bool,
) -> (Seq<Printed>, Ending)
    decreases argv.len() - at,
{
    if at < 0 || at >= argv.len() {
        (steps, Ending::Exit(code, hang))
    } else {
        let name = argv[at]@;
        if name == "--hang"@ {
            script_of(argv, at + 1, steps, code, true)
        } else if name != "--say"@ && name != "--bulk"@ && name != "--complain"@ && name
            != "--fail"@ {
            (steps, Ending::Refused("unknown argument "@ + quoted(name)))
        } else if at + 1 >= argv.len() {
            (steps, Ending::Refused(name + " takes a value"@))
        } else {
            let value = argv[at + 1]@;
            if name == "--say"@ {
                script_of(argv, at + 2, steps.push(Printed::ToOutput(value + "\n"@)), code, hang)
            } else if name == "--complain"@ {
                script_of(argv, at + 2, steps.push(Printed::ToError(value + "\n"@)), code, hang)
            } else if name == "--bulk"@ {
                match integer_of(value) {
                    Some(count) if value[0] != '-' && count <= usize::MAX => script_of(
                        argv,
                        at + 2,
                        steps.push(Printed::ToOutput(rows(count, 0))),
                        code,
                        hang,
                    ),
                    _ => (
                        steps,
                        Ending::Refused(name + " takes a count of bytes, not "@ + quoted(value)),
                    ),
                }
            } else {
                match integer_of(value) {
                    Some(code) if i32::MIN <= code <= i32::MAX => script_of(
                        argv,
                        at + 2,
                        steps,
                        code as i32,
                        hang,
                    ),
                    _ => (
                        steps,
                        Ending::Refused(name + " takes an exit code, not "@ + quoted(value)),
                    ),
                }
            }
        }
    }
}

/// How a view ends, as text.
pub open spec fn ending(end: End) -> Ending {
    match end {
        End::Exit { code, hang } => Ending::Exit(code, hang),
        End::Refused(why) => Ending::Refused(why@),
    }
}

fn refuse(steps: Vec<Step>, name: &str, rest: &str) -> (script: Script)
    ensures
        script.steps == steps,
        script.end matches End::Refused(why) && why@ == name@ + rest@,
{
    let mut why = String::from_str(name);
    why.append(rest);
    Script { steps, end: End::Refused(why) }
}

/// What a view's arguments say.
pub fn script(argv: &Vec<String>) -> (script: Script)
    ensures
        (all_printed(script.steps@), ending(script.end)) == script_of(argv@, 0, seq![], 0, false),
{
    let mut steps: Vec<Step> = Vec::new();
    let mut code: i32 = 0;
    let mut hang = false;
    let mut at: usize = 0;
    assert(all_printed(steps@) =~= seq![]);
    while at < argv.len()
        invariant
            at <= argv@.len(),
            script_of(argv@, 0, seq![], 0, false) == script_of(
                argv@,
                at as int,
                all_printed(steps@),
                code,
                hang,
            ),
        decreases argv@.len() - at,
    {
        let ghost held = all_printed(steps@);
        let name = argv[at].as_str();
        if same(name, "--hang") {
            hang = true;
            at = at + 1;
            continue;
        }
        let say = same(name, "--say");
        let complain = same(name, "--complain");
        let counted = same(name, "--bulk");
        let fails = same(name, "--fail");
        if !say && !complain && !counted && !fails {
            return refuse(steps, "unknown argument ", quote(name).as_str());
        }
        if at + 1 >= argv.len() {
            return refuse(steps, name, " takes a value");
        }
        let value = argv[at + 1].as_str();
        if say || complain {
            let mut text = String::from_str(value);
            text.append("\n");
            let ghost line = text@;
            if say {
                steps.push(Step::Say(text));
                assert(all_printed(steps@) =~= held.push(Printed::ToOutput(line)));
            } else {
                steps.push(Step::Complain(text));
                assert(all_printed(steps@) =~= held.push(Printed::ToError(line)));
            }
        } else if counted {
            match read_count(value) {
                Some(count) => {
                    let text = bulk(count);
                    let ghost view = text@;
                    steps.push(Step::Say(text));
                    assert(all_printed(steps@) =~= held.push(Printed::ToOutput(view)));
                },
                None => {
                    let mut rest = String::from_str(" takes a count of bytes, not ");
                    rest.append(quote(value).as_str());
                    assert(name@ + rest@ =~= name@ + " takes a count of bytes, not "@ + quoted(
                        value@,
                    ));
                    return refuse(steps, name, rest.as_str());
                },
            }
        } else {
            match read_code(value) {
                Some(read) => {
                    code = read;
                },
                None => {
                    let mut rest = String::from_str(" takes an exit code, not ");
                    rest.append(quote(value).as_str());
                    assert(name@ + rest@ =~= name@ + " takes an exit code, not "@ + quoted(
                        value@,
                    ));
                    return refuse(steps, name, rest.as_str());
                },
            }
        }
        at = at + 2;
    }
    Script { steps, end: End::Exit { code, hang } }
}

} // verus!
