//! A stand-in for the `llmlint` program an llmlint judge runs, steered by its
//! environment.

use vstd::prelude::*;
use vstd::string::StringExecFns;

use crate::json::{json_strings, write_strings};
use crate::text::{copy_text, join, quote, quoted, same, separated, text_of, texts_of};

verus! {

/// What a run concludes.
#[derive(Debug, Clone, Copy, PartialEq, Eq, Structural)]
pub enum Verdict {
    /// Every rule holds.
    Pass,
    /// A rule does not.
    Fail,
    /// Fails once, and passes ever after.
    FailOnce,
    /// The run could not complete.
    Broken,
}

impl Verdict {
    /// The verdict a value asks for; none where it is a spelling nobody documented.
    pub open spec fn asked(requested: Option<Seq<char>>) -> Option<Verdict> {
        match requested {
            None => Some(Verdict::Pass),
            Some(text) => if text == "pass"@ {
                Some(Verdict::Pass)
            } else if text == "fail"@ {
                Some(Verdict::Fail)
            } else if text == "fail-once"@ {
                Some(Verdict::FailOnce)
            } else if text == "broken"@ {
                Some(Verdict::Broken)
            } else {
                None
            },
        }
    }

    /// The verdict a value asks for, passing where there is none.
    pub fn parse(requested: &Option<String>) -> (verdict: Result<Verdict, String>)
        ensures
            match Verdict::asked(text_of(*requested)) {
                Some(asked) => verdict == Ok::<Verdict, String>(asked),
                None => verdict matches Err(why) && why@
                    == "FAKE_LLMLINT_VERDICT must be pass, fail, fail-once, or broken; got "@
                    + quoted(text_of(*requested)->0),
            },
    {
        let text = match requested {
            None => return Ok(Verdict::Pass),
            Some(text) => text.as_str(),
        };
        if same(text, "pass") {
            return Ok(Verdict::Pass);
        }
        if same(text, "fail") {
            return Ok(Verdict::Fail);
        }
        if same(text, "fail-once") {
            return Ok(Verdict::FailOnce);
        }
        if same(text, "broken") {
            return Ok(Verdict::Broken);
        }
        let mut why = String::from_str(
            "FAKE_LLMLINT_VERDICT must be pass, fail, fail-once, or broken; got ",
        );
        why.append(quote(text).as_str());
        Err(why)
    }
}

/// What a run says and exits with.
#[derive(Debug, PartialEq, Eq)]
pub struct Report {
    /// What it writes to standard output.
    pub stdout: String,
    /// What it writes to standard error.
    pub stderr: String,
    /// Its exit code.
    pub code: u8,
}

/// What a run does, before its first run is known to be one.
#[derive(Debug, PartialEq, Eq)]
pub enum Asked {
    /// Report at once.
    Report(Report),
    /// Report by whether this file could be made, which the first run alone can.
    Once(String),
}

/// What a passing run writes.
pub const PASSED: &'static str = "Evaluated 3 rules over 2 files.\n0 violations, 3 rules hold\n";

/// What a failing run writes.
pub const FAILED: &'static str = "Evaluated 3 rules over 2 files.\n\nsrc/lib.rs: no_todo — a TODO was left in the change\n  fake finding: the double was told to fail this run\n\n1 violation, 2 rules hold\n";

/// Whether a report is this one.
pub open spec fn says(report: Report, out: Seq<char>, err: Seq<char>, code: u8) -> bool {
    report.stdout@ == out && report.stderr@ == err && report.code == code
}

/// Whether a report is a passing one or a failing one.
pub open spec fn concludes(report: Report, passed: bool) -> bool {
    if passed {
        says(report, PASSED@, seq![], 0)
    } else {
        says(report, FAILED@, seq![], 1)
    }
}

/// An argument list as a diagnostic shows it.
pub open spec fn shown(argv: Seq<String>) -> Seq<char> {
    "["@ + separated(texts_of(argv).map_values(|arg: Seq<char>| quoted(arg)), ", "@) + "]"@
}

fn show(argv: &Vec<String>) -> (text: String)
    ensures
        text@ == shown(argv@),
{
    let ghost all = texts_of(argv@).map_values(|arg: Seq<char>| quoted(arg));
    let mut parts: Vec<String> = Vec::new();
    let mut at: usize = 0;
    while at < argv.len()
        invariant
            at <= argv@.len(),
            all == texts_of(argv@).map_values(|arg: Seq<char>| quoted(arg)),
            texts_of(parts@) =~= all.take(at as int),
        decreases argv@.len() - at,
    {
        let ghost held = texts_of(parts@);
        let part = quote(argv[at].as_str());
        assert(part@ == all[at as int]);
        parts.push(part);
        assert(texts_of(parts@) =~= held.push(all[at as int]));
        at = at + 1;
    }
    assert(texts_of(parts@) =~= all);
    let mut text = String::from_str("[");
    text.append(join(&parts, ", ").as_str());
    text.append("]");
    text
}

/// Whether `asked` is what these arguments and variables ask for.
///
/// The version answers whatever the verdict, because that is the probe made before
/// any turn.
pub open spec fn asks(
    asked: Asked,
    argv: Seq<String>,
    verdict: Option<Seq<char>>,
    marker: Option<Seq<char>>,
) -> bool {
    if argv.len() > 0 && argv[0]@ == "--version"@ {
        asked matches Asked::Report(report) && says(
            report,
            "llmlint 0.0.0 (oneagentgraph double)\n"@,
            seq![],
            0,
        )
    } else if argv.len() == 0 || argv[0]@ != "lint"@ {
        asked matches Asked::Report(report) && says(
            report,
            seq![],
            "fake-llmlint: expected `lint` or `--version`, got "@ + shown(argv) + "\n"@,
            2,
        )
    } else {
        match Verdict::asked(verdict) {
            None => asked matches Asked::Report(report) && says(
                report,
                seq![],
                "fake-llmlint: "@
                    + "FAKE_LLMLINT_VERDICT must be pass, fail, fail-once, or broken; got "@
                    + quoted(verdict->0) + "\n"@,
                2,
            ),
            Some(Verdict::Pass) => asked matches Asked::Report(report) && concludes(report, true),
            Some(Verdict::Fail) => asked matches Asked::Report(report) && concludes(report, false),
            Some(Verdict::Broken) => asked matches Asked::Report(report) && says(
                report,
                seq![],
                "fake-llmlint: the judge harness is unreachable\n"@,
                2,
            ),
            Some(Verdict::FailOnce) => match marker {
                Some(path) => asked matches Asked::Once(file) && file@ == path,
                None => asked matches Asked::Report(report) && says(
                    report,
                    seq![],
                    "fake-llmlint: fail-once needs FAKE_LLMLINT_MARKER\n"@,
                    2,
                ),
            },
        }
    }
}

fn complain(text: String) -> (asked: Asked)
    ensures
        asked matches Asked::Report(report) && says(report, seq![], text@ + "\n"@, 2),
{
    let mut stderr = text;
    stderr.append("\n");
    let stdout = String::new();
    assert(stdout@ =~= seq![]);
    Asked::Report(Report { stdout, stderr, code: 2 })
}

/// A passing report, or a failing one. A run that fails once passes where the file
/// that marks its first run was already there.
pub fn conclude(passed: bool) -> (report: Report)
    ensures
        concludes(report, passed),
{
    let stderr = String::new();
    assert(stderr@ =~= seq![]);
    if passed {
        Report { stdout: String::from_str(PASSED), stderr, code: 0 }
    } else {
        Report { stdout: String::from_str(FAILED), stderr, code: 1 }
    }
}

/// What these arguments and variables ask for.
pub fn ask(argv: &Vec<String>, verdict: &Option<String>, marker: &Option<String>) -> (asked: Asked)
    ensures
        asks(asked, argv@, text_of(*verdict), text_of(*marker)),
{
    if argv.len() > 0 && same(argv[0].as_str(), "--version") {
        let stderr = String::new();
        assert(stderr@ =~= seq![]);
        let stdout = String::from_str("llmlint 0.0.0 (oneagentgraph double)\n");
        return Asked::Report(Report { stdout, stderr, code: 0 });
    }
    if argv.len() == 0 || !same(argv[0].as_str(), "lint") {
        let mut text = String::from_str("fake-llmlint: expected `lint` or `--version`, got ");
        text.append(show(argv).as_str());
        return complain(text);
    }
    match Verdict::parse(verdict) {
        Err(why) => {
            let mut text = String::from_str("fake-llmlint: ");
            text.append(why.as_str());
            assert(text@ + "\n"@ =~= "fake-llmlint: "@
                + "FAKE_LLMLINT_VERDICT must be pass, fail, fail-once, or broken; got "@ + quoted(
                text_of(*verdict)->0,
            ) + "\n"@);
            complain(text)
        },
        Ok(Verdict::Pass) => Asked::Report(conclude(true)),
        Ok(Verdict::Fail) => Asked::Report(conclude(false)),
        Ok(Verdict::Broken) => {
            let stdout = String::new();
            assert(stdout@ =~= seq![]);
            let stderr = String::from_str("fake-llmlint: the judge harness is unreachable\n");
            Asked::Report(Report { stdout, stderr, code: 2 })
        },
        Ok(Verdict::FailOnce) => match copy_text(marker) {
            Some(path) => Asked::Once(path),
            None => {
                let stdout = String::new();
                assert(stdout@ =~= seq![]);
                let stderr = String::from_str(
                    "fake-llmlint: fail-once needs FAKE_LLMLINT_MARKER\n",
                );
                Asked::Report(Report { stdout, stderr, code: 2 })
            },
        },
    }
}

/// One invocation's arguments, as the line of JSON its log is given.
pub fn argv_line(argv: &Vec<String>) -> (line: String)
    ensures
        line@ == json_strings(texts_of(argv@)),
{
    write_strings(argv)
}

} // verus!
