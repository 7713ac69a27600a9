//! Building every member of a graph without starting any: what `validate` does, and
//! what a `--detach` does before it starts anything.

use vstd::prelude::*;
use vstd::string::StringExecFns;

use crate::anchor::{join_path, seen, under};
use crate::config::{GraphConfig, TaskText, FIRST_TASK_TOKEN_VERSION};
use crate::error::{answers, Error};
use crate::invoke::{build, build_refusal, sources_fit, Context, ResolvedRef, Sources};
use crate::provider::Refused;
use crate::text::{quote, quoted, text_of};

verus! {

/// The session a member is built under while nothing is started.
pub const CHECK_SESSION: &'static str = "validate";

/// The directory a member is built for while nothing is started.
pub const CHECK_DIR: &'static str = ".";

/// What the members of a graph are built against.
#[derive(Debug, Clone, Copy)]
pub struct Check<'a> {
    /// The directory this process runs in.
    pub here: &'a str,
    /// The throwaway directory each member gets a directory of its own under.
    pub scratch: &'a str,
    /// The variable the ownership stamp is carried in.
    pub scratch_env: &'a str,
    /// The directory relative refs in the graph document resolve against.
    pub graph_dir: Option<&'a str>,
    /// The task prose: a stand-in for `validate`, the run's own for a `--detach`.
    pub task: Option<&'a str>,
    /// The `oneharness` binary.
    pub oneharness_bin: &'a str,
}

/// What resolving everything one member names gave.
#[derive(Debug)]
pub struct Named {
    /// What reading the graph's persona catalog came to.
    pub catalog: Result<(), Error>,
    /// The member's own sources.
    pub sources: Sources,
    /// Every config ref that was read.
    pub refs: Vec<ResolvedRef>,
}

/// Whether `context` is the one a member of this name is checked in.
pub open spec fn checked_in(
    context: Context<'_>,
    check: Check<'_>,
    graph: GraphConfig,
    name: Seq<char>,
) -> bool {
    &&& context.here@ == check.here@
    &&& context.dir@ == CHECK_DIR@
    &&& context.scratch@ == under(check.scratch@, name)
    &&& context.scratch_env@ == check.scratch_env@
    &&& seen(context.graph_dir) == seen(check.graph_dir)
    &&& seen(context.personas) == text_of(graph.personas)
    &&& seen(context.task) == seen(check.task)
    &&& context.task_text == if graph.version >= FIRST_TASK_TOKEN_VERSION {
        TaskText::Template
    } else {
        TaskText::Literal
    }
    &&& context.session@ == CHECK_SESSION@
    &&& context.oneharness_bin@ == check.oneharness_bin@
}

/// What a refusal reads as.
pub open spec fn refusal_said(refused: Refused) -> Seq<char> {
    match refused {
        Refused::Carried(error) => error.said(),
        Refused::Said(why) => "invalid config: "@ + why,
    }
}

/// What a graph is refused with for one member that cannot be built.
pub open spec fn member_unbuilt(name: Seq<char>, said: Seq<char>) -> Seq<char> {
    "member "@ + quoted(name) + ": "@ + said
}

/// Whether a member comes to `refusal`: none where its invocation can be built, and
/// what the graph is refused with where it cannot.
#[verifier::opaque]
pub open spec fn comes_to(
    graph: GraphConfig,
    at: int,
    check: Check<'_>,
    named: Named,
    refusal: Option<Seq<char>>,
) -> bool {
    exists|context: Context<'_>| #[trigger]
        checked_in(context, check, graph, graph.members@[at].0@) && refusal == (
        match build_refusal(graph.members@[at].1, named.catalog, named.sources, context) {
            Some(refused) => Some(
                member_unbuilt(graph.members@[at].0@, refusal_said(refused)),
            ),
            None => None,
        })
}

/// Whether each of the first `upto` members can be built.
pub open spec fn all_built(
    graph: GraphConfig,
    check: Check<'_>,
    named: Seq<Named>,
    upto: int,
) -> bool {
    forall|i: int| 0 <= i < upto ==> comes_to(graph, i, check, #[trigger] named[i], None)
}

/// What a graph is refused with when one member's invocation cannot be built.
pub fn unbuildable(member: &str, refused: &Error) -> (error: Error)
    ensures
        error matches Error::InvalidConfig(text) && text@ == member_unbuilt(
            member@,
            refused.said(),
        ),
{
    let mut text = String::from_str("member ");
    text.append(quote(member).as_str());
    text.append(": ");
    text.append(refused.message().as_str());
    Error::InvalidConfig(text)
}

fn build_one(graph: &GraphConfig, at: usize, check: &Check<'_>, named: Named) -> (built: Result<
    (),
    Error,
>)
    requires
        at < graph.members@.len(),
        sources_fit(graph.members@[at as int].1, named.sources),
    ensures
        exists|refusal: Option<Seq<char>>| #[trigger]
            comes_to(*graph, at as int, *check, named, refusal) && answers(built, refusal),
{
    let name = graph.members[at].0.as_str();
    let scratch = join_path(check.scratch, name);
    let context = Context {
        here: check.here,
        dir: CHECK_DIR,
        scratch: scratch.as_str(),
        scratch_env: check.scratch_env,
        graph_dir: check.graph_dir,
        personas: match &graph.personas {
            Some(personas) => Some(personas.as_str()),
            None => None,
        },
        task: check.task,
        task_text: TaskText::under(graph.version),
        session: CHECK_SESSION,
        oneharness_bin: check.oneharness_bin,
    };
    let ghost refused = build_refusal(
        graph.members@[at as int].1,
        named.catalog,
        named.sources,
        context,
    );
    let ghost refusal = match refused {
        Some(refused) => Some(
            member_unbuilt(graph.members@[at as int].0@, refusal_said(refused)),
        ),
        None => None,
    };
    let ghost whole = named;
    let prepared = build(&graph.members[at].1, &context, named.catalog, named.sources, named.refs);
    assert(checked_in(context, *check, *graph, graph.members@[at as int].0@));
    assert(comes_to(*graph, at as int, *check, whole, refusal)) by {
        reveal(comes_to);
    }
    match prepared.invocation {
        Ok(_) => Ok(()),
        Err(error) => Err(unbuildable(name, &error)),
    }
}

/// Build every member of a graph, in order; `named` is what resolving everything
/// each of them names gave.
///
/// Accepted when, and only when, every member's invocation can be built; refused
/// with the first that cannot be.
pub fn build_members(graph: &GraphConfig, check: &Check<'_>, named: Vec<Named>) -> (built: Result<
    (),
    Error,
>)
    requires
        named@.len() == graph.members@.len(),
        forall|i: int|
            0 <= i < named@.len() ==> sources_fit(
                graph.members@[i].1,
                (#[trigger] named@[i]).sources,
            ),
    ensures
        match built {
            Ok(_) => all_built(*graph, *check, named@, named@.len() as int),
            Err(error) => error matches Error::InvalidConfig(text) && exists|at: int|
                0 <= at < named@.len() && comes_to(
                    *graph,
                    at,
                    *check,
                    #[trigger] named@[at],
                    Some(text@),
                ) && all_built(*graph, *check, named@, at),
        },
{
    let ghost all = named@;
    let mut rest = named;
    let mut at: usize = 0;
    assert(all.skip(0) =~= all);
    while at < graph.members.len()
        invariant
            at <= graph.members@.len(),
            all.len() == graph.members@.len(),
            rest@ == all.skip(at as int),
            forall|i: int|
                0 <= i < all.len() ==> sources_fit(
                    graph.members@[i].1,
                    (#[trigger] all[i]).sources,
                ),
            all_built(*graph, *check, all, at as int),
            all == named@,
        decreases graph.members@.len() - at,
    {
        assert(rest@[0] == all[at as int]);
        let next = rest.remove(0);
        assert(rest@ =~= all.skip(at + 1));
        let ghost held = next;
        match build_one(graph, at, check, next) {
            Ok(()) => {
                assert(comes_to(*graph, at as int, *check, held, None));
            },
            Err(error) => {
                assert(exists|refusal: Option<Seq<char>>| #[trigger]
                    comes_to(*graph, at as int, *check, held, refusal) && answers(
                        Err::<(), Error>(error),
                        refusal,
                    ));
                proof {
                    let refusal = choose|refusal: Option<Seq<char>>| #[trigger]
                        comes_to(*graph, at as int, *check, held, refusal) && answers(
                            Err::<(), Error>(error),
                            refusal,
                        );
                    assert(refusal == Some(error->InvalidConfig_0@));
                    assert(comes_to(*graph, at as int, *check, all[at as int], refusal));
                }
                return Err(error);
            },
        }
        at = at + 1;
    }
    Ok(())
}

} // verus!
