use vstd::prelude::*;
use crate::alias::{AliasEntry, AliasSpec, lines_of, strs};
use crate::config::Config;

verus! {

/// What running one alias takes: the command lines to execute, one per
/// concurrent unit, whether they form a parallel group, and whether runtime
/// arguments were given that a parallel group ignores.
pub struct RunPlan {
    pub alias: String,
    pub lines: Vec<String>,
    pub parallel: bool,
    pub ignored_args: bool,
}

/// What an invocation comes to.
pub enum Invocation {
    /// No alias was named: show the usage.
    Help,
    /// The interactive selection ended without a choice: nothing runs.
    Nothing,
    /// The named alias does not exist.
    Unknown(String),
    /// Run an alias.
    Run(RunPlan),
}

/// `r` is the plan for running `alias` of `m` with runtime arguments `extra`,
/// or the report that there is no such alias.
pub open spec fn resolves_to(
    m: Map<Seq<char>, AliasSpec>,
    alias: Seq<char>,
    extra: Seq<Seq<char>>,
    r: Invocation,
) -> bool {
    if m.contains_key(alias) {
        match r {
            Invocation::Run(p) => {
                &&& p.alias@ == alias
                &&& strs(p.lines@) == lines_of(m[alias], extra)
                &&& p.parallel == (m[alias] is Parallel)
                &&& p.ignored_args == (m[alias] is Parallel && extra.len() > 0)
            },
            _ => false,
        }
    } else {
        match r {
            Invocation::Unknown(name) => name@ == alias,
            _ => false,
        }
    }
}

/// Resolves `alias` with runtime arguments `extra_args` against the aliases of
/// `config`.
pub fn resolve(config: &Config, alias: &str, extra_args: &Vec<String>) -> (r: Invocation)
    ensures
        resolves_to(config.aliases@, alias@, strs(extra_args@), r),
{
    match config.aliases.get(alias) {
        Some(entry) => {
            let lines = entry.command_lines(extra_args);
            let ignored_args = entry.ignores_args(extra_args);
            let parallel = match entry {
                AliasEntry::Parallel(_) => true,
                AliasEntry::Single(_) => false,
            };
            Invocation::Run(RunPlan { alias: alias.to_owned(), lines, parallel, ignored_args })
        },
        None => Invocation::Unknown(alias.to_owned()),
    }
}

/// Resolves a command line that names an alias and its runtime arguments:
/// the first word is the alias, the rest are its arguments; with no word at
/// all the usage is shown.
pub fn plan_named(config: &Config, args: &Vec<String>) -> (r: Invocation)
    ensures
        args@.len() == 0 ==> r is Help,
        args@.len() > 0 ==> resolves_to(
            config.aliases@,
            args@[0]@,
            strs(args@).drop_first(),
            r,
        ),
{
    if args.len() == 0 {
        return Invocation::Help;
    }
    let mut extra: Vec<String> = Vec::new();
    let mut i: usize = 1;
    while i < args.len()
        invariant
            1 <= i <= args@.len(),
            extra@.len() == i - 1,
            forall|j: int| 0 <= j < i - 1 ==> #[trigger] extra@[j]@ == args@[j + 1]@,
        decreases args@.len() - i,
    {
        extra.push(args[i].clone());
        i = i + 1;
    }
    assert(strs(extra@) =~= strs(args@).drop_first());
    resolve(config, args[0].as_str(), &extra)
}

/// Resolves the outcome of the interactive selection: no choice runs
/// nothing, a chosen alias runs without runtime arguments.
pub fn plan_selected(config: &Config, choice: &Option<String>) -> (r: Invocation)
    ensures
        choice is None ==> r is Nothing,
        choice is Some ==> resolves_to(config.aliases@, choice->0@, Seq::empty(), r),
{
    match choice {
        None => Invocation::Nothing,
        Some(name) => {
            let extra: Vec<String> = Vec::new();
            assert(strs(extra@) =~= Seq::<Seq<char>>::empty());
            resolve(config, name.as_str(), &extra)
        },
    }
}

/// Whether every unit of a run succeeded.
pub open spec fn all_true(results: Seq<bool>) -> bool {
    forall|i: int| 0 <= i < results.len() ==> results[i]
}

/// The overall outcome of a run: a success exactly when every unit
/// succeeded, a failure as soon as one failed or could not start.
pub fn all_succeeded(results: &Vec<bool>) -> (r: bool)
    ensures
        r == all_true(results@),
        !r <==> exists|i: int| 0 <= i < results@.len() && !results@[i],
{
    let mut ok = true;
    let mut i: usize = 0;
    while i < results.len()
        invariant
            i <= results@.len(),
            ok == (forall|j: int| 0 <= j < i ==> results@[j]),
        decreases results@.len() - i,
    {
        if !results[i] {
            ok = false;
        }
        i = i + 1;
    }
    ok
}

/// The exit status of an invocation, given what each unit of its run
/// reported: 0 when it ran and every unit succeeded, or when nothing was to
/// run; 1 for an unknown alias or a failed run.
pub open spec fn exit_status_of(inv: Invocation, results: Seq<bool>) -> i32 {
    match inv {
        Invocation::Unknown(_) => 1,
        Invocation::Run(_) => if all_true(results) {
            0
        } else {
            1
        },
        _ => 0,
    }
}

impl Invocation {
    /// The exit status of this invocation, given what each unit of its run
    /// reported.
    pub fn exit_code(&self, results: &Vec<bool>) -> (r: i32)
        ensures
            r == exit_status_of(*self, results@),
    {
        match self {
            Invocation::Unknown(_) => 1,
            Invocation::Run(_) => if all_succeeded(results) {
                0
            } else {
                1
            },
            _ => 0,
        }
    }
}

} // verus!
