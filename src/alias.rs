use vstd::prelude::*;

verus! {

/// The words `parts` joined with `sep` between each two neighbours.
pub open spec fn join(parts: Seq<Seq<char>>, sep: Seq<char>) -> Seq<char>
    decreases parts.len(),
{
    if parts.len() == 0 {
        Seq::empty()
    } else if parts.len() == 1 {
        parts[0]
    } else {
        join(parts.drop_last(), sep) + sep + parts.last()
    }
}

/// The character sequences held by a sequence of strings.
pub open spec fn strs(v: Seq<String>) -> Seq<Seq<char>> {
    v.map_values(|s: String| s@)
}

/// What an alias stands for, as plain values.
pub enum AliasSpec {
    Single(Seq<char>),
    Parallel(Seq<Seq<char>>),
}

/// A stored alias: one shell command line, or a group of command lines
/// that run concurrently.
pub enum AliasEntry {
    Single(String),
    Parallel(Vec<String>),
}

impl View for AliasEntry {
    type V = AliasSpec;

    open spec fn view(&self) -> AliasSpec {
        match self {
            AliasEntry::Single(s) => AliasSpec::Single(s@),
            AliasEntry::Parallel(v) => AliasSpec::Parallel(strs(v@)),
        }
    }
}

/// How an alias is shown to the user: a single command as it is, a parallel
/// group as its commands joined by `", "` inside square brackets.
pub open spec fn display_of(a: AliasSpec) -> Seq<char> {
    match a {
        AliasSpec::Single(s) => s,
        AliasSpec::Parallel(cmds) => seq!['['] + join(cmds, seq![',', ' ']) + seq![']'],
    }
}

/// The command line of a single alias run with runtime arguments: the
/// arguments are appended after one space, themselves joined by spaces.
pub open spec fn final_line(cmd: Seq<char>, extra: Seq<Seq<char>>) -> Seq<char> {
    if extra.len() == 0 {
        cmd
    } else {
        cmd + seq![' '] + join(extra, seq![' '])
    }
}

/// The shell command lines that running an alias executes. A parallel group
/// takes no runtime arguments: they are ignored.
pub open spec fn lines_of(a: AliasSpec, extra: Seq<Seq<char>>) -> Seq<Seq<char>> {
    match a {
        AliasSpec::Single(cmd) => seq![final_line(cmd, extra)],
        AliasSpec::Parallel(cmds) => cmds,
    }
}

/// The alias that `add` stores: the commands as a group when `parallel` is
/// set, else one command line made of the commands joined by spaces.
pub open spec fn entry_of_add(parallel: bool, commands: Seq<Seq<char>>) -> AliasSpec {
    if parallel {
        AliasSpec::Parallel(commands)
    } else {
        AliasSpec::Single(join(commands, seq![' ']))
    }
}

/// An alias that has something to run: a parallel group is not empty.
pub open spec fn has_command(a: AliasSpec) -> bool {
    match a {
        AliasSpec::Single(_) => true,
        AliasSpec::Parallel(cmds) => cmds.len() > 0,
    }
}

/// A parallel group ignores runtime arguments: whatever they are, it runs
/// exactly its own command lines, as it does with none.
pub proof fn law_parallel_ignores_args(cmds: Seq<Seq<char>>, extra: Seq<Seq<char>>)
    ensures
        lines_of(AliasSpec::Parallel(cmds), extra) == cmds,
        lines_of(AliasSpec::Parallel(cmds), extra) == lines_of(AliasSpec::Parallel(cmds), Seq::empty()),
{
}

/// Joins `parts` with `sep` between each two neighbours.
pub fn join_strings(parts: &Vec<String>, sep: &str) -> (r: String)
    ensures
        r@ == join(strs(parts@), sep@),
{
    let mut r = String::new();
    let n = parts.len();
    let ghost ps = strs(parts@);
    let mut i: usize = 0;
    while i < n
        invariant
            n == parts@.len(),
            ps == strs(parts@),
            i <= n,
            r@ == join(ps.take(i as int), sep@),
        decreases n - i,
    {
        proof {
            assert(ps.take(i + 1).drop_last() =~= ps.take(i as int));
        }
        if i > 0 {
            r.append(sep);
        }
        r.append(parts[i].as_str());
        proof {
            if i == 0 {
                assert(r@ =~= ps.take(1)[0]);
            }
        }
        i = i + 1;
    }
    proof {
        assert(ps.take(n as int) =~= ps);
    }
    r
}

impl AliasEntry {
    /// The alias that `add` stores for `commands`: the commands as a parallel
    /// group when `parallel` is set, else one command line of the commands
    /// joined by spaces.
    pub fn from_add(parallel: bool, commands: &Vec<String>) -> (r: AliasEntry)
        requires
            commands@.len() > 0,
        ensures
            r@ == entry_of_add(parallel, strs(commands@)),
            has_command(r@),
    {
        if parallel {
            AliasEntry::Parallel(copy_strings(commands))
        } else {
            proof {
                reveal_strlit(" ");
                assert(" "@ =~= seq![' ']);
            }
            AliasEntry::Single(join_strings(commands, " "))
        }
    }

    /// The text that shows this alias to the user.
    pub fn display(&self) -> (r: String)
        ensures
            r@ == display_of(self@),
    {
        match self {
            AliasEntry::Single(s) => s.clone(),
            AliasEntry::Parallel(cmds) => {
                let mut r = String::new();
                r.append("[");
                let j = join_strings(cmds, ", ");
                r.append(j.as_str());
                r.append("]");
                proof {
                    reveal_strlit("[");
                    reveal_strlit("]");
                    reveal_strlit(", ");
                    assert(", "@ =~= seq![',', ' ']);
                    assert(r@ =~= display_of(self@));
                }
                r
            }
        }
    }

    /// Whether running this alias with `extra_args` ignores them: a parallel
    /// group takes no runtime arguments.
    pub fn ignores_args(&self, extra_args: &Vec<String>) -> (r: bool)
        ensures
            r == (self is Parallel && extra_args@.len() > 0),
    {
        match self {
            AliasEntry::Single(_) => false,
            AliasEntry::Parallel(_) => extra_args.len() > 0,
        }
    }

    /// The shell command lines that running this alias with `extra_args`
    /// executes, one per concurrent unit.
    pub fn command_lines(&self, extra_args: &Vec<String>) -> (r: Vec<String>)
        ensures
            strs(r@) == lines_of(self@, strs(extra_args@)),
    {
        match self {
            AliasEntry::Single(cmd) => {
                let line = final_command(cmd.as_str(), extra_args);
                let mut r: Vec<String> = Vec::new();
                r.push(line);
                assert(strs(r@) =~= lines_of(self@, strs(extra_args@)));
                r
            }
            AliasEntry::Parallel(cmds) => {
                copy_strings(cmds)
            }
        }
    }
}

/// The command line of a single alias `cmd` run with `extra_args`: `cmd`
/// unchanged when there are none, else `cmd`, one space, and the arguments
/// joined by spaces.
pub fn final_command(cmd: &str, extra_args: &Vec<String>) -> (r: String)
    ensures
        r@ == final_line(cmd@, strs(extra_args@)),
{
    let mut r = cmd.to_owned();
    if extra_args.len() > 0 {
        r.append(" ");
        let j = join_strings(extra_args, " ");
        r.append(j.as_str());
        proof {
            reveal_strlit(" ");
            assert(" "@ =~= seq![' ']);
        }
    }
    r
}

/// A copy of `v`, string by string.
pub fn copy_strings(v: &Vec<String>) -> (r: Vec<String>)
    ensures
        strs(r@) == strs(v@),
{
    let mut r: Vec<String> = Vec::new();
    let mut i: usize = 0;
    while i < v.len()
        invariant
            i <= v@.len(),
            r@.len() == i,
            forall|j: int| 0 <= j < i ==> #[trigger] r@[j]@ == v@[j]@,
        decreases v@.len() - i,
    {
        let s = v[i].clone();
        r.push(s);
        i = i + 1;
    }
    assert(strs(r@) =~= strs(v@));
    r
}

} // verus!
