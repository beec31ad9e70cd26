use vstd::prelude::*;

verus! {

/// One argument of a command, as the schema declares it.
pub struct ArgDescriptor {
    /// Stable key of the argument; a flag is written `--<id>=<value>`.
    pub id: String,
    /// Positional arguments are written as the bare value.
    pub positional: bool,
    pub required: bool,
    /// The argument takes more than one value.
    pub repeated: bool,
    /// Values of a repeated argument are joined with this text into one token.
    pub delimiter: Option<String>,
    pub help: Option<String>,
    /// A short description of the value's type, shown in verbose sessions.
    pub type_hint: Option<String>,
}

/// One command of the schema with its arguments and subcommands.
pub struct CommandDescriptor {
    pub name: String,
    pub args: Vec<ArgDescriptor>,
    pub subcommands: Vec<CommandDescriptor>,
    pub subcommand_required: bool,
    /// Label of the subcommand slot, shown when a subcommand is offered.
    pub subcommand_label: Option<String>,
}

/// How the value of one argument is asked for.
#[derive(Clone, Copy, Debug, PartialEq, Eq, Structural)]
pub enum Strategy {
    /// Ask again and again until the user declines.
    Repeated,
    /// Ask for the value directly.
    Required,
    /// Ask whether to give a value first.
    Optional,
}

pub open spec fn strategy_of(a: ArgDescriptor) -> Strategy {
    if a.repeated {
        Strategy::Repeated
    } else if a.required {
        Strategy::Required
    } else {
        Strategy::Optional
    }
}

/// Chooses the prompt strategy of an argument: repeated arguments first,
/// then required ones; all others are optional.
pub fn classify(arg: &ArgDescriptor) -> (r: Strategy)
    ensures
        r == strategy_of(*arg),
{
    if arg.repeated {
        Strategy::Repeated
    } else if arg.required {
        Strategy::Required
    } else {
        Strategy::Optional
    }
}

/// The command reached from `c` by following the subcommand indices of `path`.
pub open spec fn command_at(c: CommandDescriptor, path: Seq<usize>) -> Option<CommandDescriptor>
    decreases path.len(),
{
    if path.len() == 0 {
        Some(c)
    } else if path[0] < c.subcommands@.len() {
        command_at(c.subcommands@[path[0] as int], path.drop_first())
    } else {
        None
    }
}

/// Descending one more level from the command at `path`.
pub proof fn lemma_command_at_push(c: CommandDescriptor, path: Seq<usize>, k: usize)
    requires
        command_at(c, path) is Some,
    ensures
        ({
            let d = command_at(c, path)->0;
            command_at(c, path.push(k)) == if k < d.subcommands@.len() {
                Some(d.subcommands@[k as int])
            } else {
                None
            }
        }),
    decreases path.len(),
{
    if path.len() > 0 {
        assert(path.push(k).drop_first() =~= path.drop_first().push(k));
        assert(path.push(k)[0] == path[0]);
        lemma_command_at_push(c.subcommands@[path[0] as int], path.drop_first(), k);
    } else {
        assert(path.push(k).drop_first() =~= Seq::<usize>::empty());
        assert(path.push(k)[0] == k);
        if k < c.subcommands@.len() {
            assert(command_at(c.subcommands@[k as int], Seq::<usize>::empty()) == Some(
                c.subcommands@[k as int],
            ));
        }
    }
}

/// Follows `path` down from `root`.
pub fn command_at_path<'a>(root: &'a CommandDescriptor, path: &Vec<usize>) -> (r: &'a CommandDescriptor)
    requires
        command_at(*root, path@) is Some,
    ensures
        command_at(*root, path@) == Some(*r),
{
    let mut cmd = root;
    let mut i: usize = 0;
    assert(path@.subrange(0, path@.len() as int) =~= path@);
    while i < path.len()
        invariant
            i <= path@.len(),
            command_at(*root, path@) is Some,
            command_at(*cmd, path@.subrange(i as int, path@.len() as int)) == command_at(*root, path@),
        decreases path@.len() - i,
    {
        let ghost rest = path@.subrange(i as int, path@.len() as int);
        assert(rest.drop_first() =~= path@.subrange(i + 1, path@.len() as int));
        assert(rest[0] == path@[i as int]);
        assert(path@[i as int] < cmd.subcommands@.len());
        cmd = &cmd.subcommands[path[i]];
        i = i + 1;
    }
    assert(path@.subrange(i as int, path@.len() as int) =~= Seq::<usize>::empty());
    cmd
}

} // verus!
