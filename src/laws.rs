use vstd::prelude::*;
use crate::schema::{CommandDescriptor, Strategy, strategy_of};
use crate::session::{Reply, SessionView, Stage, current, enter_arg, next, run, well_formed};
use crate::schema::ArgDescriptor;
use crate::tokens::{repeated_tokens_of, value_token_of};

verus! {

/// A required argument is never offered to be skipped: when the session
/// reaches it, it asks for its value directly.
pub proof fn lemma_required_is_asked(
    c: CommandDescriptor,
    tokens: Seq<Seq<char>>,
    path: Seq<usize>,
    i: nat,
    verbose: bool,
)
    requires
        i < c.args@.len(),
        strategy_of(c.args@[i as int]) == Strategy::Required,
    ensures
        enter_arg(c, tokens, path, i, verbose).stage == Stage::EnterValue,
{
}

/// The value entered for an argument that is not repeated becomes exactly
/// one token, its own.
pub proof fn lemma_entered_value_is_one_token(root: CommandDescriptor, s: SessionView, v: String)
    requires
        well_formed(root, s),
        s.stage == Stage::EnterValue,
        !current(root, s).args@[s.arg as int].repeated,
    ensures
        next(root, s, Reply::Entered(v)).tokens == s.tokens.push(
            value_token_of(current(root, s).args@[s.arg as int], v@),
        ),
        next(root, s, Reply::Entered(v)).arg == s.arg + 1,
{
}

/// Declining an optional argument adds no token and moves on to the next
/// argument.
pub proof fn lemma_declined_optional_adds_nothing(root: CommandDescriptor, s: SessionView)
    requires
        well_formed(root, s),
        s.stage == Stage::AskValue,
        strategy_of(current(root, s).args@[s.arg as int]) == Strategy::Optional,
    ensures
        next(root, s, Reply::No).tokens == s.tokens,
        next(root, s, Reply::No).arg == s.arg + 1,
{
    let a = current(root, s).args@[s.arg as int];
    assert(repeated_tokens_of(a, s.values) =~= Seq::<Seq<char>>::empty());
    assert(s.tokens + repeated_tokens_of(a, s.values) =~= s.tokens);
}

/// Answering no to "another value?" always ends the argument: the session
/// moves past it in the same command, so a run of no answers cannot keep it
/// asking for the same argument.
pub proof fn lemma_no_ends_argument(root: CommandDescriptor, s: SessionView)
    requires
        well_formed(root, s),
        s.stage == Stage::AskValue,
    ensures
        next(root, s, Reply::No).path == s.path,
        next(root, s, Reply::No).arg == s.arg + 1,
        next(root, s, Reply::No).tokens == s.tokens + repeated_tokens_of(
            current(root, s).args@[s.arg as int],
            s.values,
        ),
{
}

/// Answering no to the optional subcommand ends the session.
pub proof fn lemma_no_ends_session(root: CommandDescriptor, s: SessionView)
    requires
        well_formed(root, s),
        s.stage == Stage::AskCommand,
    ensures
        next(root, s, Reply::No).stage == Stage::Finished,
        next(root, s, Reply::No).tokens == s.tokens,
{
}

/// Tokens are only ever appended: what the session has settled stays a
/// prefix of all later tokens.
pub proof fn lemma_tokens_only_grow(root: CommandDescriptor, s: SessionView, reply: Reply)
    requires
        well_formed(root, s),
    ensures
        s.tokens.len() <= next(root, s, reply).tokens.len(),
        next(root, s, reply).tokens.subrange(0, s.tokens.len() as int) == s.tokens,
{
    let n = next(root, s, reply);
    assert(n.tokens.subrange(0, s.tokens.len() as int) =~= s.tokens);
}

/// Arguments are taken in declared order, and a subcommand's name is only
/// appended once every argument of its parent is settled: within a command
/// the argument index never goes back, and a step into a subcommand starts
/// at its first argument after the parent's last one.
pub proof fn lemma_order_kept(root: CommandDescriptor, s: SessionView, reply: Reply)
    requires
        well_formed(root, s),
    ensures
        ({
            let n = next(root, s, reply);
            ||| n.path == s.path && s.arg <= n.arg
            ||| s.stage == Stage::ChooseCommand && s.arg == current(root, s).args@.len()
                && s.values.len() == 0 && n.path == s.path.push(reply->Chose_0) && n.arg == 0
                && n.tokens == s.tokens.push(
                current(root, s).subcommands@[reply->Chose_0 as int].name@,
            )
        }),
{
}

/// A session's tokens depend on the command tree and the replies alone:
/// the same replies give the same tokens, whether or not the prompts show
/// type hints.
pub proof fn lemma_tokens_depend_on_replies(root: CommandDescriptor, replies: Seq<Reply>)
    ensures
        run(root, true, replies).tokens == run(root, false, replies).tokens,
        run(root, true, replies) == (SessionView { verbose: true, ..run(root, false, replies) }),
    decreases replies.len(),
{
    if replies.len() > 0 {
        lemma_tokens_depend_on_replies(root, replies.drop_last());
    }
}

/// Writing a value as a token loses nothing: the token of an argument
/// gives back the value it was written from.
pub proof fn lemma_value_token_keeps_value(a: ArgDescriptor, v1: Seq<char>, v2: Seq<char>)
    requires
        value_token_of(a, v1) == value_token_of(a, v2),
    ensures
        v1 == v2,
{
    if !a.positional {
        let n = a.id@.len() as int + 3;
        let t1 = value_token_of(a, v1);
        let t2 = value_token_of(a, v2);
        assert(t1.subrange(n, t1.len() as int) =~= v1);
        assert(t2.subrange(n, t2.len() as int) =~= v2);
    }
}

} // verus!
