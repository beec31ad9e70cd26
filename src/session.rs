use vstd::prelude::*;
use crate::schema::{
    ArgDescriptor, CommandDescriptor, Strategy, classify, strategy_of, command_at,
    command_at_path, lemma_command_at_push,
};
use crate::tokens::{
    texts, value_token_of, repeated_tokens_of, help_text_of, value_token, repeated_tokens,
    help_text,
};

verus! {

/// Where a session stands.
#[derive(Clone, Copy, Debug, PartialEq, Eq, Structural)]
pub enum Stage {
    /// Asking whether to give (another) value to the current argument.
    AskValue,
    /// Asking for the value of the current argument.
    EnterValue,
    /// Asking whether to descend into an optional subcommand.
    AskCommand,
    /// Asking which subcommand to descend into.
    ChooseCommand,
    /// Nothing more to ask: the tokens are complete.
    Finished,
}

/// An answer of the user to the current prompt.
pub enum Reply {
    Yes,
    No,
    Entered(String),
    /// The index of the chosen option.
    Chose(usize),
}

/// The prompt that a session asks for next.
pub enum Request {
    Confirm { label: String, help: Option<String> },
    Text { label: String, help_text: String },
    Select { label: String, options: Vec<String> },
    Done,
}

/// A prompt-driven walk through a command tree that assembles the tokens a
/// user would have typed.
pub struct Session {
    /// The tokens settled so far, starting with the root command's name.
    pub tokens: Vec<String>,
    /// Indices of the subcommands chosen so far, from the root down.
    pub path: Vec<usize>,
    /// Index of the argument being asked for in the current command.
    pub arg: usize,
    /// Values entered so far for the current repeated argument.
    pub values: Vec<String>,
    pub stage: Stage,
    /// Show type hints in the help of value prompts.
    pub verbose: bool,
}

pub struct SessionView {
    pub tokens: Seq<Seq<char>>,
    pub path: Seq<usize>,
    pub arg: nat,
    pub values: Seq<Seq<char>>,
    pub stage: Stage,
    pub verbose: bool,
}

impl View for Session {
    type V = SessionView;

    open spec fn view(&self) -> SessionView {
        SessionView {
            tokens: texts(self.tokens@),
            path: self.path@,
            arg: self.arg as nat,
            values: texts(self.values@),
            stage: self.stage,
            verbose: self.verbose,
        }
    }
}

/// The state in which the argument `i` of `c` is asked for next, or, past
/// the last argument, the subcommand decision of `c`.
pub open spec fn enter_arg(
    c: CommandDescriptor,
    tokens: Seq<Seq<char>>,
    path: Seq<usize>,
    i: nat,
    verbose: bool,
) -> SessionView {
    let stage = if i < c.args@.len() {
        if strategy_of(c.args@[i as int]) == Strategy::Required {
            Stage::EnterValue
        } else {
            Stage::AskValue
        }
    } else if c.subcommands@.len() == 0 {
        Stage::Finished
    } else if c.subcommand_required {
        Stage::ChooseCommand
    } else {
        Stage::AskCommand
    };
    SessionView { tokens, path, arg: i, values: seq![], stage, verbose }
}

/// The first state of a session on `root`: its name is token zero.
pub open spec fn start(root: CommandDescriptor, verbose: bool) -> SessionView {
    enter_arg(root, seq![root.name@], seq![], 0, verbose)
}

/// The command whose arguments the session is at.
pub open spec fn current(root: CommandDescriptor, s: SessionView) -> CommandDescriptor {
    command_at(root, s.path)->0
}

pub open spec fn well_formed(root: CommandDescriptor, s: SessionView) -> bool {
    let c = current(root, s);
    &&& command_at(root, s.path) is Some
    &&& (s.stage == Stage::AskValue || s.stage == Stage::EnterValue) ==> s.arg < c.args@.len()
    &&& s.stage == Stage::AskValue ==> strategy_of(c.args@[s.arg as int]) != Strategy::Required
    &&& (s.stage == Stage::AskCommand || s.stage == Stage::ChooseCommand) ==> s.arg
        == c.args@.len() && c.subcommands@.len() > 0
    &&& s.values.len() > 0 ==> (s.stage == Stage::AskValue || s.stage == Stage::EnterValue)
        && c.args@[s.arg as int].repeated
}

/// The reply answers the prompt of state `s`.
pub open spec fn fits(root: CommandDescriptor, s: SessionView, reply: Reply) -> bool {
    match s.stage {
        Stage::AskValue | Stage::AskCommand => reply is Yes || reply is No,
        Stage::EnterValue => reply is Entered,
        Stage::ChooseCommand => match reply {
            Reply::Chose(k) => k < current(root, s).subcommands@.len(),
            _ => false,
        },
        Stage::Finished => false,
    }
}

/// The state after `reply`; a reply that does not fit leaves the state as it is.
pub open spec fn next(root: CommandDescriptor, s: SessionView, reply: Reply) -> SessionView {
    let c = current(root, s);
    if !fits(root, s, reply) {
        s
    } else {
        match s.stage {
            Stage::AskValue => if reply is Yes {
                SessionView { stage: Stage::EnterValue, ..s }
            } else {
                enter_arg(
                    c,
                    s.tokens + repeated_tokens_of(c.args@[s.arg as int], s.values),
                    s.path,
                    s.arg + 1,
                    s.verbose,
                )
            },
            Stage::EnterValue => {
                let a = c.args@[s.arg as int];
                let v = (reply->Entered_0)@;
                if a.repeated {
                    SessionView { values: s.values.push(v), stage: Stage::AskValue, ..s }
                } else {
                    enter_arg(c, s.tokens.push(value_token_of(a, v)), s.path, s.arg + 1, s.verbose)
                }
            },
            Stage::AskCommand => if reply is Yes {
                SessionView { stage: Stage::ChooseCommand, ..s }
            } else {
                SessionView { stage: Stage::Finished, ..s }
            },
            Stage::ChooseCommand => {
                let k = reply->Chose_0;
                let d = c.subcommands@[k as int];
                enter_arg(d, s.tokens.push(d.name@), s.path.push(k), 0, s.verbose)
            },
            Stage::Finished => s,
        }
    }
}

/// The state after the replies of `replies`, one after another.
pub open spec fn run(root: CommandDescriptor, verbose: bool, replies: Seq<Reply>) -> SessionView
    decreases replies.len(),
{
    if replies.len() == 0 {
        start(root, verbose)
    } else {
        next(root, run(root, verbose, replies.drop_last()), replies.last())
    }
}

pub open spec fn opt_text(o: Option<String>) -> Option<Seq<char>> {
    match o {
        Some(s) => Some(s@),
        None => None,
    }
}

/// `r` is the prompt of state `s`.
pub open spec fn request_of(root: CommandDescriptor, s: SessionView, r: Request) -> bool {
    let c = current(root, s);
    match s.stage {
        Stage::AskValue => match r {
            Request::Confirm { label, help } => label@ == "Add optional value?"@ && opt_text(help)
                == Some(c.args@[s.arg as int].id@),
            _ => false,
        },
        Stage::EnterValue => match r {
            Request::Text { label, help_text } => label@ == c.args@[s.arg as int].id@ && help_text@
                == help_text_of(c.args@[s.arg as int], s.verbose),
            _ => false,
        },
        Stage::AskCommand => match r {
            Request::Confirm { label, help } => label@ == "Add optional command?"@ && opt_text(help)
                == opt_text(c.subcommand_label),
            _ => false,
        },
        Stage::ChooseCommand => match r {
            Request::Select { label, options } => label@ == c.name@ && texts(options@)
                == c.subcommands@.map_values(|d: CommandDescriptor| d.name@),
            _ => false,
        },
        Stage::Finished => r is Done,
    }
}

fn clone_opt(o: &Option<String>) -> (r: Option<String>)
    ensures
        opt_text(r) == opt_text(*o),
{
    match o {
        Some(s) => Some(s.clone()),
        None => None,
    }
}

fn extend_tokens(dst: &mut Vec<String>, src: Vec<String>)
    ensures
        texts(final(dst)@) == texts(old(dst)@) + texts(src@),
{
    let ghost start = dst@;
    let mut i: usize = 0;
    while i < src.len()
        invariant
            i <= src@.len(),
            dst@.len() == start.len() + i,
            texts(dst@) =~= texts(start) + texts(src@).subrange(0, i as int),
        decreases src@.len() - i,
    {
        let ghost before = dst@;
        dst.push(src[i].clone());
        proof {
            let want = texts(start) + texts(src@).subrange(0, i + 1);
            assert forall|j: int| 0 <= j < dst@.len() implies texts(dst@)[j] == want[j] by {
                if j < before.len() {
                    assert(texts(before)[j] == texts(dst@)[j]);
                }
            }
            assert(texts(dst@) =~= want);
        }
        i = i + 1;
    }
    assert(texts(src@).subrange(0, i as int) =~= texts(src@));
}

impl Session {
    pub open spec fn wf(&self, root: CommandDescriptor) -> bool {
        well_formed(root, self@)
    }

    /// Moves to argument `i` of `c`, the command at the session's path.
    fn enter(&mut self, c: &CommandDescriptor, i: usize)
        requires
            i <= c.args@.len(),
        ensures
            final(self)@ == enter_arg(*c, old(self)@.tokens, old(self)@.path, i as nat, old(self)@.verbose),
    {
        self.arg = i;
        self.values = Vec::new();
        if i < c.args.len() {
            self.stage = match classify(&c.args[i]) {
                Strategy::Required => Stage::EnterValue,
                _ => Stage::AskValue,
            };
        } else if c.subcommands.len() == 0 {
            self.stage = Stage::Finished;
        } else if c.subcommand_required {
            self.stage = Stage::ChooseCommand;
        } else {
            self.stage = Stage::AskCommand;
        }
        assert(texts(self.values@) =~= Seq::<Seq<char>>::empty());
    }

    /// A session at the first argument of `root`, with its name as token zero.
    pub fn new(root: &CommandDescriptor, verbose: bool) -> (s: Session)
        ensures
            s@ == start(*root, verbose),
            s.wf(*root),
    {
        let mut tokens: Vec<String> = Vec::new();
        tokens.push(root.name.clone());
        let mut s = Session {
            tokens,
            path: Vec::new(),
            arg: 0,
            values: Vec::new(),
            stage: Stage::Finished,
            verbose,
        };
        assert(texts(s.tokens@) =~= seq![root.name@]);
        assert(s.path@ =~= Seq::<usize>::empty());
        s.enter(root, 0);
        s
    }

    /// The session has nothing more to ask.
    pub fn is_finished(&self) -> (r: bool)
        ensures
            r == (self@.stage == Stage::Finished),
    {
        self.stage == Stage::Finished
    }

    /// The prompt to show next.
    pub fn request(&self, root: &CommandDescriptor) -> (r: Request)
        requires
            self.wf(*root),
        ensures
            request_of(*root, self@, r),
    {
        let c = command_at_path(root, &self.path);
        match self.stage {
            Stage::AskValue => {
                proof {
                    reveal_strlit("Add optional value?");
                }
                Request::Confirm {
                    label: String::from_str("Add optional value?"),
                    help: Some(c.args[self.arg].id.clone()),
                }
            },
            Stage::EnterValue => {
                let a = &c.args[self.arg];
                Request::Text { label: a.id.clone(), help_text: help_text(a, self.verbose) }
            },
            Stage::AskCommand => {
                proof {
                    reveal_strlit("Add optional command?");
                }
                Request::Confirm {
                    label: String::from_str("Add optional command?"),
                    help: clone_opt(&c.subcommand_label),
                }
            },
            Stage::ChooseCommand => {
                let mut options: Vec<String> = Vec::new();
                let mut i: usize = 0;
                while i < c.subcommands.len()
                    invariant
                        i <= c.subcommands@.len(),
                        options@.len() == i,
                        texts(options@) =~= c.subcommands@.subrange(0, i as int).map_values(
                            |d: CommandDescriptor| d.name@,
                        ),
                    decreases c.subcommands@.len() - i,
                {
                    let ghost before = options@;
                    options.push(c.subcommands[i].name.clone());
                    proof {
                        let want = c.subcommands@.subrange(0, i + 1).map_values(
                            |d: CommandDescriptor| d.name@,
                        );
                        assert forall|j: int| 0 <= j < i + 1 implies texts(options@)[j]
                            == want[j] by {
                            if j < i {
                                assert(texts(before)[j] == texts(options@)[j]);
                            }
                        }
                        assert(texts(options@) =~= want);
                    }
                    i = i + 1;
                }
                assert(c.subcommands@.subrange(0, i as int) =~= c.subcommands@);
                Request::Select { label: c.name.clone(), options }
            },
            Stage::Finished => Request::Done,
        }
    }

    /// Takes the user's answer to the current prompt.
    pub fn step(&mut self, root: &CommandDescriptor, reply: &Reply) -> (accepted: bool)
        requires
            old(self).wf(*root),
        ensures
            final(self).wf(*root),
            final(self)@ == next(*root, old(self)@, *reply),
            accepted == fits(*root, old(self)@, *reply),
    {
        let c = command_at_path(root, &self.path);
        match self.stage {
            Stage::AskValue => match reply {
                Reply::Yes => {
                    self.stage = Stage::EnterValue;
                    true
                },
                Reply::No => {
                    let toks = repeated_tokens(&c.args[self.arg], &self.values);
                    extend_tokens(&mut self.tokens, toks);
                    let n = c.args.len();
                    let i = self.arg + 1;
                    assert(i <= n);
                    self.enter(c, i);
                    true
                },
                _ => false,
            },
            Stage::EnterValue => match reply {
                Reply::Entered(v) => {
                    let a = &c.args[self.arg];
                    if a.repeated {
                        self.values.push(v.clone());
                        self.stage = Stage::AskValue;
                        assert(texts(self.values@) =~= old(self)@.values.push(v@));
                    } else {
                        let t = value_token(a, v.as_str());
                        self.tokens.push(t);
                        assert(texts(self.tokens@) =~= old(self)@.tokens.push(t@));
                        let n = c.args.len();
                    let i = self.arg + 1;
                    assert(i <= n);
                        self.enter(c, i);
                    }
                    true
                },
                _ => false,
            },
            Stage::AskCommand => match reply {
                Reply::Yes => {
                    self.stage = Stage::ChooseCommand;
                    true
                },
                Reply::No => {
                    self.stage = Stage::Finished;
                    true
                },
                _ => false,
            },
            Stage::ChooseCommand => match reply {
                Reply::Chose(k) => {
                    if *k < c.subcommands.len() {
                        let d = &c.subcommands[*k];
                        self.tokens.push(d.name.clone());
                        assert(texts(self.tokens@) =~= old(self)@.tokens.push(d.name@));
                        self.path.push(*k);
                        proof {
                            lemma_command_at_push(*root, old(self)@.path, *k);
                        }
                        self.enter(d, 0);
                        true
                    } else {
                        false
                    }
                },
                _ => false,
            },
            Stage::Finished => false,
        }
    }
}

/// Plays `replies` against a session on `root` and returns its tokens.
pub fn run_script(root: &CommandDescriptor, verbose: bool, replies: &Vec<Reply>) -> (r: Vec<String>)
    ensures
        texts(r@) == run(*root, verbose, replies@).tokens,
{
    let mut s = Session::new(root, verbose);
    let mut i: usize = 0;
    assert(replies@.subrange(0, 0) =~= Seq::<Reply>::empty());
    while i < replies.len()
        invariant
            i <= replies@.len(),
            s.wf(*root),
            s@ == run(*root, verbose, replies@.subrange(0, i as int)),
        decreases replies@.len() - i,
    {
        s.step(root, &replies[i]);
        assert(replies@.subrange(0, i + 1).drop_last() =~= replies@.subrange(0, i as int));
        i = i + 1;
    }
    assert(replies@.subrange(0, i as int) =~= replies@);
    s.tokens
}

} // verus!
