//! What to run in a session: program, arguments, working directory and
//! environment overrides, read from a command line and turned into a launch
//! request for the terminal layer.

use vstd::prelude::*;
use vstd::string::*;
use portable_pty::CommandBuilder;
use crate::environ::{block_vars, map_of, Environment};

verus! {

/// Why a command line does not name a program to run.
#[derive(Clone, Copy, Debug, PartialEq, Eq, Structural)]
pub enum CommandError {
    /// A quote is opened and never closed.
    UnbalancedQuotes,
    /// The line holds no word at all.
    NoProgram,
    /// The first word is empty.
    EmptyProgram,
}

/// A program to run. Inert: it is built once and then turned into a launch
/// request.
#[derive(Clone, Debug)]
pub struct ChildSpec {
    pub program: String,
    pub arguments: Vec<String>,
    pub working_directory: Option<String>,
    pub environment: Option<Environment>,
}

/// A [`ChildSpec`] as plain text.
pub struct ChildSpecView {
    pub program: Seq<char>,
    pub arguments: Seq<Seq<char>>,
    pub working_directory: Option<Seq<char>>,
    pub environment: Option<Map<Seq<char>, Seq<char>>>,
}

/// The text of each string.
pub open spec fn texts(strings: Seq<String>) -> Seq<Seq<char>> {
    Seq::new(strings.len(), |i: int| strings[i]@)
}

/// The words of a command line under the quoting rules of the Unix shell, as
/// `shell_words::split` gives them; `None` where a quote is left open.
pub uninterp spec fn split_words(line: Seq<char>) -> Option<Seq<Seq<char>>>;

/// The error of `shell_words::split`; it carries nothing.
#[verifier::external_type_specification]
#[verifier::external_body]
pub struct ExShellSplitError(shell_words::ParseError);

/// `shell_words::split` depends on its argument alone: it returns the words
/// of the line, or its error where a quote is left open.
pub assume_specification[ shell_words::split ](s: &str) -> (res: Result<
    Vec<String>,
    shell_words::ParseError,
>)
    ensures
        match res {
            Ok(words) => split_words(s@) == Some(texts(words@)),
            Err(_) => split_words(s@) is None,
        },
;

/// The command line of a launch request, program first.
pub uninterp spec fn builder_argv(builder: CommandBuilder) -> Seq<Seq<char>>;

/// The working directory of a launch request, if one is set.
pub uninterp spec fn builder_cwd(builder: CommandBuilder) -> Option<Seq<char>>;

/// The environment of a launch request, as far as it is text.
pub uninterp spec fn builder_env(builder: CommandBuilder) -> Map<Seq<char>, Seq<char>>;

/// The launch request of the terminal layer; its contents are seen through
/// `builder_argv`, `builder_cwd` and `builder_env`.
#[verifier::external_type_specification]
#[verifier::external_body]
pub struct ExCommandBuilder(portable_pty::CommandBuilder);

/// `CommandBuilder::new` makes a request whose command line is the program
/// alone and whose working directory is unset. Its environment is taken from
/// the running process, so nothing is said of it.
#[verifier::external_body]
fn builder_new(program: &str) -> (builder: CommandBuilder)
    ensures
        builder_argv(builder) == seq![program@],
        builder_cwd(builder) is None,
{
    CommandBuilder::new(program)
}

/// `CommandBuilder::args` appends the arguments in order and touches nothing
/// else. It panics on a request without a program, which is left out.
#[verifier::external_body]
fn builder_args(builder: &mut CommandBuilder, arguments: &Vec<String>)
    requires
        builder_argv(*old(builder)).len() > 0,
    ensures
        builder_argv(*final(builder)) == builder_argv(*old(builder)) + texts(arguments@),
        builder_cwd(*final(builder)) == builder_cwd(*old(builder)),
        builder_env(*final(builder)) == builder_env(*old(builder)),
{
    builder.args(arguments)
}

/// `CommandBuilder::cwd` sets the working directory and touches nothing else.
#[verifier::external_body]
fn builder_set_cwd(builder: &mut CommandBuilder, dir: &str)
    ensures
        builder_cwd(*final(builder)) == Some(dir@),
        builder_argv(*final(builder)) == builder_argv(*old(builder)),
        builder_env(*final(builder)) == builder_env(*old(builder)),
{
    builder.cwd(dir)
}

/// `CommandBuilder::env` sets one variable, in place of the value it had, and
/// touches nothing else. Keys are taken as they are written, which is how the
/// terminal layer holds them on Unix.
#[verifier::external_body]
fn builder_set_env(builder: &mut CommandBuilder, key: &str, value: &str)
    ensures
        builder_env(*final(builder)) == builder_env(*old(builder)).insert(key@, value@),
        builder_argv(*final(builder)) == builder_argv(*old(builder)),
        builder_cwd(*final(builder)) == builder_cwd(*old(builder)),
{
    builder.env(key, value)
}

impl View for ChildSpec {
    type V = ChildSpecView;

    open spec fn view(&self) -> ChildSpecView {
        ChildSpecView {
            program: self.program@,
            arguments: texts(self.arguments@),
            working_directory: match self.working_directory {
                Some(dir) => Some(dir@),
                None => None,
            },
            environment: match self.environment {
                Some(env) => Some(env@),
                None => None,
            },
        }
    }
}

impl ChildSpecView {
    /// The command line to launch: the program, then the arguments.
    pub open spec fn argv(self) -> Seq<Seq<char>> {
        seq![self.program] + self.arguments
    }

    /// The variables to override; none where no environment is given.
    pub open spec fn overrides(self) -> Map<Seq<char>, Seq<char>> {
        match self.environment {
            Some(vars) => vars,
            None => Map::empty(),
        }
    }
}

/// The child that a list of words names, with the working directory and the
/// environment given beside it. The first word is the program and must not be
/// empty; an empty directory or environment counts as none.
pub open spec fn assembled(
    words: Seq<Seq<char>>,
    cwd: Seq<char>,
    vars: Map<Seq<char>, Seq<char>>,
) -> Result<ChildSpecView, CommandError> {
    if words.len() == 0 {
        Err(CommandError::NoProgram)
    } else if words[0].len() == 0 {
        Err(CommandError::EmptyProgram)
    } else {
        Ok(
            ChildSpecView {
                program: words[0],
                arguments: words.skip(1),
                working_directory: if cwd.len() == 0 {
                    None
                } else {
                    Some(cwd)
                },
                environment: if vars == Map::<Seq<char>, Seq<char>>::empty() {
                    None
                } else {
                    Some(vars)
                },
            },
        )
    }
}

/// The child that a command line names, given what splitting the line gave.
pub open spec fn parsed(
    words: Option<Seq<Seq<char>>>,
    cwd: Seq<char>,
    vars: Map<Seq<char>, Seq<char>>,
) -> Result<ChildSpecView, CommandError> {
    match words {
        Some(words) => assembled(words, cwd, vars),
        None => Err(CommandError::UnbalancedQuotes),
    }
}

impl ChildSpec {
    /// The program is named, and no variable is overridden twice.
    pub open spec fn wf(&self) -> bool {
        &&& self.program@.len() > 0
        &&& self.environment matches Some(env) ==> env.wf()
    }

    /// Builds the child that `words` names.
    pub fn assemble(words: Vec<String>, cwd: &str, env: Environment) -> (spec: Result<
        ChildSpec,
        CommandError,
    >)
        requires
            env.wf(),
        ensures
            match spec {
                Ok(child) => child.wf() && assembled(texts(words@), cwd@, env@) == Ok::<
                    ChildSpecView,
                    CommandError,
                >(child@),
                Err(e) => assembled(texts(words@), cwd@, env@) == Err::<ChildSpecView, CommandError>(e),
            },
    {
        let mut words = words;
        if words.len() == 0 {
            return Err(CommandError::NoProgram);
        }
        let ghost all = words@;
        let program = words.remove(0);
        if program.as_str().is_empty() {
            return Err(CommandError::EmptyProgram);
        }
        proof {
            assert(texts(words@) =~= texts(all).skip(1));
        }
        let working_directory = if cwd.is_empty() {
            None
        } else {
            Some(cwd.to_owned())
        };
        let environment = if env.is_empty() {
            None
        } else {
            Some(env)
        };
        Ok(ChildSpec { program, arguments: words, working_directory, environment })
    }

    /// Reads a command line, a working directory and an environment block
    /// into the child they describe. Nothing is allocated from the system on
    /// the way, whatever the outcome.
    pub fn parse(command_line: &str, cwd: &str, env_block: &[u8]) -> (spec: Result<
        ChildSpec,
        CommandError,
    >)
        ensures
            match spec {
                Ok(child) => child.wf() && parsed(
                    split_words(command_line@),
                    cwd@,
                    block_vars(env_block@),
                ) == Ok::<ChildSpecView, CommandError>(child@),
                Err(e) => parsed(split_words(command_line@), cwd@, block_vars(env_block@)) == Err::<
                    ChildSpecView,
                    CommandError,
                >(e),
            },
    {
        match shell_words::split(command_line) {
            Ok(words) => ChildSpec::assemble(words, cwd, Environment::parse_block(env_block)),
            Err(_) => Err(CommandError::UnbalancedQuotes),
        }
    }

    /// Turns the description into a launch request: the program and its
    /// arguments in order, the working directory if one is given, and every
    /// override set on top of the environment that a new request starts with.
    /// That environment is the running process's own, so all that is said of
    /// the result's is that the overrides are in it; [`ChildSpec::apply`]
    /// says exactly what is added to a request.
    pub fn to_builder(&self) -> (builder: CommandBuilder)
        ensures
            builder_argv(builder) == self@.argv(),
            builder_cwd(builder) == self@.working_directory,
            self@.overrides().submap_of(builder_env(builder)),
    {
        let mut builder = builder_new(self.program.as_str());
        self.apply(&mut builder);
        builder
    }

    /// Adds the description to a launch request that names its program: the
    /// arguments are appended in order, the working directory is set if one
    /// is given, and the overrides are laid over the request's environment.
    /// Nothing else is set.
    pub fn apply(&self, builder: &mut CommandBuilder)
        requires
            builder_argv(*old(builder)).len() > 0,
        ensures
            builder_argv(*final(builder)) == builder_argv(*old(builder)) + self@.arguments,
            builder_cwd(*final(builder)) == match self@.working_directory {
                Some(dir) => Some(dir),
                None => builder_cwd(*old(builder)),
            },
            builder_env(*final(builder)) == builder_env(*old(builder)).union_prefer_right(
                self@.overrides(),
            ),
    {
        builder_args(builder, &self.arguments);
        match &self.working_directory {
            Some(dir) => builder_set_cwd(builder, dir.as_str()),
            None => {},
        }
        let ghost argv = builder_argv(*builder);
        let ghost cwd = builder_cwd(*builder);
        let ghost base = builder_env(*builder);
        match &self.environment {
            Some(env) => {
                let mut i: usize = 0;
                while i < env.vars.len()
                    invariant
                        i <= env.vars@.len(),
                        builder_argv(*builder) == argv,
                        builder_cwd(*builder) == cwd,
                        builder_env(*builder) == base.union_prefer_right(
                            map_of(env.pairs().take(i as int)),
                        ),
                    decreases env.vars@.len() - i,
                {
                    proof {
                        let next = env.pairs().take(i as int + 1);
                        assert(next.drop_last() =~= env.pairs().take(i as int));
                        assert(next.last() == env.pairs()[i as int]);
                    }
                    builder_set_env(builder, env.vars[i].0.as_str(), env.vars[i].1.as_str());
                    proof {
                        assert(builder_env(*builder) =~= base.union_prefer_right(
                            map_of(env.pairs().take(i as int + 1)),
                        ));
                    }
                    i += 1;
                }
                proof {
                    assert(env.pairs().take(i as int) =~= env.pairs());
                }
            },
            None => {
                proof {
                    assert(base.union_prefer_right(Map::<Seq<char>, Seq<char>>::empty()) =~= base);
                }
            },
        }
    }
}

} // verus!
