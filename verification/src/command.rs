//! Requests to run one program.

use crate::outcome::InvokeError;
use vstd::prelude::*;
use vstd::string::*;

verus! {

/// Where one of the three standard streams of a process leads.
#[derive(Debug, Clone, Copy, PartialEq, Eq, Structural)]
pub enum Routing {
    /// The stream of the invoking process is shared.
    Inherit,
    /// A pipe is opened and its other end stays with the invoker.
    Capture,
    /// The stream is connected to a stream of another process.
    Connect,
}

/// The mathematical content of a `CommandSpec`.
pub struct CommandSpecView {
    pub program: Seq<char>,
    pub args: Seq<Seq<char>>,
    pub cwd: Option<Seq<char>>,
    pub env: Map<Seq<char>, Seq<char>>,
    pub stdin: Routing,
    pub stdout: Routing,
    pub stderr: Routing,
}

/// The request to run one program: its name or path, its arguments in order,
/// an optional working directory, environment variables to set on top of the
/// inherited environment, and the routing of its standard streams.
#[derive(Debug, PartialEq, Eq)]
pub struct CommandSpec {
    program: String,
    args: Vec<String>,
    cwd: Option<String>,
    env: Vec<(String, String)>,
    stdin: Routing,
    stdout: Routing,
    stderr: Routing,
}

/// The texts of a vector of strings.
pub open spec fn text_views(texts: Seq<String>) -> Seq<Seq<char>> {
    Seq::new(texts.len(), |i: int| texts[i]@)
}

/// The texts of a slice of string slices.
pub open spec fn str_views(texts: Seq<&str>) -> Seq<Seq<char>> {
    Seq::new(texts.len(), |i: int| texts[i]@)
}

/// The names and values of a vector of environment entries.
pub open spec fn entry_views(entries: Seq<(String, String)>) -> Seq<(Seq<char>, Seq<char>)> {
    Seq::new(entries.len(), |i: int| (entries[i].0@, entries[i].1@))
}

/// True when no name occurs twice among `entries`.
pub open spec fn distinct_names(entries: Seq<(Seq<char>, Seq<char>)>) -> bool {
    forall|i: int, j: int| 0 <= i < j < entries.len() ==> entries[i].0 != entries[j].0
}

/// True when `name` is the name of one of `entries`.
pub open spec fn names_include(entries: Seq<(Seq<char>, Seq<char>)>, name: Seq<char>) -> bool {
    exists|i: int| 0 <= i < entries.len() && #[trigger] entries[i].0 == name
}

/// The mapping that results from setting `entries` one after the other.
pub open spec fn overrides(entries: Seq<(Seq<char>, Seq<char>)>) -> Map<Seq<char>, Seq<char>>
    decreases entries.len(),
{
    if entries.len() == 0 {
        Map::empty()
    } else {
        overrides(entries.drop_last()).insert(entries.last().0, entries.last().1)
    }
}

/// The names that `overrides` maps are the names of the entries.
pub proof fn lemma_overrides_names(entries: Seq<(Seq<char>, Seq<char>)>, name: Seq<char>)
    ensures
        overrides(entries).dom().contains(name) <==> names_include(entries, name),
    decreases entries.len(),
{
    if entries.len() > 0 {
        let front = entries.drop_last();
        lemma_overrides_names(front, name);
        if names_include(front, name) {
            let i = choose|i: int| 0 <= i < front.len() && #[trigger] front[i].0 == name;
            assert(entries[i].0 == name);
        }
        if entries.last().0 == name {
            assert(entries[entries.len() - 1].0 == name);
        }
        if names_include(entries, name) {
            let i = choose|i: int| 0 <= i < entries.len() && #[trigger] entries[i].0 == name;
            if i < front.len() {
                assert(front[i].0 == name);
            }
        }
    }
}

/// Among entries with distinct names, replacing the value of one entry is
/// setting its name to the new value.
pub proof fn lemma_overrides_replace(
    entries: Seq<(Seq<char>, Seq<char>)>,
    at: int,
    value: Seq<char>,
)
    requires
        0 <= at < entries.len(),
        distinct_names(entries),
    ensures
        overrides(entries.update(at, (entries[at].0, value))) == overrides(entries).insert(
            entries[at].0,
            value,
        ),
    decreases entries.len(),
{
    let name = entries[at].0;
    let changed = entries.update(at, (name, value));
    let front = entries.drop_last();
    if at == entries.len() - 1 {
        assert(changed.drop_last() =~= front);
        assert(overrides(changed) =~= overrides(entries).insert(name, value));
    } else {
        assert(changed.drop_last() =~= front.update(at, (front[at].0, value)));
        assert(distinct_names(front));
        lemma_overrides_replace(front, at, value);
        assert(entries.last().0 != name);
        assert(overrides(changed) =~= overrides(entries).insert(name, value));
    }
}

/// Finds the entry that sets `name`.
fn position_of(entries: &Vec<(String, String)>, name: &String) -> (found: Option<usize>)
    ensures
        found matches Some(i) ==> i < entries.len() && entries[i as int].0@ == name@,
        found is None ==> !names_include(entry_views(entries@), name@),
{
    let mut i: usize = 0;
    while i < entries.len()
        invariant
            0 <= i <= entries.len(),
            forall|j: int| 0 <= j < i ==> entry_views(entries@)[j].0 != name@,
        decreases entries.len() - i,
    {
        if entries[i].0 == *name {
            return Some(i);
        }
        i += 1;
    }
    None
}

impl View for CommandSpec {
    type V = CommandSpecView;

    closed spec fn view(&self) -> CommandSpecView {
        CommandSpecView {
            program: self.program@,
            args: text_views(self.args@),
            cwd: match self.cwd {
                Some(dir) => Some(dir@),
                None => None,
            },
            env: overrides(entry_views(self.env@)),
            stdin: self.stdin,
            stdout: self.stdout,
            stderr: self.stderr,
        }
    }
}

impl CommandSpecView {
    /// True when the request can be launched with or without a stream of
    /// another process at hand: only the standard input can be connected, and
    /// it is connected exactly when there is a stream to connect it to.
    pub open spec fn launchable(self, upstream: bool) -> bool {
        &&& self.stdout != Routing::Connect
        &&& self.stderr != Routing::Connect
        &&& (self.stdin == Routing::Connect) == upstream
    }
}

impl CommandSpec {
    #[verifier::type_invariant]
    spec fn names_are_distinct(&self) -> bool {
        distinct_names(entry_views(self.env@))
    }

    /// A request to run `program` without arguments, in the invoker's working
    /// directory and environment, sharing the invoker's standard streams.
    pub fn new(program: &str) -> (spec: CommandSpec)
        ensures
            spec@ == (CommandSpecView {
                program: program@,
                args: Seq::empty(),
                cwd: None,
                env: Map::empty(),
                stdin: Routing::Inherit,
                stdout: Routing::Inherit,
                stderr: Routing::Inherit,
            }),
    {
        let spec = CommandSpec {
            program: String::from_str(program),
            args: Vec::new(),
            cwd: None,
            env: Vec::new(),
            stdin: Routing::Inherit,
            stdout: Routing::Inherit,
            stderr: Routing::Inherit,
        };
        proof {
            assert(spec@.args =~= Seq::empty());
        }
        spec
    }

    /// A request to run `program` with `args`.
    pub fn with_args(program: &str, args: &[&str]) -> (spec: CommandSpec)
        ensures
            spec@ == (CommandSpecView { args: str_views(args@), ..CommandSpec::new_view(program@) }),
    {
        let spec = CommandSpec::new(program).args(args);
        proof {
            assert(Seq::<Seq<char>>::empty() + str_views(args@) =~= str_views(args@));
        }
        spec
    }

    /// A request that hands `command` to the shell, as the single argument
    /// after `-c`. The shell interprets pipes, redirections and everything
    /// else in it; nothing in `command` is escaped or examined here.
    pub fn shell(command: &str) -> (spec: CommandSpec)
        ensures
            spec@ == (CommandSpecView {
                args: seq!["-c"@, command@],
                ..CommandSpec::new_view("sh"@)
            }),
    {
        let spec = CommandSpec::new("sh").arg("-c").arg(command);
        proof {
            assert(spec@.args =~= seq!["-c"@, command@]);
        }
        spec
    }

    /// The content of a request that was just made for `program`.
    pub open spec fn new_view(program: Seq<char>) -> CommandSpecView {
        CommandSpecView {
            program,
            args: Seq::empty(),
            cwd: None,
            env: Map::empty(),
            stdin: Routing::Inherit,
            stdout: Routing::Inherit,
            stderr: Routing::Inherit,
        }
    }

    /// Adds one argument after those already given.
    pub fn arg(self, arg: &str) -> (spec: CommandSpec)
        ensures
            spec@ == (CommandSpecView { args: self@.args.push(arg@), ..self@ }),
    {
        proof {
            use_type_invariant(&self);
        }
        let CommandSpec { program, mut args, cwd, env, stdin, stdout, stderr } = self;
        let ghost before = args@;
        args.push(String::from_str(arg));
        proof {
            assert(text_views(args@) =~= text_views(before).push(arg@));
        }
        CommandSpec { program, args, cwd, env, stdin, stdout, stderr }
    }

    /// Adds arguments, in their order, after those already given.
    pub fn args(self, more: &[&str]) -> (spec: CommandSpec)
        ensures
            spec@ == (CommandSpecView { args: self@.args + str_views(more@), ..self@ }),
    {
        proof {
            use_type_invariant(&self);
        }
        let CommandSpec { program, mut args, cwd, env, stdin, stdout, stderr } = self;
        let ghost before = args@;
        let mut i: usize = 0;
        proof {
            assert(text_views(args@) =~= text_views(before) + str_views(more@).subrange(0, 0));
        }
        while i < more.len()
            invariant
                0 <= i <= more.len(),
                text_views(args@) == text_views(before) + str_views(more@).subrange(0, i as int),
            decreases more.len() - i,
        {
            let ghost sofar = args@;
            args.push(String::from_str(more[i]));
            proof {
                assert(text_views(args@) =~= text_views(sofar).push(more@[i as int]@));
                assert(text_views(args@) =~= text_views(before) + str_views(more@).subrange(
                    0,
                    i + 1,
                ));
            }
            i += 1;
        }
        proof {
            assert(str_views(more@).subrange(0, i as int) =~= str_views(more@));
        }
        CommandSpec { program, args, cwd, env, stdin, stdout, stderr }
    }

    /// Sets the working directory of the process. Without it the process
    /// starts in the invoker's.
    pub fn current_dir(self, dir: &str) -> (spec: CommandSpec)
        ensures
            spec@ == (CommandSpecView { cwd: Some(dir@), ..self@ }),
    {
        proof {
            use_type_invariant(&self);
        }
        let CommandSpec { program, args, cwd: _, env, stdin, stdout, stderr } = self;
        CommandSpec { program, args, cwd: Some(String::from_str(dir)), env, stdin, stdout, stderr }
    }

    /// Sets one environment variable for the process, on top of the inherited
    /// environment. Setting a name again replaces its value.
    pub fn env(self, name: &str, value: &str) -> (spec: CommandSpec)
        ensures
            spec@ == (CommandSpecView { env: self@.env.insert(name@, value@), ..self@ }),
    {
        proof {
            use_type_invariant(&self);
        }
        let CommandSpec { program, args, cwd, mut env, stdin, stdout, stderr } = self;
        let ghost before = entry_views(env@);
        let name = String::from_str(name);
        let value = String::from_str(value);
        match position_of(&env, &name) {
            Some(i) => {
                env[i] = (name, value);
                proof {
                    assert(entry_views(env@) =~= before.update(
                        i as int,
                        (before[i as int].0, value@),
                    ));
                    lemma_overrides_replace(before, i as int, value@);
                }
            },
            None => {
                env.push((name, value));
                proof {
                    let after = entry_views(env@);
                    assert(after =~= before.push((name@, value@)));
                    assert(after.drop_last() =~= before);
                }
            },
        }
        CommandSpec { program, args, cwd, env, stdin, stdout, stderr }
    }

    /// Routes the standard input.
    pub fn stdin(self, routing: Routing) -> (spec: CommandSpec)
        ensures
            spec@ == (CommandSpecView { stdin: routing, ..self@ }),
    {
        proof {
            use_type_invariant(&self);
        }
        let CommandSpec { program, args, cwd, env, stdin: _, stdout, stderr } = self;
        CommandSpec { program, args, cwd, env, stdin: routing, stdout, stderr }
    }

    /// Routes the standard output.
    pub fn stdout(self, routing: Routing) -> (spec: CommandSpec)
        ensures
            spec@ == (CommandSpecView { stdout: routing, ..self@ }),
    {
        proof {
            use_type_invariant(&self);
        }
        let CommandSpec { program, args, cwd, env, stdin, stdout: _, stderr } = self;
        CommandSpec { program, args, cwd, env, stdin, stdout: routing, stderr }
    }

    /// Routes the standard error.
    pub fn stderr(self, routing: Routing) -> (spec: CommandSpec)
        ensures
            spec@ == (CommandSpecView { stderr: routing, ..self@ }),
    {
        proof {
            use_type_invariant(&self);
        }
        let CommandSpec { program, args, cwd, env, stdin, stdout, stderr: _ } = self;
        CommandSpec { program, args, cwd, env, stdin, stdout, stderr: routing }
    }

    /// The request as buffered capture launches it: standard output and
    /// standard error are captured, whatever was asked for before.
    pub fn captured(self) -> (spec: CommandSpec)
        ensures
            spec@ == (CommandSpecView {
                stdout: Routing::Capture,
                stderr: Routing::Capture,
                ..self@
            }),
    {
        self.stdout(Routing::Capture).stderr(Routing::Capture)
    }

    /// The request as streaming launches it: standard output goes to a pipe
    /// that is read line by line while the process runs.
    pub fn streamed(self) -> (spec: CommandSpec)
        ensures
            spec@ == (CommandSpecView { stdout: Routing::Capture, ..self@ }),
    {
        self.stdout(Routing::Capture)
    }

    /// The program's name or path.
    pub fn program(&self) -> (program: &String)
        ensures
            program@ == self@.program,
    {
        &self.program
    }

    /// The arguments, in order.
    pub fn arguments(&self) -> (args: &Vec<String>)
        ensures
            text_views(args@) == self@.args,
    {
        &self.args
    }

    /// The working directory, if one was set.
    pub fn working_dir(&self) -> (dir: Option<&String>)
        ensures
            self@.cwd == match dir {
                Some(dir) => Some(dir@),
                None => None::<Seq<char>>,
            },
    {
        self.cwd.as_ref()
    }

    /// The environment variables to set, each name once. Setting them in any
    /// order gives the mapping of the request.
    pub fn env_overrides(&self) -> (entries: &Vec<(String, String)>)
        ensures
            distinct_names(entry_views(entries@)),
            overrides(entry_views(entries@)) == self@.env,
    {
        proof {
            use_type_invariant(self);
        }
        &self.env
    }

    /// The value that the request sets `name` to, if it sets it.
    pub fn env_value(&self, name: &str) -> (value: Option<&String>)
        ensures
            self@.env.dom().contains(name@) <==> value is Some,
            value matches Some(text) ==> text@ == self@.env[name@],
    {
        proof {
            use_type_invariant(self);
        }
        let wanted = String::from_str(name);
        let ghost entries = entry_views(self.env@);
        proof {
            lemma_overrides_names(entries, name@);
        }
        match position_of(&self.env, &wanted) {
            Some(i) => {
                proof {
                    lemma_overrides_replace(entries, i as int, entries[i as int].1);
                    assert(entries.update(i as int, (entries[i as int].0, entries[i as int].1))
                        =~= entries);
                }
                Some(&self.env[i].1)
            },
            None => None,
        }
    }

    /// The routing of the standard input.
    pub fn stdin_routing(&self) -> (routing: Routing)
        ensures
            routing == self@.stdin,
    {
        self.stdin
    }

    /// The routing of the standard output.
    pub fn stdout_routing(&self) -> (routing: Routing)
        ensures
            routing == self@.stdout,
    {
        self.stdout
    }

    /// The routing of the standard error.
    pub fn stderr_routing(&self) -> (routing: Routing)
        ensures
            routing == self@.stderr,
    {
        self.stderr
    }

    /// Decides, before anything is launched, whether the routing of the
    /// request can be carried out. `upstream` says whether the output stream
    /// of another process is at hand for the standard input.
    pub fn check_routing(&self, upstream: bool) -> (checked: Result<(), InvokeError>)
        ensures
            checked is Ok <==> self@.launchable(upstream),
            checked matches Err(error) ==> error is Launch,
    {
        let connected = self.stdin == Routing::Connect;
        if self.stdout == Routing::Connect || self.stderr == Routing::Connect {
            Err(
                InvokeError::Launch {
                    detail: String::from_str("only standard input can be connected to another process"),
                },
            )
        } else if connected && !upstream {
            Err(
                InvokeError::Launch {
                    detail: String::from_str("standard input is connected but no stream was given"),
                },
            )
        } else if !connected && upstream {
            Err(
                InvokeError::Launch {
                    detail: String::from_str("a stream was given but standard input is not connected"),
                },
            )
        } else {
            Ok(())
        }
    }
}

} // verus!
