//! Tools: what every compiler offers, and the command that is built from
//! its arguments.

use vstd::prelude::*;
use vstd::string::*;

use crate::arg::{ArgFacts, CompilerArg};
use crate::context::CompilerContext;
use crate::paths::{
    join, lowercase, path_join, path_with_extension, to_lowercase, with_extension,
};
use crate::text::text_of;

verus! {

/// A struct for convenience and data transfer: what names a compiler.
#[derive(Debug, Clone, Copy)]
pub struct CompilerMetadata {
    /// The human-readable name of the compiler.
    pub name: &'static str,
    /// A brief description of what the compiler does.
    pub description: &'static str,
    /// The default working directory for the compiler; may hold
    /// placeholders.
    pub working_dir_template: &'static str,
}

/// A command that is ready to run.
#[derive(Debug, Clone)]
pub struct CommandInfo {
    /// The name of the compiler.
    pub name: &'static str,
    /// The path to the compiler executable.
    pub compiler_path: String,
    /// The complete, resolved argument list.
    pub args: Vec<String>,
    /// The final working directory for the command.
    pub working_dir: String,
}

/// The arguments of a tool: those it has from the start, and those that
/// were added.
pub struct ArgLists<A> {
    /// The arguments that the tool has from the start.
    pub base: Seq<A>,
    /// The arguments that were added, in the order in which they came.
    pub user: Seq<A>,
}

impl<A> ArgLists<A> {
    /// All arguments: first those from the start, then those added.
    pub open spec fn all(self) -> Seq<A> {
        self.base + self.user
    }

    /// The lists after `arg` was added: it stands last, and nothing else
    /// changed.
    pub open spec fn added(self, arg: A) -> Self {
        ArgLists { base: self.base, user: self.user.push(arg) }
    }

    /// The lists after the added arguments were cleared.
    pub open spec fn cleared(self) -> Self {
        ArgLists { base: self.base, user: Seq::empty() }
    }
}

/// What each of `args` shows of itself.
pub open spec fn facts_of<A: CompilerArg>(args: Seq<A>) -> Seq<ArgFacts> {
    args.map_values(|a: A| a.facts())
}

/// The characters of each string of `v`.
pub open spec fn texts(v: Seq<String>) -> Seq<Seq<char>> {
    v.map_values(|s: String| s@)
}

/// The tokens that one argument puts on the command line: its token, unless
/// that is empty, and then its value, if it has one.
pub open spec fn rendered(arg: ArgFacts) -> Seq<Seq<char>> {
    let token = if arg.token.len() > 0 {
        seq![arg.token]
    } else {
        Seq::<Seq<char>>::empty()
    };
    match arg.value {
        Some(v) => token.push(v),
        None => token,
    }
}

/// The tokens that `args` put on the command line, argument by argument in
/// their order.
pub open spec fn flattened(args: Seq<ArgFacts>) -> Seq<Seq<char>>
    decreases args.len(),
{
    if args.len() == 0 {
        Seq::empty()
    } else {
        flattened(args.drop_last()) + rendered(args.last())
    }
}

/// The path of a tool's executable where none is given: the tool's name in
/// lower case in the directory of the tools, with the extension `exe`.
pub open spec fn default_executable(bin_dir: Seq<char>, name: Seq<char>) -> Seq<char> {
    path_with_extension(path_join(bin_dir, lowercase(name)), "exe"@)
}

/// The command that a tool called `name`, with the tokens `tokens` and the
/// working directory `template`, gives in the context `ctx`.
pub open spec fn command_matches(
    command: CommandInfo,
    name: &'static str,
    tokens: Seq<Seq<char>>,
    template: Seq<char>,
    ctx: CompilerContext,
    executable: Option<Seq<char>>,
) -> bool {
    &&& command.name == name
    &&& texts(command.args@) == tokens.map_values(|t: Seq<char>| ctx.substitute(t))
    &&& command.working_dir@ == ctx.substitute(template)
    &&& command.compiler_path@ == match executable {
        Some(path) => path,
        None => default_executable(ctx.bin_dir@, name@),
    }
}

/// Defines the common interface for a compiler tool.
pub trait Compiler: Default {
    /// The specific argument type associated with this compiler.
    type Arg: CompilerArg;

    /// What names the compiler.
    spec fn metadata(&self) -> CompilerMetadata;

    /// The arguments of the compiler.
    spec fn lists(&self) -> ArgLists<Self::Arg>;

    /// Returns the human-readable name of the compiler.
    fn name(&self) -> (r: &'static str)
        ensures
            r == self.metadata().name,
    ;

    /// Returns a brief description of what the compiler does.
    fn description(&self) -> (r: &'static str)
        ensures
            r == self.metadata().description,
    ;

    /// Returns the default working directory for the compiler.
    fn working_dir_template(&self) -> (r: &'static str)
        ensures
            r == self.metadata().working_dir_template,
    ;

    /// Returns the arguments configured for this compiler instance: the
    /// base arguments, then those that were added.
    fn get_args(&self) -> (r: &[Self::Arg])
        ensures
            r@ == self.lists().all(),
    ;

    /// Adds a configured argument to this compiler instance. It stands
    /// last; no earlier argument is replaced, whatever its token.
    fn add_arg(&mut self, arg: Self::Arg)
        ensures
            final(self).lists() == old(self).lists().added(arg),
            final(self).metadata() == old(self).metadata(),
    ;

    /// Removes all user-configured arguments. Base arguments are
    /// unaffected.
    fn clear_args(&mut self)
        ensures
            final(self).lists() == old(self).lists().cleared(),
            final(self).metadata() == old(self).metadata(),
    ;

    /// Convenience method for getting all metadata at once.
    fn get_metadata(&self) -> (r: CompilerMetadata)
        ensures
            r == self.metadata(),
    {
        CompilerMetadata {
            name: self.name(),
            description: self.description(),
            working_dir_template: self.working_dir_template(),
        }
    }

    /// Returns the configured arguments in a structured format: for each
    /// argument its token and its value text.
    fn get_structured_args(&self) -> (r: Vec<(&'static str, Option<String>)>)
        ensures
            r@.len() == self.lists().all().len(),
            forall|i: int|
                0 <= i < r@.len() ==> {
                    &&& (#[trigger] r@[i]).0@ == self.lists().all()[i].facts().token
                    &&& text_of(r@[i].1) == self.lists().all()[i].facts().value
                },
    {
        let args = self.get_args();
        let mut out: Vec<(&'static str, Option<String>)> = Vec::new();
        let mut i: usize = 0;
        while i < args.len()
            invariant
                i <= args@.len(),
                args@ == self.lists().all(),
                out@.len() == i,
                forall|j: int|
                    0 <= j < i ==> {
                        &&& (#[trigger] out@[j]).0@ == args@[j].facts().token
                        &&& text_of(out@[j].1) == args@[j].facts().value
                    },
            decreases args@.len() - i,
        {
            out.push(args[i].as_arg());
            i = i + 1;
        }
        out
    }

    /// Builds the final, flattened list of command-line arguments for
    /// execution: for each argument its token, unless that is empty, and
    /// then its value, if it has one.
    fn build_args(&self) -> (r: Vec<String>)
        ensures
            texts(r@) == flattened(facts_of(self.lists().all())),
    {
        let structured = self.get_structured_args();
        let ghost facts = facts_of(self.lists().all());
        let mut out: Vec<String> = Vec::new();
        let mut i: usize = 0;
        assert(facts.take(0) == Seq::<ArgFacts>::empty());
        assert(texts(out@) == Seq::<Seq<char>>::empty());
        while i < structured.len()
            invariant
                i <= structured@.len(),
                structured@.len() == facts.len(),
                forall|j: int|
                    0 <= j < structured@.len() ==> {
                        &&& (#[trigger] structured@[j]).0@ == facts[j].token
                        &&& text_of(structured@[j].1) == facts[j].value
                    },
                texts(out@) == flattened(facts.take(i as int)),
            decreases structured@.len() - i,
        {
            let ghost before = out@;
            let key: &str = structured[i].0;
            if !key.is_empty() {
                out.push(key.to_owned());
            }
            match &structured[i].1 {
                Some(value) => {
                    out.push(value.clone());
                },
                None => {},
            }
            proof {
                let next = facts.take(i + 1);
                assert(next.drop_last() == facts.take(i as int));
                assert(next.last() == facts[i as int]);
                assert(texts(out@) == texts(before) + rendered(facts[i as int]));
            }
            i = i + 1;
        }
        assert(facts.take(i as int) == facts);
        out
    }

    /// Build the command for execution using context values: the tokens of
    /// `build_args` and the working directory, each with its placeholders
    /// resolved, and the path of the executable.
    ///
    /// If provided, `executable` will be used as the compiler path.
    /// Otherwise, it defaults to `<bin_dir>/<compiler_name>.exe`.
    fn build_command(&self, context: &CompilerContext, executable: Option<String>) -> (r:
        CommandInfo)
        ensures
            command_matches(
                r,
                self.metadata().name,
                flattened(facts_of(self.lists().all())),
                self.metadata().working_dir_template@,
                *context,
                text_of(executable),
            ),
    {
        let raw = self.build_args();
        let final_args = resolve_all(context, &raw);
        let resolved_wd = context.replace(self.working_dir_template());
        let name = self.name();
        let compiler_path = match executable {
            Some(path) => path,
            None => default_path(context.bin_dir.as_str(), name),
        };
        CommandInfo { name, compiler_path, args: final_args, working_dir: resolved_wd }
    }
}

/// Each of `tokens` with its placeholders resolved.
pub fn resolve_all(context: &CompilerContext, tokens: &Vec<String>) -> (r: Vec<String>)
    ensures
        texts(r@) == texts(tokens@).map_values(|t: Seq<char>| context.substitute(t)),
{
    let mut out: Vec<String> = Vec::new();
    let mut i: usize = 0;
    while i < tokens.len()
        invariant
            i <= tokens@.len(),
            out@.len() == i,
            forall|j: int| 0 <= j < i ==> (#[trigger] out@[j])@ == context.substitute(tokens@[j]@),
        decreases tokens@.len() - i,
    {
        out.push(context.replace(tokens[i].as_str()));
        i = i + 1;
    }
    assert(texts(out@) == texts(tokens@).map_values(|t: Seq<char>| context.substitute(t)));
    out
}

/// The path of a tool's executable where none is given.
pub fn default_path(bin_dir: &str, name: &str) -> (r: String)
    ensures
        r@ == default_executable(bin_dir@, name@),
{
    let lower = to_lowercase(name);
    let joined = join(bin_dir, lower.as_str());
    proof {
        reveal_strlit("exe");
    }
    with_extension(joined.as_str(), "exe")
}

} // verus!
