//! One handle for a tool of any kind.

use vstd::prelude::*;

use crate::arg::Arg;
use crate::compiler::{
    command_matches, facts_of, flattened, texts, CommandInfo, Compiler, CompilerMetadata,
};
use crate::context::CompilerContext;
use crate::text::text_of;
use crate::tool::Tool;

verus! {

/// A tool of one of the supported kinds. Every operation is that of the
/// tool inside.
#[derive(Debug)]
pub enum CompilerEnum {
    /// The compiler that builds the map's geometry.
    Vbsp(Tool),
    /// The compiler that computes visibility.
    Vvis(Tool),
    /// The compiler that computes lighting.
    Vrad(Tool),
    /// The tool that packs files into a compiled map.
    Bspzip(Tool),
}

impl CompilerEnum {
    /// The tool inside.
    pub open spec fn tool(&self) -> Tool {
        match self {
            CompilerEnum::Vbsp(tool) => *tool,
            CompilerEnum::Vvis(tool) => *tool,
            CompilerEnum::Vrad(tool) => *tool,
            CompilerEnum::Bspzip(tool) => *tool,
        }
    }

    /// Whether `other` is of the same kind.
    pub open spec fn same_kind(&self, other: &CompilerEnum) -> bool {
        match (self, other) {
            (CompilerEnum::Vbsp(_), CompilerEnum::Vbsp(_)) => true,
            (CompilerEnum::Vvis(_), CompilerEnum::Vvis(_)) => true,
            (CompilerEnum::Vrad(_), CompilerEnum::Vrad(_)) => true,
            (CompilerEnum::Bspzip(_), CompilerEnum::Bspzip(_)) => true,
            _ => false,
        }
    }

    /// The tool inside.
    pub fn inner(&self) -> (r: &Tool)
        ensures
            *r == self.tool(),
    {
        match self {
            CompilerEnum::Vbsp(tool) => tool,
            CompilerEnum::Vvis(tool) => tool,
            CompilerEnum::Vrad(tool) => tool,
            CompilerEnum::Bspzip(tool) => tool,
        }
    }

    /// The name of the tool inside.
    pub fn name(&self) -> (r: &'static str)
        ensures
            r == self.tool().metadata().name,
    {
        self.inner().name()
    }

    /// The description of the tool inside.
    pub fn description(&self) -> (r: &'static str)
        ensures
            r == self.tool().metadata().description,
    {
        self.inner().description()
    }

    /// The working directory template of the tool inside.
    pub fn working_dir_template(&self) -> (r: &'static str)
        ensures
            r == self.tool().metadata().working_dir_template,
    {
        self.inner().working_dir_template()
    }

    /// The metadata of the tool inside.
    pub fn get_metadata(&self) -> (r: CompilerMetadata)
        ensures
            r == self.tool().metadata(),
    {
        self.inner().get_metadata()
    }

    /// The arguments of the tool inside.
    pub fn get_args(&self) -> (r: &[Arg])
        ensures
            r@ == self.tool().lists().all(),
    {
        self.inner().get_args()
    }

    /// Adds an argument to the tool inside; the kind stays.
    pub fn add_arg(&mut self, arg: Arg)
        ensures
            final(self).same_kind(old(self)),
            final(self).tool().lists() == old(self).tool().lists().added(arg),
            final(self).tool().metadata() == old(self).tool().metadata(),
    {
        match self {
            CompilerEnum::Vbsp(tool) => tool.add_arg(arg),
            CompilerEnum::Vvis(tool) => tool.add_arg(arg),
            CompilerEnum::Vrad(tool) => tool.add_arg(arg),
            CompilerEnum::Bspzip(tool) => tool.add_arg(arg),
        }
    }

    /// Removes the added arguments of the tool inside; the kind stays.
    pub fn clear_args(&mut self)
        ensures
            final(self).same_kind(old(self)),
            final(self).tool().lists() == old(self).tool().lists().cleared(),
            final(self).tool().metadata() == old(self).tool().metadata(),
    {
        match self {
            CompilerEnum::Vbsp(tool) => tool.clear_args(),
            CompilerEnum::Vvis(tool) => tool.clear_args(),
            CompilerEnum::Vrad(tool) => tool.clear_args(),
            CompilerEnum::Bspzip(tool) => tool.clear_args(),
        }
    }

    /// The tokens of the tool inside, as its own `build_args` gives them.
    pub fn build_args(&self) -> (r: Vec<String>)
        ensures
            texts(r@) == flattened(facts_of(self.tool().lists().all())),
    {
        self.inner().build_args()
    }

    /// The command of the tool inside, as its own `build_command` gives
    /// it.
    pub fn build_command(&self, context: &CompilerContext, executable: Option<String>) -> (r:
        CommandInfo)
        ensures
            command_matches(
                r,
                self.tool().metadata().name,
                flattened(facts_of(self.tool().lists().all())),
                self.tool().metadata().working_dir_template@,
                *context,
                text_of(executable),
            ),
    {
        self.inner().build_command(context, executable)
    }
}

} // verus!
