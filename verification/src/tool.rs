//! A tool that is described by a catalog: rows that say which flags it has.

use vstd::prelude::*;

use crate::arg::{Arg, ArgDef, ArgModel};
use crate::compiler::{ArgLists, Compiler, CompilerMetadata};

verus! {

/// The models of `args`.
pub open spec fn models(args: Seq<Arg>) -> Seq<ArgModel> {
    args.map_values(|a: Arg| a@)
}

/// Whether the row stands in a tool's base list: it is marked as default
/// and has a default value.
pub open spec fn is_base_row(def: ArgDef) -> bool {
    def.is_default && def.default_payload() is Some
}

/// The base arguments that a catalog gives: each base row with its default
/// value, in the catalog's order.
pub open spec fn default_entries(catalog: Seq<ArgDef>) -> Seq<ArgModel>
    decreases catalog.len(),
{
    if catalog.len() == 0 {
        Seq::empty()
    } else if is_base_row(catalog.last()) {
        default_entries(catalog.drop_last()).push(
            ArgModel { def: catalog.last(), value: catalog.last().default_payload()->0 },
        )
    } else {
        default_entries(catalog.drop_last())
    }
}

/// A compiler with its arguments.
#[derive(Debug)]
pub struct Tool {
    metadata: CompilerMetadata,
    args: Vec<Arg>,
    base_count: usize,
}

impl Tool {
    /// The base arguments come first, and `base_count` says how many they
    /// are.
    #[verifier::type_invariant]
    pub closed spec fn counted(&self) -> bool {
        self.base_count <= self.args@.len()
    }

    /// The base arguments.
    pub closed spec fn base(&self) -> Seq<Arg> {
        self.args@.take(self.base_count as int)
    }

    /// The arguments that were added.
    pub closed spec fn user(&self) -> Seq<Arg> {
        self.args@.skip(self.base_count as int)
    }

    /// The tool's identity.
    pub closed spec fn identity(&self) -> CompilerMetadata {
        self.metadata
    }

    /// A tool without arguments.
    pub fn new(metadata: CompilerMetadata) -> (tool: Tool)
        ensures
            tool.metadata() == metadata,
            tool.lists().base == Seq::<Arg>::empty(),
            tool.lists().user == Seq::<Arg>::empty(),
    {
        Tool { metadata, args: Vec::new(), base_count: 0 }
    }

    /// A tool with the base arguments that `catalog` gives, and none added.
    pub fn with_defaults(metadata: CompilerMetadata, catalog: &[ArgDef]) -> (tool: Tool)
        ensures
            tool.metadata() == metadata,
            models(tool.lists().base) == default_entries(catalog@),
            tool.lists().user == Seq::<Arg>::empty(),
    {
        let mut args: Vec<Arg> = Vec::new();
        let mut i: usize = 0;
        assert(catalog@.take(0) == Seq::<ArgDef>::empty());
        assert(models(args@) == Seq::<ArgModel>::empty());
        while i < catalog.len()
            invariant
                i <= catalog@.len(),
                args@.len() <= i,
                models(args@) == default_entries(catalog@.take(i as int)),
            decreases catalog@.len() - i,
        {
            let ghost before = args@;
            let ghost next = catalog@.take(i + 1);
            assert(next.drop_last() == catalog@.take(i as int));
            assert(next.last() == catalog@[i as int]);
            let def = catalog[i];
            if def.is_default {
                match Arg::with_default(def) {
                    Some(entry) => {
                        args.push(entry);
                        assert(models(args@) == models(before).push(entry@));
                    },
                    None => {},
                }
            }
            i = i + 1;
        }
        assert(catalog@.take(i as int) == catalog@);
        let base_count = args.len();
        assert(args@.take(base_count as int) == args@);
        Tool { metadata, args, base_count }
    }
}

impl Default for Tool {
    /// A tool without a name and without arguments.
    fn default() -> (tool: Self)
        ensures
            tool.metadata().name@ == Seq::<char>::empty(),
            tool.metadata().description@ == Seq::<char>::empty(),
            tool.metadata().working_dir_template@ == Seq::<char>::empty(),
            tool.lists().base == Seq::<Arg>::empty(),
            tool.lists().user == Seq::<Arg>::empty(),
    {
        proof {
            reveal_strlit("");
            assert(""@ == Seq::<char>::empty());
        }
        Tool::new(CompilerMetadata { name: "", description: "", working_dir_template: "" })
    }
}

impl Compiler for Tool {
    type Arg = Arg;

    open spec fn metadata(&self) -> CompilerMetadata {
        self.identity()
    }

    open spec fn lists(&self) -> ArgLists<Arg> {
        ArgLists { base: self.base(), user: self.user() }
    }

    fn name(&self) -> (r: &'static str) {
        self.metadata.name
    }

    fn description(&self) -> (r: &'static str) {
        self.metadata.description
    }

    fn working_dir_template(&self) -> (r: &'static str) {
        self.metadata.working_dir_template
    }

    fn get_args(&self) -> (r: &[Arg]) {
        proof {
            use_type_invariant(self);
            assert(self.args@.take(self.base_count as int) + self.args@.skip(self.base_count as int)
                == self.args@);
        }
        self.args.as_slice()
    }

    fn add_arg(&mut self, arg: Arg) {
        let mut tool = Tool::new(self.metadata);
        std::mem::swap(self, &mut tool);
        proof {
            use_type_invariant(&tool);
        }
        let Tool { metadata, mut args, base_count } = tool;
        let ghost before = args@;
        args.push(arg);
        proof {
            let n = base_count as int;
            assert(args@.take(n) == before.take(n));
            assert(args@.skip(n) == before.skip(n).push(arg));
        }
        *self = Tool { metadata, args, base_count };
    }

    fn clear_args(&mut self) {
        let mut tool = Tool::new(self.metadata);
        std::mem::swap(self, &mut tool);
        proof {
            use_type_invariant(&tool);
        }
        let Tool { metadata, mut args, base_count } = tool;
        let ghost before = args@;
        args.truncate(base_count);
        proof {
            let n = base_count as int;
            assert(args@.take(n) == before.take(n));
            assert(args@.skip(n) == Seq::<Arg>::empty());
        }
        *self = Tool { metadata, args, base_count };
    }
}

} // verus!
