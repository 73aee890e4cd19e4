//! External commands the simulator host runs, as plain data: the host
//! process spawns them, the library decides what they are.
use vstd::prelude::*;

verus! {

/// A program to run and its arguments, in order.
#[derive(Clone, Debug, PartialEq, Eq)]
pub struct Invocation {
    pub program: String,
    pub args: Vec<String>,
}

/// The text of each argument.
pub open spec fn arg_views(args: Seq<String>) -> Seq<Seq<char>> {
    args.map_values(|a: String| a@)
}

impl Invocation {
    /// Whether this runs `program` with exactly `args`.
    pub open spec fn runs(self, program: Seq<char>, args: Seq<Seq<char>>) -> bool {
        self.program@ == program && arg_views(self.args@) == args
    }

    /// An invocation of `program` with no arguments yet.
    pub fn new(program: &str) -> (r: Self)
        ensures
            r.runs(program@, Seq::empty()),
    {
        let r = Invocation { program: program.to_owned(), args: Vec::new() };
        assert(arg_views(r.args@) =~= Seq::empty());
        r
    }

    /// Appends one argument.
    pub fn arg(&mut self, arg: &str)
        ensures
            final(self).program == old(self).program,
            arg_views(final(self).args@) == arg_views(old(self).args@).push(arg@),
    {
        let ghost before = self.args@;
        self.args.push(arg.to_owned());
        assert(arg_views(self.args@) =~= arg_views(before).push(arg@));
    }
}

} // verus!
