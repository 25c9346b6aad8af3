//! A plain-value description of an external command.
//!
//! The library never spawns processes itself: every subprocess the
//! pipeline needs is described as a `CommandLine`, the caller runs it
//! (or, in dry-run mode, prints it) and hands the outcome back to the
//! next library function.

use vstd::prelude::*;

verus! {

/// A program together with its argument list, ready to be executed or
/// printed by the caller.
pub struct CommandLine {
    pub program: String,
    pub args: Vec<String>,
}

/// The rendering of a command line: the program and its arguments
/// joined by single spaces.
pub open spec fn spec_render_command(program: Seq<char>, args: Seq<Seq<char>>) -> Seq<char>
    decreases args.len(),
{
    if args.len() == 0 {
        program
    } else {
        spec_render_command(program, args.drop_last()) + seq![' '] + args.last()
    }
}

impl CommandLine {
    /// Builds a command description.
    pub fn new(program: String, args: Vec<String>) -> (r: CommandLine)
        ensures
            r.program == program,
            r.args == args,
    {
        CommandLine { program, args }
    }

    /// Renders the command as the line a shell user would type, which is
    /// what dry-run mode prints instead of executing.
    pub fn render(&self) -> (r: String)
        ensures
            r@ == spec_render_command(self.program@, self.args.deep_view()),
    {
        let mut out = self.program.clone();
        let n = self.args.len();
        let mut i: usize = 0;
        proof {
            assert(self.args.deep_view().take(0) =~= Seq::<Seq<char>>::empty());
        }
        while i < n
            invariant
                n == self.args.deep_view().len(),
                n == self.args@.len(),
                0 <= i <= n,
                out@ == spec_render_command(self.program@, self.args.deep_view().take(i as int)),
            decreases n - i,
        {
            out.append(" ");
            out.append(self.args[i].as_str());
            proof {
                reveal_strlit(" ");
                let dv = self.args.deep_view();
                assert(" "@ =~= seq![' ']);
                assert(dv.take(i + 1).drop_last() =~= dv.take(i as int));
                assert(dv.take(i + 1).last() == dv[i as int]);
                assert(self.args@[i as int]@ == dv[i as int]);
            }
            i = i + 1;
        }
        proof {
            assert(self.args.deep_view().take(n as int) =~= self.args.deep_view());
        }
        out
    }
}

} // verus!
