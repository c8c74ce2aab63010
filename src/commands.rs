//! How a command and its arguments are to be run: directly, or as one line
//! handed to `sh -c`.
use vstd::prelude::*;
use vstd::string::*;

verus! {

/// How a command is to be started.
#[derive(Debug, PartialEq, Eq)]
pub enum CommandPlan {
    /// Start the program itself with the given arguments.
    Direct,
    /// Hand this line to `sh -c`.
    Shell(String),
}

/// Each argument followed by one space, in order.
pub open spec fn spaced(args: Seq<String>) -> Seq<char>
    decreases args.len(),
{
    if args.len() == 0 {
        Seq::empty()
    } else {
        spaced(args.drop_last()) + args.last()@ + " "@
    }
}

/// The shell line for a command with arguments: the command, a space, then
/// each argument followed by a space.
pub fn shell_line(cmd: &str, args: &Vec<String>) -> (r: String)
    ensures
        r@ == cmd@ + " "@ + spaced(args@),
{
    let mut line = String::from_str(cmd);
    line.append(" ");
    let mut i: usize = 0;
    proof {
        assert(args@.subrange(0, 0) =~= Seq::<String>::empty());
        assert(line@ =~= cmd@ + " "@ + spaced(args@.subrange(0, 0)));
    }
    while i < args.len()
        invariant
            i <= args@.len(),
            line@ == cmd@ + " "@ + spaced(args@.subrange(0, i as int)),
        decreases args@.len() - i,
    {
        line.append(args[i].as_str());
        line.append(" ");
        proof {
            let p = args@.subrange(0, i as int + 1);
            assert(p.drop_last() =~= args@.subrange(0, i as int));
            assert(line@ =~= cmd@ + " "@ + spaced(p));
        }
        i = i + 1;
    }
    proof {
        assert(args@.subrange(0, i as int) =~= args@);
    }
    line
}

/// Decides how `cmd` with `args` is run: directly when there are arguments
/// and no shell is asked for; through the shell otherwise, with the bare
/// command when there are no arguments.
pub fn plan_command(cmd: &str, args: &Vec<String>, shell: bool) -> (r: CommandPlan)
    ensures
        args@.len() > 0 && !shell ==> r is Direct,
        args@.len() > 0 && shell ==> (r matches CommandPlan::Shell(l) && l@ == cmd@ + " "@
            + spaced(args@)),
        args@.len() == 0 ==> (r matches CommandPlan::Shell(l) && l@ == cmd@),
{
    if args.len() > 0 {
        if !shell {
            CommandPlan::Direct
        } else {
            CommandPlan::Shell(shell_line(cmd, args))
        }
    } else {
        CommandPlan::Shell(String::from_str(cmd))
    }
}

} // verus!
