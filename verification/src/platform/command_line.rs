//! Command lines.
use crate::text;
use vstd::prelude::*;
use vstd::string::*;

verus! {

/// A program and its arguments.
#[derive(Debug, PartialEq, Eq)]
pub struct CommandLine {
    pub program: String,
    pub args: Vec<String>,
}

/// The texts of a `CommandLine`.
pub struct CommandView {
    pub program: Seq<char>,
    pub args: Seq<Seq<char>>,
}

impl View for CommandLine {
    type V = CommandView;

    open spec fn view(&self) -> CommandView {
        CommandView { program: self.program@, args: text::texts(self.args@) }
    }
}

/// The texts of some command lines.
pub open spec fn commands_view(commands: Seq<CommandLine>) -> Seq<CommandView> {
    commands.map_values(|c: CommandLine| c@)
}

/// The texts of some string slices.
pub open spec fn slices_view(parts: Seq<&str>) -> Seq<Seq<char>> {
    parts.map_values(|s: &str| s@)
}

/// A command line of the given texts.
pub(crate) fn command(program: &str, args: &[&str]) -> (out: CommandLine)
    ensures
        out@ == (CommandView { program: program@, args: slices_view(args@) }),
{
    let mut owned: Vec<String> = Vec::new();
    let mut i: usize = 0;
    while i < args.len()
        invariant
            i <= args@.len(),
            text::texts(owned@) == slices_view(args@.take(i as int)),
        decreases args@.len() - i,
    {
        let arg: &str = args[i];
        let ghost before = owned@;
        owned.push(arg.to_owned());
        i += 1;
        assert(text::texts(owned@) =~= text::texts(before).push(arg@));
        assert(slices_view(args@.take(i as int)) =~= slices_view(args@.take(i - 1)).push(arg@));
    }
    assert(args@.take(i as int) =~= args@);
    CommandLine { program: program.to_owned(), args: owned }
}

} // verus!
