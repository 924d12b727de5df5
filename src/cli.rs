use vstd::prelude::*;
use crate::error::MvcError;
use crate::number::{parse_decimal, reads_as_u32, u32_value};
use crate::text::{join_spaced, str_eq, views};

verus! {

/// What one invocation of the tool is asked to do.
#[derive(Debug, PartialEq, Eq)]
pub enum Command {
    Init,
    Log,
    Version,
    Usage,
    Return(u32),
    Save(String),
}

/// Joins `words[from..]` with a single space between neighbours.
pub fn join_words(words: &Vec<String>, from: usize) -> (r: String)
    requires
        from <= words@.len(),
    ensures
        r@ == join_spaced(views(words@).skip(from as int)),
{
    let mut r = String::new();
    let mut i: usize = from;
    proof {
        assert(views(words@).skip(from as int).take(0) =~= Seq::<Seq<char>>::empty());
        reveal_strlit(" ");
    }
    while i < words.len()
        invariant
            from <= i <= words@.len(),
            r@ == join_spaced(views(words@).skip(from as int).take(i - from)),
            " "@ == seq![' '],
        decreases words@.len() - i,
    {
        let ghost parts = views(words@).skip(from as int);
        proof {
            assert(parts.take(i + 1 - from).drop_last() =~= parts.take(i - from));
            assert(parts.take(i + 1 - from).last() == words@[i as int]@);
        }
        if i > from {
            r.append(" ");
        } else {
            assert(parts.take(i + 1 - from) =~= seq![words@[i as int]@]);
        }
        r.append(words[i].as_str());
        i = i + 1;
    }
    proof {
        assert(views(words@).skip(from as int).take(words@.len() - from) =~= views(words@).skip(
            from as int,
        ));
    }
    r
}

/// The command that an argument list (program name first) asks for.
pub open spec fn command_spec(args: Seq<Seq<char>>) -> Result<Command, MvcError> {
    if args.len() == 2 {
        if args[1] == "init"@ {
            Ok(Command::Init)
        } else if args[1] == "log"@ {
            Ok(Command::Log)
        } else if args[1] == "--version"@ || args[1] == "-v"@ {
            Ok(Command::Version)
        } else {
            Ok(Command::Usage)
        }
    } else if args.len() >= 3 && args[1] == "return"@ {
        if reads_as_u32(args[2]) {
            Ok(Command::Return(u32_value(args[2]) as u32))
        } else {
            Err(MvcError::InvalidInput)
        }
    } else {
        Ok(Command::Usage)
    }
}

/// With no arguments, or with one word that names no command, the usage
/// text is what is asked for.
pub proof fn lemma_unknown_command_is_usage(args: Seq<Seq<char>>)
    requires
        args.len() < 2 || (args.len() == 2 && args[1] != "init"@ && args[1] != "log"@ && args[1]
            != "--version"@ && args[1] != "-v"@),
    ensures
        command_spec(args) == Ok::<Command, MvcError>(Command::Usage),
{
}

/// Routes an argument list, whose first element is the program name, to a
/// command. `save` takes the remaining words joined by single spaces as
/// its message; a `return` whose identifier is no number is invalid input.
pub fn parse_command(args: &Vec<String>) -> (r: Result<Command, MvcError>)
    ensures
        args@.len() >= 3 && args@[1]@ == "save"@ ==> (r matches Ok(Command::Save(m)) && m@
            == join_spaced(views(args@).skip(2))),
        !(args@.len() >= 3 && args@[1]@ == "save"@) ==> r == command_spec(views(args@)),
{
    let n = args.len();
    proof {
        reveal_strlit("save");
        reveal_strlit("return");
        assert(n >= 2 ==> views(args@)[1] == args@[1]@);
        assert(n >= 3 ==> views(args@)[2] == args@[2]@);
    }
    if n == 2 {
        let a = args[1].as_str();
        if str_eq(a, "init") {
            Ok(Command::Init)
        } else if str_eq(a, "log") {
            Ok(Command::Log)
        } else if str_eq(a, "--version") || str_eq(a, "-v") {
            Ok(Command::Version)
        } else {
            Ok(Command::Usage)
        }
    } else if n >= 3 {
        let a = args[1].as_str();
        if str_eq(a, "return") {
            match parse_decimal(args[2].as_str()) {
                Some(id) => Ok(Command::Return(id)),
                None => Err(MvcError::InvalidInput),
            }
        } else if str_eq(a, "save") {
            Ok(Command::Save(join_words(args, 2)))
        } else {
            Ok(Command::Usage)
        }
    } else {
        Ok(Command::Usage)
    }
}

} // verus!
