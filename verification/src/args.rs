use vstd::prelude::*;
use crate::paths::text_equals;

verus! {

/// The words that, as the first argument, name what to do: the three
/// subcommands and the requests for help or for the version.
pub open spec fn command_words() -> Seq<Seq<char>> {
    seq!["validate"@, "package"@, "deploy"@, "help"@, "--help"@, "--version"@, "-V"@]
}

/// Whether a first argument names what to do.
pub open spec fn is_command_word(w: Seq<char>) -> bool {
    command_words().contains(w)
}

/// Whether the first argument after the program name names what to do.
pub fn is_explicit_command(first: Option<&str>) -> (r: bool)
    ensures
        r == (first matches Some(w) && is_command_word(w@)),
{
    match first {
        None => false,
        Some(w) => {
            let ghost words = command_words();
            let r = text_equals(w, "validate") || text_equals(w, "package") || text_equals(
                w,
                "deploy",
            ) || text_equals(w, "help") || text_equals(w, "--help") || text_equals(w, "--version")
                || text_equals(w, "-V");
            assert(r == (w@ == words[0] || w@ == words[1] || w@ == words[2] || w@ == words[3]
                || w@ == words[4] || w@ == words[5] || w@ == words[6]));
            assert(words.contains(w@) ==> r) by {
                if words.contains(w@) {
                    let k = choose|k: int| 0 <= k < words.len() && words[k] == w@;
                    assert(0 <= k < 7);
                }
            }
            assert(r ==> words.contains(w@)) by {
                if w@ == words[0] {
                    assert(words[0] == w@);
                } else if w@ == words[1] {
                    assert(words[1] == w@);
                } else if w@ == words[2] {
                    assert(words[2] == w@);
                } else if w@ == words[3] {
                    assert(words[3] == w@);
                } else if w@ == words[4] {
                    assert(words[4] == w@);
                } else if w@ == words[5] {
                    assert(words[5] == w@);
                } else if w@ == words[6] {
                    assert(words[6] == w@);
                }
            }
            r
        },
    }
}

/// The arguments with `deploy` put after the program name when no
/// subcommand is named, so that deploying is what runs by default.
pub open spec fn normalized_args(args: Seq<Seq<char>>) -> Seq<Seq<char>> {
    if args.len() >= 2 && is_command_word(args[1]) {
        args
    } else {
        args.insert(1, "deploy"@)
    }
}

/// Puts `command` after the program name unless the argument there names
/// what to do. `second` is that argument's text, when there is one and it
/// is valid text.
pub fn insert_default_command<A>(args: Vec<A>, second: Option<&str>, command: A) -> (r: Vec<A>)
    requires
        args.len() >= 1,
    ensures
        r@ == if second matches Some(w) && is_command_word(w@) {
            args@
        } else {
            args@.insert(1, command)
        },
{
    if is_explicit_command(second) {
        return args;
    }
    let mut out = args;
    out.insert(1, command);
    out
}

/// Makes `deploy` the default subcommand (`normalize_args`); `args` starts
/// with the program name.
pub fn normalize_args(args: Vec<String>) -> (r: Vec<String>)
    requires
        args.len() >= 1,
    ensures
        r.deep_view() == normalized_args(args.deep_view()),
{
    let ghost before = args.deep_view();
    let second = if args.len() >= 2 {
        Some(args[1].clone())
    } else {
        None
    };
    let word = match &second {
        Some(w) => Some(w.as_str()),
        None => None,
    };
    let out = insert_default_command(args, word, "deploy".to_owned());
    proof {
        if before.len() >= 2 && is_command_word(before[1]) {
            assert(out.deep_view() =~= before);
        } else {
            assert(out.deep_view() =~= before.insert(1, "deploy"@));
        }
    }
    out
}

/// Normalising twice changes nothing more: a subcommand is named after
/// the first normalisation.
pub proof fn lemma_normalize_args_idempotent(args: Seq<Seq<char>>)
    requires
        args.len() >= 1,
    ensures
        normalized_args(normalized_args(args)) == normalized_args(args),
{
    let n = normalized_args(args);
    if !(args.len() >= 2 && is_command_word(args[1])) {
        assert(n[1] == "deploy"@);
        assert(command_words()[2] == "deploy"@);
    }
}

/// Normalising only ever adds `deploy` after the program name: the
/// arguments given stay, in their order.
pub proof fn lemma_normalize_args_keeps_arguments(args: Seq<Seq<char>>)
    requires
        args.len() >= 1,
    ensures
        normalized_args(args) == args || normalized_args(args) == args.insert(1, "deploy"@),
        normalized_args(args)[0] == args[0],
{
}

/// Exactly seven first arguments name what to do: `validate`, `package`,
/// `deploy`, `help`, `--help`, `--version` and `-V`; any other text (such
/// as `-p`, `-u` or `--host`) does not.
pub proof fn lemma_command_words_are_exactly_seven(w: Seq<char>)
    ensures
        is_command_word(w) <==> (w == "validate"@ || w == "package"@ || w == "deploy"@ || w
            == "help"@ || w == "--help"@ || w == "--version"@ || w == "-V"@),
{
    let words = command_words();
    if is_command_word(w) {
        let k = choose|k: int| 0 <= k < words.len() && words[k] == w;
        assert(0 <= k < 7);
    }
    if w == "validate"@ {
        assert(words[0] == w);
    } else if w == "package"@ {
        assert(words[1] == w);
    } else if w == "deploy"@ {
        assert(words[2] == w);
    } else if w == "help"@ {
        assert(words[3] == w);
    } else if w == "--help"@ {
        assert(words[4] == w);
    } else if w == "--version"@ {
        assert(words[5] == w);
    } else if w == "-V"@ {
        assert(words[6] == w);
    }
}

/// Unless the argument after the program name is one of those seven
/// words, `deploy` is put right after the program name and every argument
/// given follows it in order; when it is one of them the arguments stay as
/// they are.
pub proof fn lemma_deploy_inserted_unless_command(args: Seq<Seq<char>>)
    requires
        args.len() >= 1,
    ensures
        (args.len() >= 2 && (args[1] == "validate"@ || args[1] == "package"@ || args[1] == "deploy"@
            || args[1] == "help"@ || args[1] == "--help"@ || args[1] == "--version"@ || args[1]
            == "-V"@)) ==> normalized_args(args) == args,
        !(args.len() >= 2 && (args[1] == "validate"@ || args[1] == "package"@ || args[1]
            == "deploy"@ || args[1] == "help"@ || args[1] == "--help"@ || args[1] == "--version"@
            || args[1] == "-V"@)) ==> {
            &&& normalized_args(args).len() == args.len() + 1
            &&& normalized_args(args)[0] == args[0]
            &&& normalized_args(args)[1] == "deploy"@
            &&& forall|i: int| 1 <= i < args.len() ==> #[trigger] normalized_args(args)[i + 1] == args[i]
        },
{
    if args.len() >= 2 {
        lemma_command_words_are_exactly_seven(args[1]);
    }
}

} // verus!
