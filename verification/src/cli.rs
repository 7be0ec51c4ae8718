//! The command line, the refresh requests read from standard input, and the error
//! codes of failed status commands.
use vstd::prelude::*;

use crate::text::{chars_of, has_prefix, same_text, starts_with, trim, trim_range};

verus! {

/// What the command line asks for: whether to keep watching, and which argument
/// (by its index) names the configuration file.
#[derive(Clone, Copy, Debug, PartialEq, Eq, Structural)]
pub struct Options {
    pub watch: bool,
    pub config: Option<usize>,
}

/// The options that the arguments from index `i` on give, starting from `watch` and
/// `config`: "--watch" once, "--config PATH" once with a non-empty PATH that does not
/// start with "--", and nothing else.
pub open spec fn parse_from(args: Seq<String>, i: int, watch: bool, config: Option<usize>) -> Option<
    Options,
>
    decreases args.len() - i,
{
    if i < 0 || i >= args.len() {
        Some(Options { watch, config })
    } else if args[i]@ == "--watch"@ && !watch {
        parse_from(args, i + 1, true, config)
    } else if args[i]@ == "--config"@ && config is None {
        if i + 1 >= args.len() || args[i + 1]@.len() == 0 || has_prefix(args[i + 1]@, "--"@) {
            None
        } else {
            parse_from(args, i + 2, watch, Some((i + 1) as usize))
        }
    } else {
        None
    }
}

impl Options {
    /// Reads the arguments that follow the program name; any other use of them is
    /// refused with "invalid_arguments".
    pub fn parse(args: &[String]) -> (r: Result<Options, &'static str>)
        ensures
            parse_from(args@, 0, false, None) matches Some(o) ==> r == Ok::<
                Options,
                &'static str,
            >(o),
            parse_from(args@, 0, false, None) is None ==> (r matches Err(e) && e@
                == "invalid_arguments"@),
    {
        let mut watch = false;
        let mut config: Option<usize> = None;
        let mut i: usize = 0;
        while i < args.len()
            invariant
                i <= args@.len(),
                parse_from(args@, 0, false, None) == parse_from(args@, i as int, watch, config),
                config matches Some(c) ==> c < args@.len(),
            decreases args@.len() - i,
        {
            if same_text(args[i].as_str(), "--watch") && !watch {
                watch = true;
                i = i + 1;
            } else if same_text(args[i].as_str(), "--config") && config.is_none() {
                if i + 1 >= args.len() {
                    return Err("invalid_arguments");
                }
                let path = args[i + 1].as_str();
                if path.is_empty() || starts_with(path, "--") {
                    return Err("invalid_arguments");
                }
                config = Some(i + 1);
                i = i + 2;
            } else {
                return Err("invalid_arguments");
            }
        }
        Ok(Options { watch, config })
    }
}

/// Whether a line read from standard input asks for a refresh: it is "refresh",
/// up to surrounding white space.
pub fn is_refresh_request(line: &str) -> (r: bool)
    ensures
        r == (trim(line@) == "refresh"@),
{
    let chars = chars_of(line);
    let (a, b) = trim_range(&chars, 0, chars.len());
    assert(chars@.subrange(0, chars@.len() as int) =~= chars@);
    let word = chars_of("refresh");
    crate::text::range_is(&chars, a, b, &word)
}

/// How a status command failed.
#[derive(Clone, Copy, Debug, PartialEq, Eq, Structural)]
pub enum CommandFailure {
    /// The command was not found.
    Missing,
    /// The command did not finish in time.
    TimedOut,
    /// Any other failure.
    Failed,
}

/// The error code for a failure of `command` ("forticlient", else the `ip` command).
pub open spec fn failure_code(failure: CommandFailure, command: Seq<char>) -> Seq<char> {
    if command == "forticlient"@ {
        match failure {
            CommandFailure::Missing => "forticlient_missing"@,
            CommandFailure::TimedOut => "forticlient_timeout"@,
            CommandFailure::Failed => "forticlient_failed"@,
        }
    } else {
        match failure {
            CommandFailure::Missing => "ip_missing"@,
            CommandFailure::TimedOut => "ip_timeout"@,
            CommandFailure::Failed => "ip_failed"@,
        }
    }
}

/// The error code for a failure of `command`.
pub fn command_error(failure: CommandFailure, command: &str) -> (code: &'static str)
    ensures
        code@ == failure_code(failure, command@),
{
    if same_text(command, "forticlient") {
        match failure {
            CommandFailure::Missing => "forticlient_missing",
            CommandFailure::TimedOut => "forticlient_timeout",
            CommandFailure::Failed => "forticlient_failed",
        }
    } else {
        match failure {
            CommandFailure::Missing => "ip_missing",
            CommandFailure::TimedOut => "ip_timeout",
            CommandFailure::Failed => "ip_failed",
        }
    }
}

} // verus!

verus! {

/// The argument at `c` is a configuration path: it follows "--config", is not empty
/// and does not start with "--".
pub open spec fn config_path_at(args: Seq<String>, c: int) -> bool {
    &&& 1 <= c < args.len()
    &&& args[c - 1]@ == "--config"@
    &&& args[c]@.len() > 0
    &&& !has_prefix(args[c]@, "--"@)
}

proof fn lemma_config_path(args: Seq<String>, i: int, watch: bool, config: Option<usize>)
    requires
        args.len() <= usize::MAX,
        config matches Some(c) ==> config_path_at(args, c as int),
    ensures
        parse_from(args, i, watch, config) matches Some(o) ==> (o.config matches Some(c)
            ==> config_path_at(args, c as int)),
    decreases args.len() - i,
{
    if i < 0 || i >= args.len() {
    } else if args[i]@ == "--watch"@ && !watch {
        lemma_config_path(args, i + 1, true, config);
    } else if args[i]@ == "--config"@ && config is None {
        if i + 1 >= args.len() || args[i + 1]@.len() == 0 || has_prefix(args[i + 1]@, "--"@) {
        } else {
            lemma_config_path(args, i + 2, watch, Some((i + 1) as usize));
        }
    }
}

/// Where the command line is accepted, the configuration path it names is the
/// argument after "--config", neither empty nor starting with "--".
pub proof fn law_config_path_follows_flag(args: Seq<String>)
    requires
        args.len() <= usize::MAX,
    ensures
        parse_from(args, 0, false, None) matches Some(o) ==> (o.config matches Some(c)
            ==> config_path_at(args, c as int)),
{
    lemma_config_path(args, 0, false, None);
}

} // verus!

verus! {

proof fn lemma_appended_watch(
    args: Seq<String>,
    flag: String,
    i: int,
    config: Option<usize>,
)
    requires
        flag@ == "--watch"@,
        0 <= i <= args.len(),
        forall|j: int| 0 <= j < args.len() ==> args[j]@ != "--watch"@,
        parse_from(args, i, false, config) is Some,
    ensures
        parse_from(args.push(flag), i, false, config) == Some(
            Options { watch: true, config: parse_from(args, i, false, config).unwrap().config },
        ),
    decreases args.len() - i,
{
    let pushed = args.push(flag);
    if i == args.len() {
        assert(pushed[i] == flag);
        assert(parse_from(pushed, i + 1, true, config) == Some(Options { watch: true, config }));
    } else {
        assert(pushed[i] == args[i]);
        if args[i]@ == "--config"@ && config is None {
            assert(pushed[i + 1] == args[i + 1]);
            lemma_appended_watch(args, flag, i + 2, Some((i + 1) as usize));
        }
    }
}

/// "--watch" may be added to any accepted command line that lacks it: the result is
/// accepted, watches, and names the same configuration file. In particular "--watch"
/// alone is accepted.
pub proof fn law_watch_is_independent(args: Seq<String>, flag: String)
    requires
        flag@ == "--watch"@,
        forall|j: int| 0 <= j < args.len() ==> args[j]@ != "--watch"@,
        parse_from(args, 0, false, None) is Some,
    ensures
        parse_from(args.push(flag), 0, false, None) == Some(
            Options { watch: true, config: parse_from(args, 0, false, None).unwrap().config },
        ),
{
    lemma_appended_watch(args, flag, 0, None);
}

/// With no arguments the command line is accepted: no watching and no configuration file.
pub proof fn law_no_arguments_accepted(args: Seq<String>)
    requires
        args.len() == 0,
    ensures
        parse_from(args, 0, false, None) == Some(Options { watch: false, config: None }),
{
}

} // verus!

verus! {

/// A failure's code names the command ("forticlient_…" for FortiClient, "ip_…" for any
/// other) and tells the kinds of failure apart.
pub proof fn law_failure_codes(failure: CommandFailure, other: CommandFailure, command: Seq<char>)
    ensures
        has_prefix(failure_code(failure, command), "forticlient_"@) == (command == "forticlient"@),
        has_prefix(failure_code(failure, command), "ip_"@) == (command != "forticlient"@),
        failure_code(failure, command) == failure_code(other, command) ==> failure == other,
{
    reveal_strlit("forticlient");
    reveal_strlit("forticlient_"); 
    reveal_strlit("ip_");
    reveal_strlit("forticlient_missing");
    reveal_strlit("forticlient_timeout");
    reveal_strlit("forticlient_failed");
    reveal_strlit("ip_missing");
    reveal_strlit("ip_timeout");
    reveal_strlit("ip_failed");
    let code = failure_code(failure, command);
    if command == "forticlient"@ {
        assert(code.subrange(0, 12) =~= "forticlient_"@);
        assert(code[0] == 'f');
        assert(code.subrange(0, 3)[0] == 'f');
        assert("ip_"@[0] == 'i');
    } else {
        assert(code.subrange(0, 3) =~= "ip_"@);
        assert(code[0] == 'i');
    }
    assert("forticlient_missing"@[12] != "forticlient_timeout"@[12]);
    assert("ip_missing"@[3] != "ip_timeout"@[3]);
}

} // verus!

verus! {

proof fn lemma_appended_config(
    args: Seq<String>,
    flag: String,
    path: String,
    i: int,
    watch: bool,
)
    requires
        flag@ == "--config"@,
        path@.len() > 0,
        !has_prefix(path@, "--"@),
        args.len() + 2 <= usize::MAX,
        0 <= i <= args.len(),
        forall|j: int| 0 <= j < args.len() ==> args[j]@ != "--config"@,
        parse_from(args, i, watch, None) is Some,
    ensures
        parse_from(args.push(flag).push(path), i, watch, None) == Some(
            Options {
                watch: parse_from(args, i, watch, None).unwrap().watch,
                config: Some((args.len() + 1) as usize),
            },
        ),
    decreases args.len() - i,
{
    let pushed = args.push(flag).push(path);
    reveal_strlit("--config");
    reveal_strlit("--watch");
    assert("--config"@.len() == 8 && "--watch"@.len() == 7);
    if i == args.len() {
        assert(pushed[i] == flag);
        assert(pushed[i + 1] == path);
        assert(parse_from(pushed, i + 2, watch, Some((i + 1) as usize)) == Some(
            Options { watch, config: Some((i + 1) as usize) },
        ));
    } else {
        assert(pushed[i] == args[i]);
        if args[i]@ == "--watch"@ && !watch {
            lemma_appended_config(args, flag, path, i + 1, true);
        }
    }
}

/// "--config PATH" may be added to any accepted command line that lacks it, with a PATH
/// that is not empty and does not start with "--": the result is accepted, names PATH
/// as the configuration file, and watches as before. In particular "--config PATH"
/// alone is accepted.
pub proof fn law_config_is_independent(args: Seq<String>, flag: String, path: String)
    requires
        flag@ == "--config"@,
        path@.len() > 0,
        !has_prefix(path@, "--"@),
        args.len() + 2 <= usize::MAX,
        forall|j: int| 0 <= j < args.len() ==> args[j]@ != "--config"@,
        parse_from(args, 0, false, None) is Some,
    ensures
        parse_from(args.push(flag).push(path), 0, false, None) == Some(
            Options {
                watch: parse_from(args, 0, false, None).unwrap().watch,
                config: Some((args.len() + 1) as usize),
            },
        ),
{
    lemma_appended_config(args, flag, path, 0, false);
}

} // verus!
