use vstd::prelude::*;
use crate::commands::{shell_split, split_shell_words};
use crate::config::{ConnectionConfig, StringMap, TransportType, text_map};
use crate::text::{
    copy_string, owned, push_str, split_once, split_once_spec, split_whitespace, string_views, trim, trimmed, words,
};

verus! {

// ---------------------------------------------------------------------------------------------
// Command-line flags
// ---------------------------------------------------------------------------------------------

/// The variable that an `-e KEY=VALUE` flag sets: the text before and after the first `=`.
pub open spec fn env_flag(flag: Seq<char>) -> Option<(Seq<char>, Seq<char>)> {
    split_once_spec(flag, '=')
}

/// The header that an `-H "Name: Value"` flag sets: the trimmed text before and after the
/// first `:`.
pub open spec fn header_flag(flag: Seq<char>) -> Option<(Seq<char>, Seq<char>)> {
    match split_once_spec(flag, ':') {
        Some((k, v)) => Some((trim(k), trim(v))),
        None => None,
    }
}

/// The map `m` after the flags are applied in order, each by `read`; flags that `read` does
/// not take change nothing.
pub open spec fn flags_applied(
    m: Map<Seq<char>, Seq<char>>,
    flags: Seq<Seq<char>>,
    read: spec_fn(Seq<char>) -> Option<(Seq<char>, Seq<char>)>,
) -> Map<Seq<char>, Seq<char>>
    decreases flags.len(),
{
    if flags.len() == 0 {
        m
    } else {
        let before = flags_applied(m, flags.drop_last(), read);
        match read(flags.last()) {
            Some((k, v)) => before.insert(k, v),
            None => before,
        }
    }
}

/// The warnings for the flags that `read` does not take, each `lead` followed by the flag.
pub open spec fn flag_warnings(
    flags: Seq<Seq<char>>,
    read: spec_fn(Seq<char>) -> Option<(Seq<char>, Seq<char>)>,
    lead: Seq<char>,
) -> Seq<Seq<char>>
    decreases flags.len(),
{
    if flags.len() == 0 {
        Seq::empty()
    } else {
        let before = flag_warnings(flags.drop_last(), read, lead);
        if read(flags.last()) is Some {
            before
        } else {
            before.push(lead + flags.last())
        }
    }
}

/// The text before a malformed `-e` flag in its warning.
pub open spec fn env_warning_lead() -> Seq<char> {
    "Warning: ignoring malformed -e value (expected KEY=VALUE): "@
}

/// The text before a malformed `-H` flag in its warning.
pub open spec fn header_warning_lead() -> Seq<char> {
    "Warning: ignoring malformed -H value (expected \"Name: Value\"): "@
}

/// Reads an `-e KEY=VALUE` flag.
pub fn env_pair(flag: &str) -> (r: Option<(String, String)>)
    ensures
        match r {
            Some((k, v)) => env_flag(flag@) == Some((k@, v@)),
            None => env_flag(flag@) is None,
        },
{
    split_once(flag, '=')
}

/// Reads an `-H "Name: Value"` flag.
pub fn header_pair(flag: &str) -> (r: Option<(String, String)>)
    ensures
        match r {
            Some((k, v)) => header_flag(flag@) == Some((k@, v@)),
            None => header_flag(flag@) is None,
        },
{
    match split_once(flag, ':') {
        Some((k, v)) => Some((trimmed(k.as_str()), trimmed(v.as_str()))),
        None => None,
    }
}

/// Sets the environment variables of the `-e` flags, in order, and gives a warning for each
/// flag without `=`.
pub fn apply_env_flags(env: &mut StringMap, flags: &Vec<String>) -> (r: Vec<String>)
    ensures
        text_map(final(env)@) == flags_applied(text_map(old(env)@), string_views(flags@), |f: Seq<char>| env_flag(f)),
        string_views(r@) == flag_warnings(string_views(flags@), |f: Seq<char>| env_flag(f), env_warning_lead()),
{
    let mut warnings: Vec<String> = Vec::new();
    let mut i: usize = 0;
    while i < flags.len()
        invariant
            i <= flags@.len(),
            text_map(env@) == flags_applied(text_map(old(env)@), string_views(flags@).take(i as int), |f: Seq<char>| env_flag(f)),
            string_views(warnings@) == flag_warnings(string_views(flags@).take(i as int), |f: Seq<char>| env_flag(f), env_warning_lead()),
        decreases flags@.len() - i,
    {
        let ghost t = string_views(flags@).take(i + 1);
        assert(t.drop_last() =~= string_views(flags@).take(i as int));
        assert(t.last() == flags@[i as int]@);
        let ghost before = env@;
        let ghost wbefore = warnings@;
        match env_pair(flags[i].as_str()) {
            Some((k, v)) => {
                env.insert(k, v);
                assert(text_map(env@) =~= text_map(before).insert(k@, v@));
            },
            None => {
                let mut w = owned("Warning: ignoring malformed -e value (expected KEY=VALUE): ");
                push_str(&mut w, flags[i].as_str());
                warnings.push(w);
                assert(string_views(warnings@) =~= string_views(wbefore).push(env_warning_lead() + flags@[i as int]@));
            },
        }
        i = i + 1;
    }
    assert(string_views(flags@).take(i as int) =~= string_views(flags@));
    warnings
}

/// Sets the HTTP headers of the `-H` flags, in order, then `Authorization: Bearer <token>`
/// for a bearer token; gives a warning for each flag without `:`.
pub fn apply_header_flags(headers: &mut StringMap, flags: &Vec<String>, bearer: Option<&str>) -> (r: Vec<String>)
    ensures
        text_map(final(headers)@) == ({
            let m = flags_applied(text_map(old(headers)@), string_views(flags@), |f: Seq<char>| header_flag(f));
            match bearer {
                Some(token) => m.insert("Authorization"@, "Bearer "@ + token@),
                None => m,
            }
        }),
        string_views(r@) == flag_warnings(string_views(flags@), |f: Seq<char>| header_flag(f), header_warning_lead()),
{
    let mut warnings: Vec<String> = Vec::new();
    let mut i: usize = 0;
    while i < flags.len()
        invariant
            i <= flags@.len(),
            text_map(headers@) == flags_applied(text_map(old(headers)@), string_views(flags@).take(i as int), |f: Seq<char>| header_flag(f)),
            string_views(warnings@) == flag_warnings(string_views(flags@).take(i as int), |f: Seq<char>| header_flag(f), header_warning_lead()),
        decreases flags@.len() - i,
    {
        let ghost t = string_views(flags@).take(i + 1);
        assert(t.drop_last() =~= string_views(flags@).take(i as int));
        assert(t.last() == flags@[i as int]@);
        let ghost before = headers@;
        let ghost wbefore = warnings@;
        match header_pair(flags[i].as_str()) {
            Some((k, v)) => {
                headers.insert(k, v);
                assert(text_map(headers@) =~= text_map(before).insert(k@, v@));
            },
            None => {
                let mut w = owned("Warning: ignoring malformed -H value (expected \"Name: Value\"): ");
                push_str(&mut w, flags[i].as_str());
                warnings.push(w);
                assert(string_views(warnings@) =~= string_views(wbefore).push(header_warning_lead() + flags@[i as int]@));
            },
        }
        i = i + 1;
    }
    assert(string_views(flags@).take(i as int) =~= string_views(flags@));
    match bearer {
        Some(token) => {
            let ghost before = headers@;
            let mut v = owned("Bearer ");
            push_str(&mut v, token);
            headers.insert(owned("Authorization"), v);
            assert(text_map(headers@) =~= text_map(before).insert("Authorization"@, "Bearer "@ + token@));
        },
        None => {},
    }
    warnings
}

/// How `--mcp-config`, `--server` and `--tool` go together: a server is loaded from the
/// configuration file when both `--mcp-config` and `--server` are given; `--server` needs
/// `--mcp-config`, and `--tool` with `--mcp-config` needs `--server`.
pub open spec fn server_flags_checked(has_config: bool, has_server: bool, has_tool: bool) -> Result<bool, Seq<char>> {
    if has_config {
        if has_server {
            Ok(true)
        } else if has_tool {
            Err("--server is required when using --tool with --mcp-config"@)
        } else {
            Ok(false)
        }
    } else if has_server {
        Err("--server requires --mcp-config"@)
    } else {
        Ok(false)
    }
}

/// Checks the flags that select a server; `Ok(true)` when one is to be loaded from the
/// configuration file.
pub fn check_server_flags(has_config: bool, has_server: bool, has_tool: bool) -> (r: Result<bool, String>)
    ensures
        match r {
            Ok(load) => server_flags_checked(has_config, has_server, has_tool) == Ok::<bool, Seq<char>>(load),
            Err(e) => server_flags_checked(has_config, has_server, has_tool) == Err::<bool, Seq<char>>(e@),
        },
{
    if has_config {
        if has_server {
            Ok(true)
        } else if has_tool {
            Err(owned("--server is required when using --tool with --mcp-config"))
        } else {
            Ok(false)
        }
    } else if has_server {
        Err(owned("--server requires --mcp-config"))
    } else {
        Ok(false)
    }
}

// ---------------------------------------------------------------------------------------------
// Connecting on start
// ---------------------------------------------------------------------------------------------

/// The text of the words `words` joined as `shell_words::join` joins them: each quoted so
/// that a shell reads it back as it is, with spaces between them.
pub uninterp spec fn shell_join(words: Seq<Seq<char>>) -> Seq<char>;

/// Calls `shell_words::join`. The contract names its result `shell_join(words)`.
#[verifier::external_body]
fn join_shell_words(words: &Vec<String>) -> (r: String)
    ensures
        r@ == shell_join(string_views(words@)),
{
    shell_words::join(words)
}

/// The command typed on start, and whether its failure ends the program.
#[derive(Debug)]
pub struct StartCommand {
    pub line: String,
    pub fatal: bool,
}

/// The words of `--connect`'s value: as a shell splits it, or at white space when a quote is
/// not closed.
pub open spec fn connect_words(cmd: Seq<char>) -> Seq<Seq<char>> {
    match shell_split(cmd) {
        Some(ws) => ws,
        None => words(cmd),
    }
}

/// The command run on start: `connect <cmd>` for `--connect` with a command in it, else
/// `connect-http <url>` for `--connect-http` (a failure of either ends the program only in
/// batch mode, with `--tool`); else, for a server loaded with `--server`, the command that
/// connects to it the way its configuration says (a failure ends the program).
pub open spec fn start_command(
    connect: Option<Seq<char>>,
    connect_http: Option<Seq<char>>,
    has_server: bool,
    has_tool: bool,
    config: ConnectionConfig,
) -> Option<(Seq<char>, bool)> {
    match connect {
        Some(cmd) => if connect_words(cmd).len() > 0 { Some(("connect "@ + cmd, has_tool)) } else { None },
        None => match connect_http {
            Some(url) => Some(("connect-http "@ + url, has_tool)),
            None => if has_server {
                match config.transport_type {
                    TransportType::Http => Some(("connect-http "@ + config.url@, true)),
                    TransportType::Stdio => Some((
                        "connect "@ + shell_join(seq![config.command@] + string_views(config.args@)),
                        true,
                    )),
                }
            } else {
                None
            },
        },
    }
}

/// The command to run on start, if any.
pub fn start_command_for(
    connect: Option<&str>,
    connect_http: Option<&str>,
    has_server: bool,
    has_tool: bool,
    config: &ConnectionConfig,
) -> (r: Option<StartCommand>)
    ensures
        match r {
            Some(c) => start_command(opt_str(connect), opt_str(connect_http), has_server, has_tool, *config) == Some((c.line@, c.fatal)),
            None => start_command(opt_str(connect), opt_str(connect_http), has_server, has_tool, *config) is None,
        },
{
    match connect {
        Some(cmd) => {
            let parts = match split_shell_words(cmd) {
                Some(ws) => ws,
                None => split_whitespace(cmd),
            };
            if parts.len() > 0 {
                let mut line = owned("connect ");
                push_str(&mut line, cmd);
                Some(StartCommand { line, fatal: has_tool })
            } else {
                None
            }
        },
        None => match connect_http {
            Some(url) => {
                let mut line = owned("connect-http ");
                push_str(&mut line, url);
                Some(StartCommand { line, fatal: has_tool })
            },
            None => {
                if !has_server {
                    return None;
                }
                match config.transport_type {
                    TransportType::Http => {
                        let mut line = owned("connect-http ");
                        push_str(&mut line, config.url.as_str());
                        Some(StartCommand { line, fatal: true })
                    },
                    TransportType::Stdio => {
                        let mut all: Vec<String> = Vec::new();
                        all.push(copy_string(&config.command));
                        let mut i: usize = 0;
                        while i < config.args.len()
                            invariant
                                i <= config.args@.len(),
                                all@.len() == i + 1,
                                all@[0]@ == config.command@,
                                forall|k: int| 0 <= k < i ==> #[trigger] all@[k + 1]@ == config.args@[k]@,
                            decreases config.args@.len() - i,
                        {
                            all.push(copy_string(&config.args[i]));
                            i = i + 1;
                        }
                        assert(string_views(all@) =~= seq![config.command@] + string_views(config.args@)) by {
                            assert forall|k: int| 1 <= k < all@.len() implies all@[k]@ == config.args@[k - 1]@ by {
                                assert(all@[(k - 1) + 1]@ == config.args@[k - 1]@);
                            }
                        }
                        let mut line = owned("connect ");
                        push_str(&mut line, join_shell_words(&all).as_str());
                        Some(StartCommand { line, fatal: true })
                    },
                }
            },
        },
    }
}

/// The characters of an optional string slice.
pub open spec fn opt_str(s: Option<&str>) -> Option<Seq<char>> {
    match s {
        Some(t) => Some(t@),
        None => None,
    }
}

/// The error of a batch tool call without a connection.
pub fn batch_not_connected() -> (r: String)
    ensures
        r@ == "Not connected — use --connect, --connect-http, or --mcp-config with --server"@,
{
    owned("Not connected — use --connect, --connect-http, or --mcp-config with --server")
}

/// The error for `--args` that do not parse as JSON.
pub fn invalid_args_message(error: &str) -> (r: String)
    ensures
        r@ == "Invalid JSON in --args: "@ + error@,
{
    let mut t = owned("Invalid JSON in --args: ");
    push_str(&mut t, error);
    t
}

/// An HTTP target is always reached with `connect-http`: with `--connect-http <url>` and no
/// `--connect`, the start command is `connect-http <url>`, fatal only in batch mode; with a
/// server loaded by `--server` whose transport is HTTP, it is `connect-http` and its URL,
/// always fatal.
pub proof fn lemma_http_targets_use_connect_http(
    connect_http: Option<Seq<char>>,
    has_server: bool,
    has_tool: bool,
    config: ConnectionConfig,
)
    ensures
        connect_http matches Some(url) ==> start_command(None, connect_http, has_server, has_tool, config)
            == Some((seq!['c', 'o', 'n', 'n', 'e', 'c', 't', '-', 'h', 't', 't', 'p', ' '] + url, has_tool)),
        connect_http is None && has_server && config.transport_type == TransportType::Http ==>
            start_command(None, connect_http, has_server, has_tool, config)
                == Some((seq!['c', 'o', 'n', 'n', 'e', 'c', 't', '-', 'h', 't', 't', 'p', ' '] + config.url@, true)),
{
    reveal_strlit("connect-http ");
    assert("connect-http "@ =~= seq!['c', 'o', 'n', 'n', 'e', 'c', 't', '-', 'h', 't', 't', 'p', ' ']);
}

} // verus!
