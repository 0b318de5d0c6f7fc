use vstd::prelude::*;
use vstd::string::StrSliceExecFns;
use crate::client::CapabilityHandlers;
use crate::commands::{Next, Step, command_done, command_words, handle_command};
use crate::config::{CompleterState, ReplState};
use crate::protocol::{Notification, NotificationModel};
use crate::text::{chars_of, copy_string, decimal, owned, push_str, split_whitespace, str_equal, string_views, u64_to_text, words};

verus! {

/// The commands of the inspector, in the order they are offered.
pub open spec fn all_commands() -> Seq<Seq<char>> {
    seq![
        "connect"@, "connect-http"@, "disconnect"@, "reconnect"@, "status"@,
        "tools"@, "call"@, "resources"@, "read"@, "prompts"@, "prompt"@,
        "export"@, "set-name"@, "set-env"@, "set-timeout"@,
        "cap-set"@, "cap-list"@, "cap-remove"@,
        "log"@, "help"@, "history"@, "clear"@,
        "quit"@, "exit"@,
    ]
}

/// The names of all commands.
pub fn command_names() -> (r: Vec<String>)
    ensures
        string_views(r@) == all_commands(),
{
    let mut r: Vec<String> = Vec::new();
    r.push(owned("connect"));
    r.push(owned("connect-http"));
    r.push(owned("disconnect"));
    r.push(owned("reconnect"));
    r.push(owned("status"));
    r.push(owned("tools"));
    r.push(owned("call"));
    r.push(owned("resources"));
    r.push(owned("read"));
    r.push(owned("prompts"));
    r.push(owned("prompt"));
    r.push(owned("export"));
    r.push(owned("set-name"));
    r.push(owned("set-env"));
    r.push(owned("set-timeout"));
    r.push(owned("cap-set"));
    r.push(owned("cap-list"));
    r.push(owned("cap-remove"));
    r.push(owned("log"));
    r.push(owned("help"));
    r.push(owned("history"));
    r.push(owned("clear"));
    r.push(owned("quit"));
    r.push(owned("exit"));
    assert(string_views(r@) =~= all_commands());
    r
}

/// The names among `names` that start with `prefix`, in order.
pub open spec fn with_prefix(names: Seq<Seq<char>>, prefix: Seq<char>) -> Seq<Seq<char>>
    decreases names.len(),
{
    if names.len() == 0 {
        Seq::empty()
    } else {
        let rest = with_prefix(names.drop_last(), prefix);
        if prefix.is_prefix_of(names.last()) {
            rest.push(names.last())
        } else {
            rest
        }
    }
}

/// Whether `s` starts with `prefix`.
pub fn starts_with(s: &str, prefix: &str) -> (r: bool)
    ensures
        r == prefix@.is_prefix_of(s@),
{
    let cs = chars_of(s);
    let ps = chars_of(prefix);
    if ps.len() > cs.len() {
        return false;
    }
    let mut i: usize = 0;
    while i < ps.len()
        invariant
            i <= ps@.len() <= cs@.len(),
            cs@ == s@,
            ps@ == prefix@,
            forall|k: int| 0 <= k < i ==> ps@[k] == cs@[k],
        decreases ps@.len() - i,
    {
        if ps[i] != cs[i] {
            assert(!(ps@ =~= cs@.subrange(0, ps@.len() as int))) by {
                assert(cs@.subrange(0, ps@.len() as int)[i as int] == cs@[i as int]);
            }
            return false;
        }
        i = i + 1;
    }
    assert(ps@ =~= cs@.subrange(0, ps@.len() as int));
    true
}

/// The names among `names` that start with `prefix`.
pub fn names_with_prefix(names: &Vec<String>, prefix: &str) -> (r: Vec<String>)
    ensures
        string_views(r@) == with_prefix(string_views(names@), prefix@),
{
    let mut r: Vec<String> = Vec::new();
    let mut i: usize = 0;
    while i < names.len()
        invariant
            i <= names@.len(),
            string_views(r@) == with_prefix(string_views(names@).take(i as int), prefix@),
        decreases names@.len() - i,
    {
        let ghost before = r@;
        let ghost t = string_views(names@).take(i + 1);
        assert(t.drop_last() =~= string_views(names@).take(i as int));
        assert(t.last() == names@[i as int]@);
        if starts_with(names[i].as_str(), prefix) {
            r.push(copy_string(&names[i]));
            assert(string_views(r@) =~= string_views(before).push(names@[i as int]@));
        }
        i = i + 1;
    }
    assert(string_views(names@).take(i as int) =~= string_views(names@));
    r
}

/// What the completer offers: candidates that replace the word `prefix` just before the
/// cursor.
#[derive(Debug)]
pub struct Completion {
    pub prefix: String,
    pub candidates: Vec<String>,
}

/// Which word is completed in `typed` (the line up to the cursor) and from which names: the
/// command name while the first word is typed; the tool, resource or prompt name while the
/// second word of `call`, `read` or `prompt` is typed; nothing otherwise. The result is the
/// word typed so far and the names that are offered.
pub open spec fn completion_for(typed: Seq<char>, state: CompleterState) -> (Seq<char>, Seq<Seq<char>>) {
    let ws = words(typed);
    let after_space = typed.len() > 0 && typed.last() == ' ';
    if ws.len() == 0 || (ws.len() == 1 && !after_space) {
        let prefix = if ws.len() == 0 { Seq::empty() } else { ws[0] };
        (prefix, with_prefix(all_commands(), prefix))
    } else if ws.len() == 1 || (ws.len() == 2 && !after_space) {
        let prefix = if ws.len() == 2 { ws[1] } else { Seq::empty() };
        if ws[0] == "call"@ {
            (prefix, with_prefix(string_views(state.tools@), prefix))
        } else if ws[0] == "read"@ {
            (prefix, with_prefix(string_views(state.resources@), prefix))
        } else if ws[0] == "prompt"@ {
            (prefix, with_prefix(string_views(state.prompts@), prefix))
        } else {
            (Seq::empty(), Seq::empty())
        }
    } else {
        (Seq::empty(), Seq::empty())
    }
}

/// Completes the line typed so far, `typed`, from the command names and the names the
/// server last listed.
pub fn complete(typed: &str, state: &CompleterState) -> (r: Completion)
    ensures
        (r.prefix@, string_views(r.candidates@)) == completion_for(typed@, *state),
{
    let ws = split_whitespace(typed);
    let cs = chars_of(typed);
    let after_space = cs.len() > 0 && cs[cs.len() - 1] == ' ';
    proof {
        assert(string_views(ws@).len() == ws@.len());
    }
    if ws.len() == 0 || (ws.len() == 1 && !after_space) {
        let prefix = if ws.len() == 0 { String::new() } else { copy_string(&ws[0]) };
        let candidates = names_with_prefix(&command_names(), prefix.as_str());
        assert(prefix@ == (if words(typed@).len() == 0 { Seq::empty() } else { words(typed@)[0] }));
        return Completion { prefix, candidates };
    }
    if ws.len() == 1 || (ws.len() == 2 && !after_space) {
        let prefix = if ws.len() == 2 { copy_string(&ws[1]) } else { String::new() };
        assert(prefix@ == (if words(typed@).len() == 2 { words(typed@)[1] } else { Seq::empty() }));
        let cmd = ws[0].as_str();
        assert(cmd@ == words(typed@)[0]);
        if str_equal(cmd, "call") {
            let candidates = names_with_prefix(&state.tools, prefix.as_str());
            return Completion { prefix, candidates };
        } else if str_equal(cmd, "read") {
            let candidates = names_with_prefix(&state.resources, prefix.as_str());
            return Completion { prefix, candidates };
        } else if str_equal(cmd, "prompt") {
            let candidates = names_with_prefix(&state.prompts, prefix.as_str());
            return Completion { prefix, candidates };
        }
    }
    let r = Completion { prefix: String::new(), candidates: Vec::new() };
    assert(string_views(r.candidates@) =~= Seq::<Seq<char>>::empty());
    r
}

/// Every name offered starts with the word typed so far and is one of the names offered
/// from, and every such name that starts with it is offered.
pub proof fn lemma_with_prefix(names: Seq<Seq<char>>, prefix: Seq<char>)
    ensures
        forall|c: Seq<char>| #[trigger] with_prefix(names, prefix).contains(c) <==> (names.contains(c) && prefix.is_prefix_of(c)),
    decreases names.len(),
{
    if names.len() > 0 {
        lemma_with_prefix(names.drop_last(), prefix);
        let rest = with_prefix(names.drop_last(), prefix);
        assert forall|c: Seq<char>| #[trigger] with_prefix(names, prefix).contains(c) <==> (names.contains(c) && prefix.is_prefix_of(c)) by {
            if names.contains(c) {
                let k = choose|k: int| 0 <= k < names.len() && names[k] == c;
                if k < names.len() - 1 {
                    assert(names.drop_last()[k] == c);
                }
            }
            if names.drop_last().contains(c) {
                let k = choose|k: int| 0 <= k < names.drop_last().len() && names.drop_last()[k] == c;
                assert(names[k] == c);
            }
            if prefix.is_prefix_of(names.last()) {
                assert(rest.push(names.last()).last() == names.last());
                if rest.contains(c) {
                    let k = choose|k: int| 0 <= k < rest.len() && rest[k] == c;
                    assert(rest.push(names.last())[k] == c);
                }
                if rest.push(names.last()).contains(c) {
                    let k = choose|k: int| 0 <= k < rest.len() + 1 && rest.push(names.last())[k] == c;
                    if k < rest.len() {
                        assert(rest[k] == c);
                    }
                }
            }
        }
    }
}

// ---------------------------------------------------------------------------------------------
// The loop
// ---------------------------------------------------------------------------------------------

/// Runs a line read at the prompt: an empty line does nothing; any other line is added to the
/// history and run as a command.
pub fn enter_line(state: &mut ReplState, handlers: &mut CapabilityHandlers, line: &str) -> (r: Step)
    ensures
        line@.len() == 0 ==> *final(state) == *old(state) && *final(handlers) == *old(handlers)
            && r.outputs@.len() == 0 && r.next is Continue,
        line@.len() > 0 ==> {
            &&& string_views(final(state).history@) == string_views(old(state).history@).push(line@)
            &&& command_done(ReplState { history: final(state).history, ..*old(state) }, *final(state),
                *old(handlers), *final(handlers), command_words(line@), line@, r)
        },
{
    if line.unicode_len() == 0 {
        return Step { outputs: Vec::new(), next: Next::Continue };
    }
    let ghost before = state.history@;
    state.history.push(owned(line));
    assert(string_views(state.history@) =~= string_views(before).push(line@));
    let ghost s = *state;
    let r = handle_command(state, handlers, line);
    proof {
        crate::commands::lemma_commands_keep_session(s, *state, *old(handlers), *handlers, command_words(line@), line@, r);
        assert(s == (ReplState { history: state.history, ..*old(state) }));
    }
    r
}

/// The line that shows a notification as soon as it comes in.
pub open spec fn live_text(n: NotificationModel) -> Seq<char> {
    match n {
        NotificationModel::Log { level, message } => "[notification] "@ + level + ": "@ + message,
        NotificationModel::ToolListChanged => "[notification] tools list changed"@,
        NotificationModel::ResourceListChanged => "[notification] resources list changed"@,
        NotificationModel::PromptListChanged => "[notification] prompts list changed"@,
        NotificationModel::ServerRequest { method, params, responded } => if responded {
            "[server→client] "@ + method + " (responded)"@
        } else {
            "[server→client] "@ + method + " (no handler — replied method-not-found)"@
        },
        NotificationModel::Unknown { method, params } => "[notification] "@ + method,
    }
}

/// The note that notifications wait: how many there are and how to see them.
pub open spec fn pending_text(count: nat) -> Seq<char> {
    seq!['['] + decimal(count) + " new notification(s) — type 'log' to view]"@
}

fn cat3(a: &str, b: &str, c: &str) -> (r: String)
    ensures
        r@ == a@ + b@ + c@,
{
    let mut t = owned(a);
    push_str(&mut t, b);
    push_str(&mut t, c);
    t
}

/// Takes in a notification from the server: with `live` it is shown at once; otherwise it is
/// kept for `log`, and the note says how many wait. The result is the text to show.
pub fn receive_notification(state: &mut ReplState, n: Notification, live: bool) -> (r: String)
    requires
        old(state).pending_notifications@.len() < u64::MAX,
    ensures
        live ==> *final(state) == *old(state) && r@ == live_text(n.model()),
        !live ==> *final(state) == (ReplState {
            pending_notifications: final(state).pending_notifications,
            ..*old(state)
        }) && final(state).pending_notifications@ == old(state).pending_notifications@.push(n)
            && r@ == pending_text(final(state).pending_notifications@.len()),
{
    if live {
        let ghost m = n.model();
        let text = match &n {
            Notification::Log { level, message } => {
                let mut t = cat3("[notification] ", level.as_str(), ": ");
                push_str(&mut t, message.as_str());
                t
            },
            Notification::ToolListChanged => owned("[notification] tools list changed"),
            Notification::ResourceListChanged => owned("[notification] resources list changed"),
            Notification::PromptListChanged => owned("[notification] prompts list changed"),
            Notification::ServerRequest { method, params: _, responded } => {
                if *responded {
                    cat3("[server→client] ", method.as_str(), " (responded)")
                } else {
                    cat3("[server→client] ", method.as_str(), " (no handler — replied method-not-found)")
                }
            },
            Notification::Unknown { method, params: _ } => {
                let mut t = owned("[notification] ");
                push_str(&mut t, method.as_str());
                t
            },
        };
        return text;
    }
    state.pending_notifications.push(n);
    let count = state.pending_notifications.len();
    let mut t = owned("[");
    push_str(&mut t, u64_to_text(count as u64).as_str());
    push_str(&mut t, " new notification(s) — type 'log' to view]");
    proof {
        reveal_strlit("[");
        assert(t@ =~= pending_text(count as nat));
    }
    t
}

/// The completer's case for `typed`: the word typed is the second one after `cmd` (the first
/// word is `cmd`, and either the second is being typed or a space follows the first).
pub open spec fn second_word_of(typed: Seq<char>, cmd: Seq<char>) -> bool {
    let ws = words(typed);
    let after_space = typed.len() > 0 && typed.last() == ' ';
    &&& ws.len() >= 1
    &&& ws[0] == cmd
    &&& (ws.len() == 1 && after_space) || (ws.len() == 2 && !after_space)
}

/// After `read`, the completer offers resource URIs: exactly the URIs the server listed that
/// start with the word typed so far (nothing else, such as tool or prompt names).
pub proof fn lemma_read_completes_resource_uris(typed: Seq<char>, state: CompleterState, c: Seq<char>)
    requires
        second_word_of(typed, "read"@),
    ensures
        completion_for(typed, state).0 == (if words(typed).len() == 2 { words(typed)[1] } else { Seq::<char>::empty() }),
        completion_for(typed, state).1.contains(c) <==> (string_views(state.resources@).contains(c)
            && completion_for(typed, state).0.is_prefix_of(c)),
{
    reveal_strlit("read");
    reveal_strlit("call");
    assert("read"@[0] != "call"@[0]);
    lemma_with_prefix(string_views(state.resources@), completion_for(typed, state).0);
}

/// After `call`, the completer offers exactly the listed tool names that start with the word
/// typed so far.
pub proof fn lemma_call_completes_tool_names(typed: Seq<char>, state: CompleterState, c: Seq<char>)
    requires
        second_word_of(typed, "call"@),
    ensures
        completion_for(typed, state).0 == (if words(typed).len() == 2 { words(typed)[1] } else { Seq::<char>::empty() }),
        completion_for(typed, state).1.contains(c) <==> (string_views(state.tools@).contains(c)
            && completion_for(typed, state).0.is_prefix_of(c)),
{
    lemma_with_prefix(string_views(state.tools@), completion_for(typed, state).0);
}

/// After `prompt`, the completer offers exactly the listed prompt names that start with the
/// word typed so far.
pub proof fn lemma_prompt_completes_prompt_names(typed: Seq<char>, state: CompleterState, c: Seq<char>)
    requires
        second_word_of(typed, "prompt"@),
    ensures
        completion_for(typed, state).0 == (if words(typed).len() == 2 { words(typed)[1] } else { Seq::<char>::empty() }),
        completion_for(typed, state).1.contains(c) <==> (string_views(state.prompts@).contains(c)
            && completion_for(typed, state).0.is_prefix_of(c)),
{
    reveal_strlit("prompt");
    reveal_strlit("call");
    reveal_strlit("read");
    assert("prompt"@.len() != "call"@.len());
    assert("prompt"@.len() != "read"@.len());
    lemma_with_prefix(string_views(state.prompts@), completion_for(typed, state).0);
}

/// While the first word is typed, the completer offers exactly the command names that start
/// with it.
pub proof fn lemma_first_word_completes_commands(typed: Seq<char>, state: CompleterState, c: Seq<char>)
    requires
        words(typed).len() == 1,
        !(typed.len() > 0 && typed.last() == ' '),
    ensures
        completion_for(typed, state).0 == words(typed)[0],
        completion_for(typed, state).1.contains(c) <==> (all_commands().contains(c) && words(typed)[0].is_prefix_of(c)),
{
    lemma_with_prefix(all_commands(), words(typed)[0]);
}

} // verus!
