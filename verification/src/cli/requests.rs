//! What a command asks of a daemon.
use vstd::prelude::*;
use vstd::string::*;

use crate::api::routes::{route_method, route_path, Endpoint, Method};
use crate::keymap::lists;
use crate::text::{dec_int, push_int, text_in, trim_end_spec};

use super::daemons::{aims, is_only, names_text, CliError, DaemonCtx, HttpClient};
use super::Command;

verus! {

/// How an answer is shown.
#[derive(Debug, Clone, Copy, PartialEq, Eq, Structural)]
pub enum Show {
    /// As it is.
    Body,
    /// Only that it came.
    Done,
    /// As what came of an update.
    Outcome,
    /// As a history.
    History,
    /// As lines that go on coming.
    Stream,
}

/// A request to a daemon.
pub struct Call {
    pub method: Method,
    pub url: String,
    pub authorization: String,
    pub show: Show,
    /// What is shown above the answer.
    pub heading: Option<String>,
}

/// The command that is meant where none is given.
pub fn default_command(with_daemon: bool) -> (r: Command)
    ensures
        r == if with_daemon {
            Command::Daemon
        } else {
            Command::List
        },
{
    if with_daemon {
        Command::Daemon
    } else {
        Command::List
    }
}

/// Where a command goes.
pub enum Stage {
    /// This program becomes the daemon.
    RunDaemon,
    /// The completions for a shell are written.
    Complete { shell: String },
    /// Daemons are asked.
    Ask(Command),
}

/// Where the command goes, for a program that can be the daemon or not.
pub fn stage(command: Option<Command>, with_daemon: bool) -> (r: Stage)
    ensures
        r == match command {
            Some(Command::Daemon) => Stage::RunDaemon,
            Some(Command::Completions { shell }) => Stage::Complete { shell },
            Some(c) => Stage::Ask(c),
            None => if with_daemon {
                Stage::RunDaemon
            } else {
                Stage::Ask(Command::List)
            },
        },
{
    let command = match command {
        Some(c) => c,
        None => default_command(with_daemon),
    };
    match command {
        Command::Daemon => Stage::RunDaemon,
        Command::Completions { shell } => Stage::Complete { shell },
        c => Stage::Ask(c),
    }
}

/// The target of a command, the route that it uses and how the answer is shown;
/// `None` for a command that is not about one instance.
pub open spec fn instance_request(c: Command) -> Option<(String, Endpoint, Show)> {
    match c {
        Command::Status { target } => Some((target, Endpoint::InstanceStatus, Show::Body)),
        Command::Start { target } => Some((target, Endpoint::Start, Show::Done)),
        Command::Stop { target } => Some((target, Endpoint::Stop, Show::Done)),
        Command::Restart { target } => Some((target, Endpoint::Restart, Show::Done)),
        Command::ForceRestart { target } => Some((target, Endpoint::ForceRestart, Show::Done)),
        Command::Update { target } => Some((target, Endpoint::Update, Show::Outcome)),
        Command::Silence { target } => Some((target, Endpoint::Silence, Show::Done)),
        Command::Unsilence { target } => Some((target, Endpoint::Unsilence, Show::Done)),
        Command::History { target, .. } => Some((target, Endpoint::History, Show::History)),
        Command::Logs { target, .. } => Some((target, Endpoint::Logs, Show::Stream)),
        _ => None,
    }
}

/// What follows the instance in the path of a route.
pub open spec fn route_end(e: Endpoint) -> Seq<char> {
    match e {
        Endpoint::InstanceStatus => "/status"@,
        Endpoint::Start => "/start"@,
        Endpoint::Stop => "/stop"@,
        Endpoint::Restart => "/restart"@,
        Endpoint::ForceRestart => "/force-restart"@,
        Endpoint::Update => "/update"@,
        Endpoint::Silence => "/silence"@,
        Endpoint::Unsilence => "/unsilence"@,
        Endpoint::History => "/history"@,
        Endpoint::Logs => "/logs"@,
        _ => ""@,
    }
}

/// What follows the path: how much of the history is asked for.
pub open spec fn query_of(c: Command) -> Seq<char> {
    match c {
        Command::History { limit, .. } => "?limit="@ + dec_int(limit as int),
        _ => Seq::empty(),
    }
}

/// The path of a request about the instance `key`.
pub open spec fn instance_path(e: Endpoint, key: Seq<char>, c: Command) -> Seq<char> {
    "/instances/"@ + key + route_end(e) + query_of(c)
}

/// Whether `call` is a request to `client` for `path`.
pub open spec fn calls(
    call: Call,
    client: HttpClient,
    method: Method,
    path: Seq<char>,
    show: Show,
) -> bool {
    &&& call.method == method
    &&& call.url@ == trim_end_spec(client.base@, '/') + path
    &&& call.authorization@ == "Bearer "@ + client.token@
    &&& call.show == show
}

/// Whether `r` is what a command asks of which daemon.
pub open spec fn asks(ctx: DaemonCtx, c: Command, r: Result<Option<Call>, CliError>) -> bool {
    match instance_request(c) {
        Some((target, e, show)) => match r {
            Ok(None) => false,
            Ok(Some(call)) => exists|client: &HttpClient, key: String| #[trigger]
                aims(ctx, target@, Ok((client, key))) && calls(
                    call,
                    *client,
                    route_method(e),
                    instance_path(e, key@, c),
                    show,
                ) && call.heading is None,
            Err(e) => aims(ctx, target@, Err(e)),
        },
        None => if c is Reload {
            match (ctx.selected, r) {
                (Some(name), Ok(Some(call))) => {
                    &&& calls(call, ctx.daemons@[name@], Method::Post, "/reload"@, Show::Body)
                    &&& text_in(call.heading) == if many(ctx.known()) {
                        Some("["@ + name@ + "]"@)
                    } else {
                        None
                    }
                },
                (None, Err(e)) => e matches CliError::NoneSelected { known } && known@
                    == names_text(ctx.known()),
                _ => false,
            }
        } else {
            r == Ok::<Option<Call>, CliError>(None)
        },
    }
}

/// Whether there is more than one name.
pub open spec fn many(names: Set<Seq<char>>) -> bool {
    !(names == Set::<Seq<char>>::empty() || exists|k: Seq<char>| #[trigger] is_only(names, k))
}

fn call_to(client: &HttpClient, method: Method, path: &str, show: Show) -> (r: Call)
    ensures
        calls(r, *client, method, path@, show),
        r.heading is None,
{
    Call {
        method,
        url: client.url(path),
        authorization: client.authorization(),
        show,
        heading: None,
    }
}

fn path_of(key: &str, end: &str) -> (r: String)
    ensures
        r@ == "/instances/"@ + key@ + end@,
{
    let mut r = "/instances/".to_string();
    r.append(key);
    r.append(end);
    r
}

fn target_of(c: &Command) -> (r: Option<(&str, &'static str, Method, Show)>)
    ensures
        match (r, instance_request(*c)) {
            (Some((target, end, method, show)), Some((t, e, s))) => {
                &&& target@ == t@
                &&& end@ == route_end(e)
                &&& method == route_method(e)
                &&& show == s
            },
            (None, None) => true,
            _ => false,
        },
{
    match c {
        Command::Status { target } => Some((target.as_str(), "/status", Method::Get, Show::Body)),
        Command::Start { target } => Some((target.as_str(), "/start", Method::Post, Show::Done)),
        Command::Stop { target } => Some((target.as_str(), "/stop", Method::Post, Show::Done)),
        Command::Restart { target } => Some(
            (target.as_str(), "/restart", Method::Post, Show::Done),
        ),
        Command::ForceRestart { target } => Some(
            (target.as_str(), "/force-restart", Method::Post, Show::Done),
        ),
        Command::Update { target } => Some(
            (target.as_str(), "/update", Method::Post, Show::Outcome),
        ),
        Command::Silence { target } => Some(
            (target.as_str(), "/silence", Method::Post, Show::Done),
        ),
        Command::Unsilence { target } => Some(
            (target.as_str(), "/unsilence", Method::Post, Show::Done),
        ),
        Command::History { target, limit: _ } => Some(
            (target.as_str(), "/history", Method::Get, Show::History),
        ),
        Command::Logs { target, follow: _ } => Some(
            (target.as_str(), "/logs", Method::Get, Show::Stream),
        ),
        _ => None,
    }
}

/// What a command asks of which daemon; `None` for one that asks nothing of a
/// single daemon.
pub fn request_for(ctx: &DaemonCtx, c: &Command) -> (r: Result<Option<Call>, CliError>)
    requires
        ctx.wf(),
    ensures
        asks(*ctx, *c, r),
{
    match target_of(c) {
        Some((target, end, method, show)) => match ctx.resolve(target) {
            Ok((client, key)) => {
                let mut path = path_of(key.as_str(), end);
                let ghost plain = path@;
                match c {
                    Command::History { target: _, limit } => {
                        path.append("?limit=");
                        push_int(&mut path, *limit);
                    },
                    _ => {},
                }
                assert(path@ =~= plain + query_of(*c));
                assert(aims(*ctx, target@, Ok((client, key))));
                Ok(Some(call_to(client, method, path.as_str(), show)))
            },
            Err(e) => Err(e),
        },
        None => match c {
            Command::Reload => match ctx.pick_single() {
                Ok((name, client)) => {
                    let mut call = call_to(client, Method::Post, "/reload", Show::Body);
                    if ctx.has_multiple() {
                        let mut heading = "[".to_string();
                        heading.append(name);
                        heading.append("]");
                        call.heading = Some(heading);
                    }
                    Ok(Some(call))
                },
                Err(e) => Err(e),
            },
            _ => Ok(None),
        },
    }
}

/// The requests for a list, each with the name of the daemon that it goes to.
pub fn list_requests(ctx: &DaemonCtx) -> (r: Vec<(String, Call)>)
    requires
        ctx.wf(),
    ensures
        ctx.restricted ==> r@.len() == 1 && r@[0].0@ == ctx.selected.unwrap()@,
        !ctx.restricted ==> lists(r@.map_values(|e: (String, Call)| e.0@), ctx.known()),
        forall|i: int|
            0 <= i < r@.len() ==> ctx.daemons@.contains_key((#[trigger] r@[i]).0@) && calls(
                r@[i].1,
                ctx.daemons@[r@[i].0@],
                Method::Get,
                "/instances"@,
                Show::Body,
            ),
        forall|i: int| 0 <= i < r@.len() ==> (#[trigger] r@[i]).1.heading is None,
{
    let targets = ctx.list_targets();
    let mut r: Vec<(String, Call)> = Vec::new();
    let mut i: usize = 0;
    while i < targets.len()
        invariant
            i <= targets@.len(),
            r@.len() == i,
            forall|j: int| 0 <= j < i ==> (#[trigger] r@[j]).0@ == targets@[j].0@,
            forall|j: int|
                0 <= j < i ==> calls(
                    (#[trigger] r@[j]).1,
                    targets@[j].1,
                    Method::Get,
                    "/instances"@,
                    Show::Body,
                ),
            forall|j: int| 0 <= j < i ==> (#[trigger] r@[j]).1.heading is None,
        decreases targets.len() - i,
    {
        let call = call_to(&targets[i].1, Method::Get, "/instances", Show::Body);
        r.push((targets[i].0.clone(), call));
        i = i + 1;
    }
    assert(r@.map_values(|e: (String, Call)| e.0@) =~= targets@.map_values(
        |e: (String, HttpClient)| e.0@,
    ));
    r
}

/// The command line speaks the language of the API: the path that it asks for is
/// that of the route, with the instance in its place.
pub proof fn law_requests_are_routes(c: Command)
    ensures
        instance_request(c) matches Some((_, e, _)) ==> route_path(e) == "/instances/{key}"@
            + route_end(e),
        route_path(Endpoint::Reload) == "/reload"@ && route_method(Endpoint::Reload) is Post,
        route_path(Endpoint::ListInstances) == "/instances"@ && route_method(
            Endpoint::ListInstances,
        ) is Get,
{
    reveal_strlit("/instances/{key}");
    reveal_strlit("/instances/{key}/status");
    reveal_strlit("/instances/{key}/start");
    reveal_strlit("/instances/{key}/stop");
    reveal_strlit("/instances/{key}/restart");
    reveal_strlit("/instances/{key}/force-restart");
    reveal_strlit("/instances/{key}/update");
    reveal_strlit("/instances/{key}/silence");
    reveal_strlit("/instances/{key}/unsilence");
    reveal_strlit("/instances/{key}/history");
    reveal_strlit("/instances/{key}/logs");
    reveal_strlit("/status");
    reveal_strlit("/start");
    reveal_strlit("/stop");
    reveal_strlit("/restart");
    reveal_strlit("/force-restart");
    reveal_strlit("/update");
    reveal_strlit("/silence");
    reveal_strlit("/unsilence");
    reveal_strlit("/history");
    reveal_strlit("/logs");
    assert(instance_request(c) matches Some((_, e, _)) ==> route_path(e) =~= "/instances/{key}"@
        + route_end(e));
}

/// The answer of a daemon, where it is no success.
pub open spec fn failed_answer(status: Seq<char>, text: Seq<char>) -> Seq<char> {
    status + ": "@ + text
}

/// Whether an answer with the status code `code` is a success; if not, the error
/// says so, by the status in words and the text of the answer.
pub fn check_status(code: u16, status: &str, text: &str) -> (r: Result<(), CliError>)
    ensures
        match r {
            Ok(()) => 200 <= code < 300,
            Err(CliError::Reported(why)) => !(200 <= code < 300) && why@ == failed_answer(
                status@,
                text@,
            ),
            Err(_) => false,
        },
{
    if 200 <= code && code < 300 {
        Ok(())
    } else {
        let mut why = status.to_string();
        why.append(": ");
        why.append(text);
        Err(CliError::Reported(why))
    }
}

/// What each command about an instance asks of the daemon that its target means: the
/// address, the method and how the answer is shown.
pub proof fn law_request_of_a_command(
    ctx: DaemonCtx,
    c: Command,
    target: String,
    end: Seq<char>,
    r: Result<Option<Call>, CliError>,
    show: Show,
    post: bool,
)
    requires
        asks(ctx, c, r),
        match c {
            Command::Status { target: t } => t == target && end == "/status"@ && show is Body
                && !post,
            Command::Start { target: t } => t == target && end == "/start"@ && show is Done && post,
            Command::Stop { target: t } => t == target && end == "/stop"@ && show is Done && post,
            Command::Restart { target: t } => t == target && end == "/restart"@ && show is Done
                && post,
            Command::ForceRestart { target: t } => t == target && end == "/force-restart"@ && show
                is Done && post,
            Command::Update { target: t } => t == target && end == "/update"@ && show is Outcome
                && post,
            Command::Silence { target: t } => t == target && end == "/silence"@ && show is Done
                && post,
            Command::Unsilence { target: t } => t == target && end == "/unsilence"@ && show is Done
                && post,
            Command::History { target: t, limit } => t == target && end == "/history"@ + "?limit="@
                + dec_int(limit as int) && show is History && !post,
            Command::Logs { target: t, .. } => t == target && end == "/logs"@ && show is Stream
                && !post,
            _ => false,
        },
    ensures
        r matches Ok(found) ==> {
            &&& found matches Some(call)
            &&& call.method == if post {
                Method::Post
            } else {
                Method::Get
            }
            &&& call.show == show
            &&& call.heading is None
            &&& exists|client: &HttpClient, key: String| #[trigger]
                aims(ctx, target@, Ok((client, key))) && call.url@ == trim_end_spec(
                    client.base@,
                    '/',
                ) + ("/instances/"@ + key@ + end) && call.authorization@ == "Bearer "@
                    + client.token@
        },
        r matches Err(e) ==> aims(ctx, target@, Err(e)),
{
    if let Ok(Some(call)) = r {
        let (t, e, s) = instance_request(c).unwrap();
        let (client, key) = choose|client: &HttpClient, key: String| #[trigger]
            aims(ctx, t@, Ok((client, key))) && calls(
                call,
                *client,
                route_method(e),
                instance_path(e, key@, c),
                s,
            ) && call.heading is None;
        assert(instance_path(e, key@, c) =~= "/instances/"@ + key@ + end);
        assert(aims(ctx, target@, Ok((client, key))));
    }
}

/// A reload goes to the selected daemon, whose name stands above the answer where there
/// are several; without one it is an error. A list and what concerns no daemon ask
/// nothing of a single one.
pub proof fn law_request_of_a_reload(
    ctx: DaemonCtx,
    c: Command,
    r: Result<Option<Call>, CliError>,
)
    requires
        asks(ctx, c, r),
    ensures
        c is Reload ==> match ctx.selected {
            Some(name) => {
                &&& r matches Ok(found)
                &&& found matches Some(call)
                &&& call.method is Post
                &&& call.show is Body
                &&& call.url@ == trim_end_spec(ctx.daemons@[name@].base@, '/') + "/reload"@
                &&& call.authorization@ == "Bearer "@ + ctx.daemons@[name@].token@
                &&& match call.heading {
                    Some(h) => many(ctx.known()) && h@ == "["@ + name@ + "]"@,
                    None => !many(ctx.known()),
                }
            },
            None => r matches Err(e) && e matches CliError::NoneSelected { known } && known@
                == names_text(ctx.known()),
        },
        c is List || c is Daemon || c is Completions ==> r == Ok::<Option<Call>, CliError>(None),
{
}

/// There are many names exactly if there are two.
pub proof fn law_many_names(names: Set<Seq<char>>, a: Seq<char>, b: Seq<char>)
    ensures
        names.contains(a) && names.contains(b) && a != b ==> many(names),
        many(names) ==> exists|x: Seq<char>, y: Seq<char>| #[trigger]
            names.contains(x) && #[trigger] names.contains(y) && x != y,
{
    if names.contains(a) && names.contains(b) && a != b {
        assert(names != Set::<Seq<char>>::empty());
        assert forall|k: Seq<char>| !(#[trigger] is_only(names, k)) by {
            if is_only(names, k) {
                assert(a == k && b == k);
            }
        }
    }
    if many(names) {
        if !(exists|x: Seq<char>, y: Seq<char>| #[trigger]
            names.contains(x) && #[trigger] names.contains(y) && x != y) {
            if exists|x: Seq<char>| names.contains(x) {
                let x = choose|x: Seq<char>| names.contains(x);
                assert(is_only(names, x));
            } else {
                assert(names =~= Set::<Seq<char>>::empty());
            }
        }
    }
}

} // verus!
