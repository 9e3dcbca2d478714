//! Who is let in.
use base64::Engine;
use vstd::prelude::*;
use vstd::string::*;
use vstd::utf8::{encode_utf8, encode_utf8_decode_utf8};

use crate::config::ServerConfig;
use crate::supervisor::machine::{alive, current_api, Phase, Query, Supervisor};
use crate::supervisor::watchdog::{law_reload_disturbs_nothing, reloaded};
use crate::supervisor::Watchdog;
use crate::text::{
    after_prefix, find_char, first_index, law_prefix_taken_off, lemma_first_index_is, same, slice_in, split_once,
    split_once_spec, starts_with, strip_prefix, text_of, utf8_text,
};

verus! {

/// Why a request is turned down.
#[derive(Debug)]
pub enum Refusal {
    /// No admin token is configured, so nobody is admitted.
    NoAdminToken,
    BadAdminToken,
    /// There is no authorization of a kind that is understood.
    MissingAuth,
    BadCredentials,
    /// The path names no instance.
    NoInstanceKey,
    /// The credentials are those of another instance.
    KeyMismatch,
    UnknownInstance,
    /// The supervisor of the instance has ended.
    TaskGone,
    /// Something broke, in its own words.
    Failed(String),
    /// The configuration cannot be read, for the given reason.
    BadConfig(String),
}

/// The status code of a refusal.
pub open spec fn status_code(r: Refusal) -> u16 {
    match r {
        Refusal::NoAdminToken
        | Refusal::BadAdminToken
        | Refusal::MissingAuth
        | Refusal::BadCredentials => 401,
        Refusal::NoInstanceKey | Refusal::BadConfig(_) => 400,
        Refusal::KeyMismatch => 403,
        Refusal::UnknownInstance => 404,
        Refusal::TaskGone => 503,
        Refusal::Failed(_) => 500,
    }
}

/// The text of a refusal.
pub open spec fn refusal_text(r: Refusal) -> Seq<char> {
    match r {
        Refusal::NoAdminToken => "admin token not configured"@,
        Refusal::BadAdminToken => "bad admin token"@,
        Refusal::MissingAuth => "missing auth"@,
        Refusal::BadCredentials => "bad basic credentials"@,
        Refusal::NoInstanceKey => "no instance key"@,
        Refusal::KeyMismatch => "key mismatch"@,
        Refusal::UnknownInstance => "unknown instance"@,
        Refusal::TaskGone => "supervisor task is not running"@,
        Refusal::Failed(why) => why@,
        Refusal::BadConfig(why) => why@,
    }
}

impl Refusal {
    /// The status code.
    pub fn status(&self) -> (r: u16)
        ensures
            r == status_code(*self),
    {
        match self {
            Refusal::NoAdminToken
            | Refusal::BadAdminToken
            | Refusal::MissingAuth
            | Refusal::BadCredentials => 401,
            Refusal::NoInstanceKey | Refusal::BadConfig(_) => 400,
            Refusal::KeyMismatch => 403,
            Refusal::UnknownInstance => 404,
            Refusal::TaskGone => 503,
            Refusal::Failed(_) => 500,
        }
    }

    /// The value of the header `WWW-Authenticate`, which only goes with bad
    /// credentials.
    pub fn challenge(&self) -> (r: Option<&'static str>)
        ensures
            match r {
                Some(c) => *self is BadCredentials && c@ == "Basic realm=\"ss14watchdog\""@,
                None => !(*self is BadCredentials),
            },
    {
        match self {
            Refusal::BadCredentials => Some("Basic realm=\"ss14watchdog\""),
            _ => None,
        }
    }

    /// The text.
    pub fn body(&self) -> (r: String)
        ensures
            r@ == refusal_text(*self),
    {
        match self {
            Refusal::NoAdminToken => "admin token not configured".to_string(),
            Refusal::BadAdminToken => "bad admin token".to_string(),
            Refusal::MissingAuth => "missing auth".to_string(),
            Refusal::BadCredentials => "bad basic credentials".to_string(),
            Refusal::NoInstanceKey => "no instance key".to_string(),
            Refusal::KeyMismatch => "key mismatch".to_string(),
            Refusal::UnknownInstance => "unknown instance".to_string(),
            Refusal::TaskGone => "supervisor task is not running".to_string(),
            Refusal::Failed(why) => why.clone(),
            Refusal::BadConfig(why) => why.clone(),
        }
    }
}

/// Whether two byte strings are the same. Every byte of two strings of one
/// length is looked at, wherever they differ.
pub fn constant_time_eq(a: &[u8], b: &[u8]) -> (r: bool)
    ensures
        r == (a@ == b@),
{
    if a.len() != b.len() {
        return false;
    }
    let mut acc: u8 = 0;
    let mut i: usize = 0;
    while i < a.len()
        invariant
            a@.len() == b@.len(),
            i <= a@.len(),
            acc == 0 <==> forall|j: int| 0 <= j < i ==> a@[j] == b@[j],
        decreases a.len() - i,
    {
        let x = a[i];
        let y = b[i];
        let ghost was = acc;
        acc = acc | (x ^ y);
        assert((was | (x ^ y)) == 0 <==> was == 0 && x == y) by (bit_vector);
        i = i + 1;
    }
    assert(acc == 0 ==> a@ =~= b@);
    acc == 0
}

/// Whether two texts are the same, by their bytes.
fn same_secret(a: &str, b: &str) -> (r: bool)
    ensures
        r == (a@ == b@),
{
    proof {
        encode_utf8_decode_utf8(a@);
        encode_utf8_decode_utf8(b@);
    }
    constant_time_eq(a.as_bytes(), b.as_bytes())
}

/// The bytes that a text stands for in base64 with the standard alphabet and
/// padding; `None` where it stands for none.
pub uninterp spec fn base64_bytes(text: Seq<char>) -> Option<Seq<u8>>;

/// The bytes that a text stands for in base64.
///
/// Calls `Engine::decode` of the engine `STANDARD` of the `base64` crate, whose
/// result depends on its input alone.
#[verifier::external_body]
fn decode_base64(text: &str) -> (r: Option<Vec<u8>>)
    ensures
        match r {
            Some(bytes) => base64_bytes(text@) == Some(bytes@),
            None => base64_bytes(text@) is None,
        },
{
    base64::engine::general_purpose::STANDARD.decode(text).ok()
}

/// User and password in decoded credentials: a text, parted at its first colon.
pub open spec fn credentials_in(bytes: Seq<u8>) -> Option<(Seq<char>, Seq<char>)> {
    match text_of(bytes) {
        Some(t) => split_once_spec(t, ':'),
        None => None,
    }
}

/// Optional credentials as mathematical values.
pub open spec fn pair_in(p: Option<(String, String)>) -> Option<(Seq<char>, Seq<char>)> {
    match p {
        Some((user, pass)) => Some((user@, pass@)),
        None => None,
    }
}

/// User and password in decoded credentials.
pub fn credentials(bytes: &[u8]) -> (r: Option<(String, String)>)
    ensures
        pair_in(r) == credentials_in(bytes@),
{
    match utf8_text(bytes) {
        Some(t) => match split_once(t, ':') {
            Some((user, pass)) => Some((user.to_string(), pass.to_string())),
            None => None,
        },
        None => None,
    }
}

/// User and password in the value of a header `Authorization`.
pub open spec fn basic_credentials(header: Seq<char>) -> Option<(Seq<char>, Seq<char>)> {
    match after_prefix(header, "Basic "@) {
        Some(encoded) => match base64_bytes(encoded) {
            Some(bytes) => credentials_in(bytes),
            None => None,
        },
        None => None,
    }
}

/// User and password in the value of a header `Authorization`.
pub fn parse_basic(header: &str) -> (r: Option<(String, String)>)
    ensures
        pair_in(r) == basic_credentials(header@),
{
    match strip_prefix(header, "Basic ") {
        Some(encoded) => match decode_base64(encoded) {
            Some(bytes) => credentials(bytes.as_slice()),
            None => None,
        },
        None => None,
    }
}

/// What stands in a path between `prefix` and the next slash or the end.
pub open spec fn key_after(path: Seq<char>, prefix: Seq<char>) -> Option<Seq<char>> {
    match after_prefix(path, prefix) {
        Some(rest) => Some(
            if rest.contains('/') {
                rest.take(first_index(rest, '/'))
            } else {
                rest
            },
        ),
        None => None,
    }
}

fn extract_key<'a>(path: &'a str, prefix: &str) -> (r: Option<&'a str>)
    ensures
        slice_in(r) == key_after(path@, prefix@),
{
    match strip_prefix(path, prefix) {
        Some(rest) => match find_char(rest, '/') {
            Some(end) => {
                let key = rest.substring_char(0, end);
                assert(key@ =~= rest@.take(first_index(rest@, '/')));
                Some(key)
            },
            None => Some(rest),
        },
        None => None,
    }
}

/// The instance that a path of the game servers' API names.
pub fn extract_server_api_key(path: &str) -> (r: Option<&str>)
    ensures
        slice_in(r) == key_after(path@, "/server_api/"@),
{
    extract_key(path, "/server_api/")
}

/// The instance that a path of the admin API names.
pub fn extract_instance_key(path: &str) -> (r: Option<&str>)
    ensures
        slice_in(r) == key_after(path@, "/instances/"@),
{
    extract_key(path, "/instances/")
}

/// The verdict on a request for an admin route: `None` lets it in.
pub open spec fn admin_verdict(token: Option<Seq<char>>, header: Option<Seq<char>>) -> Option<
    Refusal,
> {
    match token {
        None => Some(Refusal::NoAdminToken),
        Some(t) => if header is Some && after_prefix(header.unwrap(), "Bearer "@) == Some(t) {
            None
        } else {
            Some(Refusal::BadAdminToken)
        },
    }
}

/// The verdict on a request for the route of one instance: `None` lets it in.
pub open spec fn instance_verdict(
    supervisors: Map<Seq<char>, Supervisor>,
    key: Option<Seq<char>>,
    credentials: Option<(Seq<char>, Seq<char>)>,
) -> Option<Refusal> {
    match (key, credentials) {
        (None, _) => Some(Refusal::NoInstanceKey),
        (Some(_), None) => Some(Refusal::BadCredentials),
        (Some(k), Some((user, pass))) => if user != k {
            Some(Refusal::KeyMismatch)
        } else if !supervisors.contains_key(k) {
            Some(Refusal::UnknownInstance)
        } else if pass != current_api(supervisors[k]).token@ {
            Some(Refusal::BadCredentials)
        } else {
            None
        },
    }
}

/// The text of a header, or none.
pub open spec fn header_text(header: Option<Seq<char>>) -> Seq<char> {
    match header {
        Some(h) => h,
        None => Seq::empty(),
    }
}

/// The verdict on a request for the route that admins and instances share.
pub open spec fn shared_verdict(
    token: Option<Seq<char>>,
    supervisors: Map<Seq<char>, Supervisor>,
    path: Seq<char>,
    header: Option<Seq<char>>,
) -> Option<Refusal> {
    let raw = header_text(header);
    if after_prefix(raw, "Bearer "@) is Some {
        if token is Some && after_prefix(raw, "Bearer "@) == token {
            None
        } else {
            Some(Refusal::BadAdminToken)
        }
    } else if after_prefix(raw, "Basic "@) is Some {
        instance_verdict(supervisors, key_after(path, "/instances/"@), basic_credentials(raw))
    } else {
        Some(Refusal::MissingAuth)
    }
}

/// The refusal in a verdict.
pub open spec fn refused(r: Result<(), Refusal>) -> Option<Refusal> {
    match r {
        Ok(()) => None,
        Err(e) => Some(e),
    }
}

/// Lets a request for an admin route in, or not. `header` is the value of
/// `Authorization`.
pub fn require_admin(token: Option<&str>, header: Option<&str>) -> (r: Result<(), Refusal>)
    ensures
        refused(r) == admin_verdict(slice_in(token), slice_in(header)),
{
    let expected = match token {
        Some(t) => t,
        None => return Err(Refusal::NoAdminToken),
    };
    let presented = match header {
        Some(h) => strip_prefix(h, "Bearer "),
        None => None,
    };
    match presented {
        Some(p) => if same_secret(p, expected) {
            Ok(())
        } else {
            Err(Refusal::BadAdminToken)
        },
        None => Err(Refusal::BadAdminToken),
    }
}

/// Lets a request for the route of one instance in, or not, by the key in the
/// path and the credentials that came with it.
pub fn admit_instance(
    watchdog: &Watchdog,
    key: Option<&str>,
    credentials: Option<(String, String)>,
) -> (r: Result<(), Refusal>)
    ensures
        refused(r) == instance_verdict(
            watchdog.supervisors@,
            slice_in(key),
            pair_in(credentials),
        ),
{
    let key = match key {
        Some(k) => k,
        None => return Err(Refusal::NoInstanceKey),
    };
    let (user, pass) = match credentials {
        Some(c) => c,
        None => return Err(Refusal::BadCredentials),
    };
    if !same(user.as_str(), key) {
        return Err(Refusal::KeyMismatch);
    }
    match watchdog.get(key) {
        Some(s) => {
            let token = s.api_token();
            if same_secret(pass.as_str(), token.as_str()) {
                Ok(())
            } else {
                Err(Refusal::BadCredentials)
            }
        },
        None => Err(Refusal::UnknownInstance),
    }
}

/// Lets a request of a game server in, or not.
pub fn require_instance_basic(watchdog: &Watchdog, path: &str, header: Option<&str>) -> (r: Result<
    (),
    Refusal,
>)
    ensures
        refused(r) == instance_verdict(
            watchdog.supervisors@,
            key_after(path@, "/server_api/"@),
            basic_credentials(header_text(slice_in(header))),
        ),
{
    let raw = match header {
        Some(h) => h,
        None => "",
    };
    proof {
        reveal_strlit("");
        assert(""@ =~= Seq::<char>::empty());
    }
    admit_instance(watchdog, extract_server_api_key(path), parse_basic(raw))
}

/// Lets a request for the route that admins and instances share in, or not.
pub fn require_admin_or_instance_basic(
    token: Option<&str>,
    watchdog: &Watchdog,
    path: &str,
    header: Option<&str>,
) -> (r: Result<(), Refusal>)
    ensures
        refused(r) == shared_verdict(
            slice_in(token),
            watchdog.supervisors@,
            path@,
            slice_in(header),
        ),
{
    let raw = match header {
        Some(h) => h,
        None => "",
    };
    proof {
        reveal_strlit("");
        assert(""@ =~= Seq::<char>::empty());
    }
    if let Some(presented) = strip_prefix(raw, "Bearer ") {
        return match token {
            Some(expected) => if same_secret(presented, expected) {
                Ok(())
            } else {
                Err(Refusal::BadAdminToken)
            },
            None => Err(Refusal::BadAdminToken),
        };
    }
    if starts_with(raw, "Basic ") {
        return admit_instance(watchdog, extract_instance_key(path), parse_basic(raw));
    }
    Err(Refusal::MissingAuth)
}

/// Only the admin token, sent as a bearer token, opens the admin routes; without
/// a configured token nothing does.
pub proof fn law_only_the_admin_token(token: Option<Seq<char>>, header: Option<Seq<char>>)
    ensures
        admin_verdict(token, header) is None <==> token is Some && header == Some(
            "Bearer "@ + token.unwrap(),
        ),
{
    if header is Some && token is Some {
        let h = header.unwrap();
        let p = "Bearer "@;
        if after_prefix(h, p) == Some(token.unwrap()) {
            assert(h =~= p + token.unwrap());
        }
        if h == p + token.unwrap() {
            assert(h.take(p.len() as int) =~= p);
            assert(h.skip(p.len() as int) =~= token.unwrap());
        }
    }
}

/// An instance is let in exactly with its own key as user and its own token as
/// password.
pub proof fn law_only_its_own_token(
    supervisors: Map<Seq<char>, Supervisor>,
    key: Option<Seq<char>>,
    credentials: Option<(Seq<char>, Seq<char>)>,
)
    ensures
        instance_verdict(supervisors, key, credentials) is None <==> {
            &&& key is Some
            &&& supervisors.contains_key(key.unwrap())
            &&& credentials == Some((key.unwrap(), current_api(supervisors[key.unwrap()]).token@))
        },
{
}

/// A reload lets a running server in as before: with the token that its process
/// was started with, and with no other.
pub proof fn law_reload_keeps_a_running_server_admitted(
    before: Map<Seq<char>, Supervisor>,
    servers: Map<Seq<char>, ServerConfig>,
    after: Map<Seq<char>, Supervisor>,
    key: Seq<char>,
    credentials: Option<(Seq<char>, Seq<char>)>,
)
    requires
        reloaded(before, servers, after),
        before.contains_key(key),
        alive(before[key].phase),
    ensures
        instance_verdict(after, Some(key), credentials) == instance_verdict(
            before,
            Some(key),
            credentials,
        ),
{
    law_reload_disturbs_nothing(before, servers, after, key);
}

/// Credentials carry any user without a colon and any password: whatever bytes
/// are sent for `user:password` are read back as that user and password.
pub proof fn law_credentials_are_read_back(user: Seq<char>, pass: Seq<char>)
    requires
        !user.contains(':'),
    ensures
        credentials_in(encode_utf8(user + seq![':'] + pass)) == Some((user, pass)),
{
    let t = user + seq![':'] + pass;
    vstd::utf8::encode_utf8_valid_utf8(t);
    encode_utf8_decode_utf8(t);
    assert(t[user.len() as int] == ':');
    assert forall|j: int| 0 <= j < user.len() implies t[j] != ':' by {
        assert(user.contains(user[j]));
    }
    lemma_first_index_is(t, ':', user.len() as int);
    assert(t.contains(':'));
    assert(t.take(user.len() as int) =~= user);
    assert(t.skip(user.len() as int + 1) =~= pass);
}

/// On the route that they share, an admin is let in as on the admin routes, and
/// an instance as on its own.
pub proof fn law_shared_route(
    token: Seq<char>,
    supervisors: Map<Seq<char>, Supervisor>,
    path: Seq<char>,
    encoded: Seq<char>,
)
    ensures
        shared_verdict(Some(token), supervisors, path, Some("Basic "@ + encoded))
            == instance_verdict(
            supervisors,
            key_after(path, "/instances/"@),
            basic_credentials("Basic "@ + encoded),
        ),
        shared_verdict(Some(token), supervisors, path, Some("Bearer "@ + token)) is None,
        shared_verdict(None, supervisors, path, Some("Bearer "@ + token)) == Some(
            Refusal::BadAdminToken,
        ),
        shared_verdict(Some(token), supervisors, path, None) == Some(Refusal::MissingAuth),
{
    let h = "Bearer "@ + token;
    let p = "Bearer "@;
    assert(h.take(p.len() as int) =~= p);
    assert(h.skip(p.len() as int) =~= token);
    reveal_strlit("Bearer ");
    reveal_strlit("Basic ");
    let b = "Basic "@ + encoded;
    assert(b.take(6) =~= "Basic "@);
    assert(b[1] == 'a');
    assert(p[1] == 'e');
    assert(!p.is_prefix_of(b)) by {
        if p.is_prefix_of(b) {
            assert(b[1] == p[1]);
        }
    }
    assert(Seq::<char>::empty().len() == 0);
}

/// The status code and the text of every refusal.
pub proof fn law_refusals(why: String)
    ensures
        status_code(Refusal::NoAdminToken) == 401,
        status_code(Refusal::BadAdminToken) == 401,
        status_code(Refusal::MissingAuth) == 401,
        status_code(Refusal::BadCredentials) == 401,
        status_code(Refusal::NoInstanceKey) == 400,
        status_code(Refusal::BadConfig(why)) == 400,
        status_code(Refusal::KeyMismatch) == 403,
        status_code(Refusal::UnknownInstance) == 404,
        status_code(Refusal::TaskGone) == 503,
        status_code(Refusal::Failed(why)) == 500,
        refusal_text(Refusal::NoAdminToken) == "admin token not configured"@,
        refusal_text(Refusal::BadAdminToken) == "bad admin token"@,
        refusal_text(Refusal::MissingAuth) == "missing auth"@,
        refusal_text(Refusal::BadCredentials) == "bad basic credentials"@,
        refusal_text(Refusal::NoInstanceKey) == "no instance key"@,
        refusal_text(Refusal::KeyMismatch) == "key mismatch"@,
        refusal_text(Refusal::UnknownInstance) == "unknown instance"@,
        refusal_text(Refusal::TaskGone) == "supervisor task is not running"@,
        refusal_text(Refusal::Failed(why)) == why@,
        refusal_text(Refusal::BadConfig(why)) == why@,
{
}

/// Whoever is not let in on an admin route is told so: that no token is configured, or
/// that the one that was sent is not it.
pub proof fn law_admin_is_refused(token: Option<Seq<char>>, header: Option<Seq<char>>)
    ensures
        token is None ==> admin_verdict(token, header) == Some(Refusal::NoAdminToken),
        token is Some && header != Some("Bearer "@ + token.unwrap()) ==> admin_verdict(
            token,
            header,
        ) == Some(Refusal::BadAdminToken),
{
    law_only_the_admin_token(token, header);
}

/// The instance that a path names stands between the prefix and the next slash, or the
/// end; a path that does not begin with the prefix names none.
pub proof fn law_instance_in_a_path(
    prefix: Seq<char>,
    key: Seq<char>,
    rest: Seq<char>,
    path: Seq<char>,
)
    requires
        !key.contains('/'),
    ensures
        key_after(prefix + key, prefix) == Some(key),
        key_after(prefix + key + seq!['/'] + rest, prefix) == Some(key),
        key_after(path, prefix) is None <==> !(path.len() >= prefix.len() && path.take(
            prefix.len() as int,
        ) == prefix),
{
    law_prefix_taken_off(prefix + key, prefix, key);
    let tail = key + seq!['/'] + rest;
    assert(prefix + key + seq!['/'] + rest =~= prefix + tail);
    law_prefix_taken_off(prefix + tail, prefix, tail);
    law_prefix_taken_off(path, prefix, rest);
    assert(tail[key.len() as int] == '/');
    assert(tail.contains('/'));
    assert forall|j: int| 0 <= j < key.len() implies tail[j] != '/' by {
        assert(key.contains(key[j]));
    }
    lemma_first_index_is(tail, '/', key.len() as int);
    assert(tail.take(key.len() as int) =~= key);
}

/// The token of an instance is the one its process was started with, from the start of
/// the process to its end, and the configured one at all other times.
pub proof fn law_token_of_the_process(s: Supervisor)
    ensures
        current_api(s) == match s.phase {
            Phase::Spawning { .. }
            | Phase::Watching(_)
            | Phase::Reading(Query::CheckRunning(_))
            | Phase::CheckingRunning { .. }
            | Phase::Notifying { .. }
            | Phase::Asking { .. }
            | Phase::Leaving(_)
            | Phase::Killing(_) => s.issued,
            _ => s.server.api,
        },
{
}

/// Why an instance is refused: its path names none, there are no credentials, they are
/// those of another, there is no such instance, or the password is not its token.
pub proof fn law_instance_is_refused(
    supervisors: Map<Seq<char>, Supervisor>,
    key: Seq<char>,
    user: Seq<char>,
    pass: Seq<char>,
    credentials: Option<(Seq<char>, Seq<char>)>,
)
    ensures
        instance_verdict(supervisors, None, credentials) == Some(Refusal::NoInstanceKey),
        instance_verdict(supervisors, Some(key), None) == Some(Refusal::BadCredentials),
        user != key ==> instance_verdict(supervisors, Some(key), Some((user, pass))) == Some(
            Refusal::KeyMismatch,
        ),
        !supervisors.contains_key(key) ==> instance_verdict(
            supervisors,
            Some(key),
            Some((key, pass)),
        ) == Some(Refusal::UnknownInstance),
        supervisors.contains_key(key) && pass != current_api(supervisors[key]).token@
            ==> instance_verdict(supervisors, Some(key), Some((key, pass))) == Some(
            Refusal::BadCredentials,
        ),
{
}

/// Basic credentials are what follows the word `Basic` and a blank, decoded and parted
/// at the first colon; anything else is none.
pub proof fn law_basic_credentials(
    encoded: Seq<char>,
    user: Seq<char>,
    pass: Seq<char>,
    header: Seq<char>,
)
    requires
        !user.contains(':'),
        base64_bytes(encoded) == Some(encode_utf8(user + seq![':'] + pass)),
    ensures
        basic_credentials("Basic "@ + encoded) == Some((user, pass)),
        !(header.len() >= 6 && header.take(6) == "Basic "@) ==> basic_credentials(header) is None,
{
    law_prefix_taken_off("Basic "@ + encoded, "Basic "@, encoded);
    law_prefix_taken_off(header, "Basic "@, encoded);
    law_credentials_are_read_back(user, pass);
    reveal_strlit("Basic ");
    assert("Basic "@.len() == 6);
}

/// On the route that admins and instances share: the admin token lets in whatever the
/// path, another bearer token is refused as one, basic credentials count as on the
/// route of the instance, and anything else is no authorization.
pub proof fn law_shared_route_refuses(
    token: Option<Seq<char>>,
    supervisors: Map<Seq<char>, Supervisor>,
    path: Seq<char>,
    presented: Seq<char>,
    header: Seq<char>,
)
    ensures
        shared_verdict(token, supervisors, path, Some("Bearer "@ + presented)) == if token == Some(
            presented,
        ) {
            None
        } else {
            Some(Refusal::BadAdminToken)
        },
        shared_verdict(token, supervisors, path, None) == Some(Refusal::MissingAuth),
        !(header.len() >= 7 && header.take(7) == "Bearer "@) && !(header.len() >= 6 && header.take(6)
            == "Basic "@) ==> shared_verdict(token, supervisors, path, Some(header)) == Some(
            Refusal::MissingAuth,
        ),
        header.len() >= 6 && header.take(6) == "Basic "@ ==> shared_verdict(
            token,
            supervisors,
            path,
            Some(header),
        ) == instance_verdict(
            supervisors,
            key_after(path, "/instances/"@),
            basic_credentials(header),
        ),
{
    let h = "Bearer "@ + presented;
    law_prefix_taken_off(h, "Bearer "@, presented);
    reveal_strlit("Bearer ");
    reveal_strlit("Basic ");
    assert("Basic "@.len() == 6 && "Bearer "@.len() == 7);
    law_prefix_taken_off(header, "Bearer "@, presented);
    law_prefix_taken_off(header, "Basic "@, presented);
    law_prefix_taken_off(Seq::empty(), "Bearer "@, presented);
    law_prefix_taken_off(Seq::empty(), "Basic "@, presented);
    if header.len() >= 6 && header.take(6) == "Basic "@ {
        assert("Basic "@[1] == 'a' && "Bearer "@[1] == 'e');
        assert(header.take(6)[1] == header[1]);
        if header.len() >= 7 && header.take(7) == "Bearer "@ {
            assert(header.take(7)[1] == header[1]);
        }
    }
}

/// What is not let in is refused for the reason that is given, and nothing else is
/// refused; credentials hold a user and a password; a missing header is an empty one.
pub proof fn law_verdicts_as_given(
    r: Result<(), Refusal>,
    p: Option<(String, String)>,
    header: Option<Seq<char>>,
)
    ensures
        r is Ok <==> refused(r) is None,
        r matches Err(e) ==> refused(r) == Some(e),
        p is None <==> pair_in(p) is None,
        p matches Some((user, pass)) ==> pair_in(p) == Some((user@, pass@)),
        header matches Some(h) ==> header_text(header) == h,
        header is None ==> header_text(header).len() == 0,
{
}

} // verus!
