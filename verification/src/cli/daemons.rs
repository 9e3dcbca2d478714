//! The daemons that the command line knows, and which of them is meant.
use vstd::prelude::*;
use vstd::string::*;

use crate::config::{base_url, local_base_url, AdminConfig};
use crate::paths::{path_in, path_joined, path_of, FilePath, Step};
use crate::keymap::{law_one_listing, lemma_one_more, lists, KeyMap};
use crate::text::{
    debug_text, join, joined, law_before_is_strict, law_parted_at_the_first, quoted, slice_in, split_once, split_once_spec,
    text_in, texts, trim_end, trim_end_spec,
};

use super::Cli;

verus! {

/// How a daemon is reached.
pub struct HttpClient {
    pub base: String,
    pub token: String,
}

impl HttpClient {
    /// A daemon at `base`, which admits whoever holds `token`.
    pub fn new(base: String, token: String) -> (r: Self)
        ensures
            r.base == base,
            r.token == token,
    {
        HttpClient { base, token }
    }

    /// The address of a path, however many slashes end the base.
    pub fn url(&self, path: &str) -> (r: String)
        ensures
            r@ == trim_end_spec(self.base@, '/') + path@,
    {
        let mut r = trim_end(self.base.as_str(), '/').to_string();
        r.append(path);
        r
    }

    /// The value of the header `Authorization`.
    pub fn authorization(&self) -> (r: String)
        ensures
            r@ == "Bearer "@ + self.token@,
    {
        let mut r = "Bearer ".to_string();
        r.append(self.token.as_str());
        r
    }

    /// A copy.
    pub fn duplicate(&self) -> (r: Self)
        ensures
            r == *self,
    {
        HttpClient { base: self.base.clone(), token: self.token.clone() }
    }
}

/// The configuration of the command line.
pub struct UserCliConfig {
    /// A single daemon, known as `default`.
    pub api: Option<String>,
    pub token: Option<String>,
    /// The daemon that is meant where none is named.
    pub default: Option<String>,
    pub daemons: KeyMap<DaemonEntry>,
}

/// A daemon in the configuration of the command line.
pub struct DaemonEntry {
    pub api: String,
    pub token: String,
}

impl UserCliConfig {
    /// What is configured where there is no file.
    pub fn empty() -> (r: Self)
        ensures
            r.api is None,
            r.token is None,
            r.default is None,
            r.daemons@ == Map::<Seq<char>, DaemonEntry>::empty(),
    {
        UserCliConfig { api: None, token: None, default: None, daemons: KeyMap::new() }
    }
}

/// Why a command was not carried out.
#[derive(Debug)]
pub enum CliError {
    NoDaemons,
    NoSuchDaemon { name: String, known: String },
    NoSuchDefault { name: String },
    /// Several daemons are known, and none was picked.
    NoneSelected { known: String },
    /// Several daemons are known, and the target names none.
    Ambiguous { target: String, known: String },
    /// What others report, as they put it.
    Reported(String),
}

/// What is said of a daemon that is not known, by its name in quotes.
pub open spec fn unknown_daemon(quoted: Seq<char>, known: Seq<char>) -> Seq<char> {
    "no daemon named "@ + quoted + "; known: "@ + known
}

/// What is said of a daemon that is not known.
pub fn unknown_daemon_text(quoted: &str, known: &str) -> (r: String)
    ensures
        r@ == unknown_daemon(quoted@, known@),
{
    let mut r = "no daemon named ".to_string();
    r.append(quoted);
    r.append("; known: ");
    r.append(known);
    r
}

/// What is said of a default that is not known, by its name in quotes.
pub open spec fn unknown_default(quoted: Seq<char>) -> Seq<char> {
    "default = "@ + quoted + " in CLI config, but no such daemon defined"@
}

/// What is said of a default that is not known.
pub fn unknown_default_text(quoted: &str) -> (r: String)
    ensures
        r@ == unknown_default(quoted@),
{
    let mut r = "default = ".to_string();
    r.append(quoted);
    r.append(" in CLI config, but no such daemon defined");
    r
}

/// An error in words.
pub open spec fn cli_error_text(e: CliError) -> Seq<char> {
    match e {
        CliError::NoDaemons =>
            "no daemons configured; pass --api/--token, or set [daemons.<name>] (or api/token) in ~/.config/cerberus/cli.toml"@,
        CliError::NoSuchDaemon { name, known } => unknown_daemon(debug_text(name@), known@),
        CliError::NoSuchDefault { name } => unknown_default(debug_text(name@)),
        CliError::NoneSelected { known } => "multiple daemons configured ("@ + known@
            + "); pick one with --daemon <name> or set default = ..."@,
        CliError::Ambiguous { target, known } => "multiple daemons configured ("@ + known@
            + "); write target as `<daemon>/"@ + target@ + "` or pass --daemon <name>"@,
        CliError::Reported(why) => why@,
    }
}

impl CliError {
    /// The error in words.
    pub fn message(&self) -> (r: String)
        ensures
            r@ == cli_error_text(*self),
    {
        match self {
            CliError::NoDaemons => {
                "no daemons configured; pass --api/--token, or set [daemons.<name>] (or api/token) in ~/.config/cerberus/cli.toml".to_string()
            },
            CliError::NoSuchDaemon { name, known } => unknown_daemon_text(
                quoted(name.as_str()).as_str(),
                known.as_str(),
            ),
            CliError::NoSuchDefault { name } => unknown_default_text(
                quoted(name.as_str()).as_str(),
            ),
            CliError::NoneSelected { known } => {
                let mut r = "multiple daemons configured (".to_string();
                r.append(known.as_str());
                r.append("); pick one with --daemon <name> or set default = ...");
                r
            },
            CliError::Ambiguous { target, known } => {
                let mut r = "multiple daemons configured (".to_string();
                r.append(known.as_str());
                r.append("); write target as `<daemon>/");
                r.append(target.as_str());
                r.append("` or pass --daemon <name>");
                r
            },
            CliError::Reported(why) => why.clone(),
        }
    }
}

/// Addresses and tokens of daemons by name.
pub open spec fn endpoints(daemons: Map<Seq<char>, HttpClient>) -> Map<
    Seq<char>,
    (Seq<char>, Seq<char>),
> {
    daemons.map_values(|c: HttpClient| (c.base@, c.token@))
}

/// The daemons in a configuration: the named ones, and `default` for the single
/// one, unless a named one has that name.
pub open spec fn configured(user: UserCliConfig) -> Map<Seq<char>, (Seq<char>, Seq<char>)> {
    let named = user.daemons@.map_values(|d: DaemonEntry| (d.api@, d.token@));
    match (user.api, user.token) {
        (Some(api), Some(token)) => map!["default"@ => (api@, token@)].union_prefer_right(named),
        _ => named,
    }
}

/// The daemons that can be reached: the configured ones, and without any the one
/// of this machine, if its token is known.
pub open spec fn available(user: UserCliConfig, local: Option<AdminConfig>) -> Map<
    Seq<char>,
    (Seq<char>, Seq<char>),
> {
    let all = configured(user);
    if all.dom() == Set::<Seq<char>>::empty() {
        match local {
            Some(admin) => match admin.token {
                Some(token) => map!["default"@ => (base_url(admin.bind@), token@)],
                None => all,
            },
            None => all,
        }
    } else {
        all
    }
}

/// The names of a set in dictionary order, with commas between them.
pub open spec fn names_text(names: Set<Seq<char>>) -> Seq<char> {
    joined(choose|keys: Seq<Seq<char>>| lists(keys, names), ", "@)
}

/// Whether `name` is the only one.
pub open spec fn is_only(names: Set<Seq<char>>, name: Seq<char>) -> bool {
    names.contains(name) && forall|k: Seq<char>| #[trigger] names.contains(k) ==> k == name
}

/// Which daemon is meant where none is named, and whether it is the only one
/// that counts: the one picked on the command line, the configured default, the
/// only one there is, the one called `default`, or none.
pub open spec fn picks(
    known: Set<Seq<char>>,
    flag: Option<Seq<char>>,
    default: Option<Seq<char>>,
    selected: Option<Seq<char>>,
    restricted: bool,
) -> bool {
    match (flag, default) {
        (Some(d), _) => selected == Some(d) && restricted,
        (None, Some(d)) => selected == Some(d) && !restricted,
        (None, None) => if exists|k: Seq<char>| #[trigger] is_only(known, k) {
            restricted && selected is Some && is_only(known, selected.unwrap())
        } else if known.contains("default"@) {
            selected == Some("default"@) && !restricted
        } else {
            selected is None && !restricted
        },
    }
}

/// The daemons that a command can go to.
pub struct DaemonCtx {
    pub daemons: KeyMap<HttpClient>,
    /// The one that is meant where a target names none.
    pub selected: Option<String>,
    /// Whether only the selected one counts.
    pub restricted: bool,
}

impl DaemonCtx {
    /// The selected daemon is one of them, and there is one if only it counts.
    pub open spec fn wf(self) -> bool {
        &&& self.selected matches Some(n) ==> self.daemons@.contains_key(n@)
        &&& self.restricted ==> self.selected is Some
    }

    /// The names of all daemons.
    pub open spec fn known(self) -> Set<Seq<char>> {
        self.daemons@.dom()
    }
}

/// What comes of looking for the daemons in the configuration.
pub open spec fn resolved(
    user: UserCliConfig,
    local: Option<AdminConfig>,
    flag: Option<Seq<char>>,
    r: Result<DaemonCtx, CliError>,
) -> bool {
    let all = available(user, local);
    let known = all.dom();
    if known == Set::<Seq<char>>::empty() {
        r matches Err(e) && e is NoDaemons
    } else if flag is Some && !known.contains(flag.unwrap()) {
        r matches Err(CliError::NoSuchDaemon { name, known: k }) && name@ == flag.unwrap() && k@
            == names_text(known)
    } else if flag is None && user.default is Some && !known.contains(user.default.unwrap()@) {
        r matches Err(CliError::NoSuchDefault { name }) && name@ == user.default.unwrap()@
    } else {
        &&& r matches Ok(ctx)
        &&& endpoints(ctx.daemons@) == all
        &&& picks(known, flag, text_in(user.default), text_in(ctx.selected), ctx.restricted)
    }
}

fn names_joined(daemons: &KeyMap<HttpClient>) -> (r: String)
    ensures
        r@ == names_text(daemons@.dom()),
{
    let keys = daemons.keys();
    proof {
        let chosen = choose|k: Seq<Seq<char>>| lists(k, daemons@.dom());
        assert(lists(texts(keys@), daemons@.dom()));
        law_one_listing(texts(keys@), chosen, daemons@.dom());
    }
    join(&keys, ", ")
}

fn configured_daemons(user: &UserCliConfig) -> (r: KeyMap<HttpClient>)
    ensures
        endpoints(r@) == configured(*user),
{
    let mut daemons: KeyMap<HttpClient> = KeyMap::new();
    match (&user.api, &user.token) {
        (Some(api), Some(token)) => {
            daemons.insert("default".to_string(), HttpClient::new(api.clone(), token.clone()));
        },
        _ => {},
    }
    let ghost single = daemons@;
    let named = &user.daemons;
    let n = named.len();
    let ghost order = named.order();
    let mut i: usize = 0;
    assert(order.take(0) =~= Seq::<Seq<char>>::empty());
    while i < n
        invariant
            named == &user.daemons,
            order == named.order(),
            n == order.len(),
            lists(order, named@.dom()),
            i <= n,
            forall|k: Seq<char>| #[trigger]
                daemons@.contains_key(k) <==> single.contains_key(k) || order.take(
                    i as int,
                ).contains(k),
            forall|k: Seq<char>| #[trigger]
                daemons@.contains_key(k) ==> if order.take(i as int).contains(k) {
                    daemons@[k].base@ == named@[k].api@ && daemons@[k].token@ == named@[k].token@
                } else {
                    daemons@[k] == single[k]
                },
        decreases n - i,
    {
        let ghost was = daemons@;
        let d = named.value_at(i);
        daemons.insert(
            named.key_at(i).clone(),
            HttpClient::new(d.api.clone(), d.token.clone()),
        );
        proof {
            assert forall|k: Seq<char>| #[trigger] daemons@.contains_key(k) <==> single.contains_key(
                k,
            ) || order.take(i + 1).contains(k) by {
                lemma_one_more(order, i as int, k);
                assert(was.contains_key(k) <==> single.contains_key(k) || order.take(
                    i as int,
                ).contains(k));
            }
            assert forall|k: Seq<char>| #[trigger] daemons@.contains_key(k) implies if order.take(
                i + 1,
            ).contains(k) {
                daemons@[k].base@ == named@[k].api@ && daemons@[k].token@ == named@[k].token@
            } else {
                daemons@[k] == single[k]
            } by {
                lemma_one_more(order, i as int, k);
                if k != order[i as int] {
                    assert(was.contains_key(k));
                }
            }
        }
        i = i + 1;
    }
    proof {
        assert(order.take(n as int) =~= order);
        let all = configured(*user);
        assert forall|k: Seq<char>| endpoints(daemons@).contains_key(k) <==> all.contains_key(k) by {
            assert(daemons@.contains_key(k) <==> single.contains_key(k) || order.contains(k));
            assert(order.contains(k) <==> named@.dom().contains(k));
        }
        assert forall|k: Seq<char>| endpoints(daemons@).contains_key(k) implies endpoints(
            daemons@,
        )[k] == all[k] by {
            assert(daemons@.contains_key(k));
            assert(order.contains(k) <==> named@.dom().contains(k));
        }
        assert(endpoints(daemons@) =~= all);
    }
    daemons
}

/// Whether a context stands for the one daemon whose address and token were
/// given.
pub open spec fn stands_for(ctx: DaemonCtx, api: Seq<char>, token: Seq<char>) -> bool {
    &&& endpoints(ctx.daemons@) == map!["default"@ => (api, token)]
    &&& text_in(ctx.selected) == Some("default"@)
    &&& ctx.restricted
}

impl Cli {
    /// The daemon whose address and token were both given.
    pub fn explicit_daemon(&self) -> (r: Option<DaemonCtx>)
        ensures
            match (self.api, self.token) {
                (Some(api), Some(token)) => r matches Some(ctx) && ctx.wf() && stands_for(
                    ctx,
                    api@,
                    token@,
                ),
                _ => r is None,
            },
    {
        match (&self.api, &self.token) {
            (Some(api), Some(token)) => {
                let mut daemons: KeyMap<HttpClient> = KeyMap::new();
                daemons.insert(
                    "default".to_string(),
                    HttpClient::new(api.clone(), token.clone()),
                );
                assert(endpoints(daemons@) =~= map!["default"@ => (api@, token@)]);
                Some(DaemonCtx { daemons, selected: Some("default".to_string()), restricted: true })
            },
            _ => None,
        }
    }

    /// The daemons that a command can go to: the one that was given, else those
    /// of the configuration of the command line, else that of this machine.
    pub fn resolve_daemons(&self, user: &UserCliConfig, local: Option<&AdminConfig>) -> (r: Result<
        DaemonCtx,
        CliError,
    >)
        ensures
            r matches Ok(ctx) ==> ctx.wf(),
            match (self.api, self.token) {
                (Some(api), Some(token)) => r matches Ok(ctx) && stands_for(ctx, api@, token@),
                _ => resolved(
                    *user,
                    match local {
                        Some(l) => Some(*l),
                        None => None,
                    },
                    text_in(self.daemon),
                    r,
                ),
            },
    {
        if let Some(ctx) = self.explicit_daemon() {
            return Ok(ctx);
        }
        let mut daemons = configured_daemons(user);
        let ghost all = configured(*user);
        assert(all.dom() =~= daemons@.dom());
        if daemons.is_empty() {
            match local {
                Some(l) => match &l.token {
                    Some(token) => {
                        daemons.insert(
                            "default".to_string(),
                            HttpClient::new(local_base_url(l.bind.as_str()), token.clone()),
                        );
                        assert(endpoints(daemons@) =~= map![
                            "default"@ => (base_url(l.bind@), token@),
                        ]);
                    },
                    None => {},
                },
                None => {},
            }
        } else {
            proof {
                if daemons@.dom() == Set::<Seq<char>>::empty() {
                    assert(daemons@ =~= Map::empty());
                }
            }
        }
        let ghost known = daemons@.dom();
        proof {
            let l = match local {
                Some(l) => Some(*l),
                None => None,
            };
            assert(endpoints(daemons@) == available(*user, l));
            assert(endpoints(daemons@).dom() =~= known);
        }
        if daemons.is_empty() {
            return Err(CliError::NoDaemons);
        }
        proof {
            if known == Set::<Seq<char>>::empty() {
                assert(daemons@ =~= Map::empty());
            }
        }
        let (selected, restricted) = if let Some(d) = &self.daemon {
            if !daemons.contains_key(d.as_str()) {
                let known = names_joined(&daemons);
                return Err(CliError::NoSuchDaemon { name: d.clone(), known });
            }
            (Some(d.clone()), true)
        } else if let Some(d) = &user.default {
            if !daemons.contains_key(d.as_str()) {
                return Err(CliError::NoSuchDefault { name: d.clone() });
            }
            (Some(d.clone()), false)
        } else {
            let n = daemons.len();
            let ghost order = daemons.order();
            if n == 1 {
                let only = daemons.key_at(0).clone();
                proof {
                    assert forall|k: Seq<char>| #[trigger] known.contains(k) implies k == only@ by {
                        assert(order.contains(k));
                    }
                    assert(is_only(known, only@));
                }
                (Some(only), true)
            } else {
                proof {
                    assert forall|k: Seq<char>| !(#[trigger] is_only(known, k)) by {
                        if is_only(known, k) {
                            assert(order.contains(order[0]));
                            assert(order.contains(order[1]));
                            assert(known.contains(order[0]));
                            assert(known.contains(order[1]));
                            law_before_is_strict(order[0], order[1]);
                        }
                    }
                }
                if daemons.contains_key("default") {
                    (Some("default".to_string()), false)
                } else {
                    (None, false)
                }
            }
        };
        Ok(DaemonCtx { daemons, selected, restricted })
    }
}

impl DaemonCtx {
    /// Whether there is more than one daemon.
    pub fn has_multiple(&self) -> (r: bool)
        ensures
            !r <==> self.known() == Set::<Seq<char>>::empty() || exists|k: Seq<char>| #[trigger]
                is_only(self.known(), k),
    {
        let n = self.daemons.len();
        proof {
            let order = self.daemons.order();
            let known = self.known();
            if n == 0 {
                assert forall|k: Seq<char>| !known.contains(k) by {
                    assert(order.contains(k) <==> known.contains(k));
                }
                assert(known =~= Set::<Seq<char>>::empty());
            } else if n == 1 {
                assert(order.contains(order[0]));
                assert(known.contains(order[0]));
                assert forall|k: Seq<char>| #[trigger] known.contains(k) implies k == order[0] by {
                    assert(order.contains(k));
                }
                assert(is_only(known, order[0]));
            } else {
                assert(order.contains(order[0]));
                assert(order.contains(order[1]));
                assert(known.contains(order[0]));
                assert(known.contains(order[1]));
                law_before_is_strict(order[0], order[1]);
            }
        }
        n > 1
    }

    /// The names of all daemons, with commas between them.
    pub fn names_joined(&self) -> (r: String)
        ensures
            r@ == names_text(self.known()),
    {
        names_joined(&self.daemons)
    }

    /// The daemon that is meant where none is named.
    pub fn pick_single(&self) -> (r: Result<(&str, &HttpClient), CliError>)
        requires
            self.wf(),
        ensures
            match r {
                Ok((name, client)) => text_in(self.selected) == Some(name@) && *client
                    == self.daemons@[name@],
                Err(e) => {
                    &&& self.selected is None
                    &&& e matches CliError::NoneSelected { known }
                    &&& known@ == names_text(self.known())
                },
            },
    {
        match &self.selected {
            Some(name) => match self.daemons.get(name.as_str()) {
                Some(client) => Ok((name.as_str(), client)),
                None => Err(CliError::NoneSelected { known: self.names_joined() }),
            },
            None => Err(CliError::NoneSelected { known: self.names_joined() }),
        }
    }

    /// The daemon and the instance that a target means: `daemon/key`, or `key`
    /// alone for the daemon that is meant where none is named.
    pub fn resolve(&self, target: &str) -> (r: Result<(&HttpClient, String), CliError>)
        requires
            self.wf(),
        ensures
            aims(*self, target@, r),
    {
        if let Some((d, k)) = split_once(target, '/') {
            return match self.daemons.get(d) {
                Some(client) => Ok((client, k.to_string())),
                None => Err(
                    CliError::NoSuchDaemon { name: d.to_string(), known: self.names_joined() },
                ),
            };
        }
        match &self.selected {
            Some(name) => match self.daemons.get(name.as_str()) {
                Some(client) => Ok((client, target.to_string())),
                None => Err(
                    CliError::Ambiguous { target: target.to_string(), known: self.names_joined() },
                ),
            },
            None => Err(
                CliError::Ambiguous { target: target.to_string(), known: self.names_joined() },
            ),
        }
    }

    /// The daemons that a list is asked of: the selected one if only it counts,
    /// else all, in the order of their names.
    pub fn list_targets(&self) -> (r: Vec<(String, HttpClient)>)
        requires
            self.wf(),
        ensures
            self.restricted ==> r@.len() == 1 && r@[0].0@ == self.selected.unwrap()@,
            !self.restricted ==> lists(
                r@.map_values(|e: (String, HttpClient)| e.0@),
                self.known(),
            ),
            forall|i: int|
                0 <= i < r@.len() ==> self.daemons@.contains_key((#[trigger] r@[i]).0@) && r@[i].1
                    == self.daemons@[r@[i].0@],
    {
        let mut r: Vec<(String, HttpClient)> = Vec::new();
        if self.restricted {
            if let Some(name) = &self.selected {
                if let Some(client) = self.daemons.get(name.as_str()) {
                    r.push((name.clone(), client.duplicate()));
                }
            }
            return r;
        }
        let n = self.daemons.len();
        let mut i: usize = 0;
        while i < n
            invariant
                n == self.daemons.order().len(),
                lists(self.daemons.order(), self.daemons@.dom()),
                i <= n,
                r@.len() == i,
                forall|j: int| 0 <= j < i ==> (#[trigger] r@[j]).0@ == self.daemons.order()[j],
                forall|j: int|
                    0 <= j < i ==> self.daemons@.contains_key((#[trigger] r@[j]).0@) && r@[j].1
                        == self.daemons@[r@[j].0@],
            decreases n - i,
        {
            r.push((self.daemons.key_at(i).clone(), self.daemons.value_at(i).duplicate()));
            i = i + 1;
        }
        assert(r@.map_values(|e: (String, HttpClient)| e.0@) =~= self.daemons.order());
        r
    }
}

/// What a target means.
pub open spec fn aims(
    ctx: DaemonCtx,
    target: Seq<char>,
    r: Result<(&HttpClient, String), CliError>,
) -> bool {
    match split_once_spec(target, '/') {
        Some((d, k)) => if ctx.daemons@.contains_key(d) {
            r matches Ok((client, key)) && *client == ctx.daemons@[d] && key@ == k
        } else {
            r matches Err(CliError::NoSuchDaemon { name, known }) && name@ == d && known@
                == names_text(ctx.known())
        },
        None => match ctx.selected {
            Some(n) => r matches Ok((client, key)) && *client == ctx.daemons@[n@] && key@ == target,
            None => r matches Err(CliError::Ambiguous { target: t, known }) && t@ == target
                && known@ == names_text(ctx.known()),
        },
    }
}

/// Where the configuration of the command line is looked for: under the
/// directory for configurations if there is one, else under the home.
pub open spec fn cli_config_path(xdg: Option<Seq<char>>, home: Option<Seq<char>>) -> Option<
    Seq<Step>,
> {
    if xdg is Some && xdg.unwrap().len() > 0 {
        Some(path_joined(path_of(xdg.unwrap()), "cerberus/cli.toml"@))
    } else {
        match home {
            Some(h) => Some(path_joined(path_of(h), ".config/cerberus/cli.toml"@)),
            None => None,
        }
    }
}

/// Where the configuration of the command line is looked for, by the values of
/// `XDG_CONFIG_HOME` and `HOME`.
pub fn default_cli_config_path(xdg: Option<&str>, home: Option<&str>) -> (r: Option<
    FilePath,
>)
    ensures
        path_in(r) == cli_config_path(slice_in(xdg), slice_in(home)),
{
    if let Some(x) = xdg {
        if !x.is_empty() {
            return Some(FilePath::new(x).join("cerberus/cli.toml"));
        }
    }
    match home {
        Some(h) => Some(FilePath::new(h).join(".config/cerberus/cli.toml")),
        None => None,
    }
}

/// The file that configures the command line: the one that was given, else the
/// usual one, if there can be one.
pub fn user_config_path(given: Option<&str>, xdg: Option<&str>, home: Option<&str>) -> (r: Option<
    FilePath,
>)
    ensures
        path_in(r) == match given {
            Some(p) => Some(path_of(p@)),
            None => cli_config_path(slice_in(xdg), slice_in(home)),
        },
{
    match given {
        Some(p) => Some(FilePath::new(p)),
        None => default_cli_config_path(xdg, home),
    }
}

/// A target with the name of a daemon always means that daemon, whichever is
/// selected.
pub proof fn law_named_daemon_is_meant(
    a: DaemonCtx,
    b: DaemonCtx,
    target: Seq<char>,
    ra: Result<(&HttpClient, String), CliError>,
    rb: Result<(&HttpClient, String), CliError>,
)
    requires
        a.daemons@ == b.daemons@,
        target.contains('/'),
        aims(a, target, ra),
        aims(b, target, rb),
    ensures
        ra is Ok <==> rb is Ok,
        ra matches Ok((ca, ka)) ==> rb matches Ok((cb, kb)) && *ca == *cb && ka@ == kb@,
{
}

/// A daemon that is picked on the command line is the one that is meant, and the
/// only one that counts.
pub proof fn law_picked_daemon_is_meant(
    user: UserCliConfig,
    local: Option<AdminConfig>,
    name: Seq<char>,
    r: Result<DaemonCtx, CliError>,
)
    requires
        resolved(user, local, Some(name), r),
    ensures
        r is Ok <==> available(user, local).contains_key(name),
        r matches Ok(ctx) ==> text_in(ctx.selected) == Some(name) && ctx.restricted,
{
    let all = available(user, local);
    if all.dom() == Set::<Seq<char>>::empty() {
        assert(!all.dom().contains(name));
    }
}

/// With a single daemon every target is understood, and nothing has to be
/// picked.
pub proof fn law_single_daemon_needs_no_name(
    user: UserCliConfig,
    local: Option<AdminConfig>,
    name: Seq<char>,
    r: Result<DaemonCtx, CliError>,
)
    requires
        resolved(user, local, None, r),
        user.default is None,
        is_only(available(user, local).dom(), name),
    ensures
        r matches Ok(ctx) && text_in(ctx.selected) == Some(name) && ctx.restricted,
{
    let known = available(user, local).dom();
    assert(known.contains(name));
    assert(known != Set::<Seq<char>>::empty());
    match r {
        Ok(ctx) => {
            assert(is_only(known, ctx.selected.unwrap()@));
        },
        Err(_) => {},
    }
}

/// A target with a slash means the daemon before the first one and the instance behind
/// it; one without means the instance at the selected daemon. A daemon that is not known
/// and a target without a daemon where none is selected are errors.
pub proof fn law_target(
    ctx: DaemonCtx,
    daemon: Seq<char>,
    key: Seq<char>,
    plain: Seq<char>,
    named: Result<(&HttpClient, String), CliError>,
    bare: Result<(&HttpClient, String), CliError>,
)
    requires
        !daemon.contains('/'),
        !plain.contains('/'),
        aims(ctx, daemon + seq!['/'] + key, named),
        aims(ctx, plain, bare),
    ensures
        ctx.daemons@.contains_key(daemon) ==> (named matches Ok((client, k)) && *client
            == ctx.daemons@[daemon] && k@ == key),
        !ctx.daemons@.contains_key(daemon) ==> (named matches Err(e)
            && e matches CliError::NoSuchDaemon { name, .. } && name@ == daemon),
        ctx.selected matches Some(n) ==> bare matches Ok((client, k)) && *client
            == ctx.daemons@[n@] && k@ == plain,
        ctx.selected is None ==> (bare matches Err(e) && e matches CliError::Ambiguous {
            target,
            ..
        } && target@ == plain),
{
    law_parted_at_the_first(daemon, '/', key);
    law_parted_at_the_first(plain, '/', key);
}

/// The daemons that are known: those that are configured by name, the single one as
/// `default` unless a named one has that name, and only without any the one of this
/// machine, if its token is known.
pub proof fn law_known_daemons(
    user: UserCliConfig,
    local: Option<AdminConfig>,
    name: Seq<char>,
)
    ensures
        user.daemons@.contains_key(name) ==> available(user, local).contains_key(name) && available(
            user,
            local,
        )[name] == (user.daemons@[name].api@, user.daemons@[name].token@),
        user.api is Some && user.token is Some && !user.daemons@.contains_key("default"@)
            ==> available(user, local).contains_key("default"@) && available(
            user,
            local,
        )["default"@] == (user.api.unwrap()@, user.token.unwrap()@),
        available(user, local).contains_key(name) ==> user.daemons@.contains_key(name) || name
            == "default"@,
        (user.api is None || user.token is None) && user.daemons@ == Map::<
            Seq<char>,
            DaemonEntry,
        >::empty() ==> (available(user, local).contains_key(name) <==> name == "default"@ && local
            is Some && local.unwrap().token is Some),
        (user.api is None || user.token is None) && user.daemons@ == Map::<
            Seq<char>,
            DaemonEntry,
        >::empty() && local is Some && local.unwrap().token is Some ==> available(
            user,
            local,
        )["default"@] == (base_url(local.unwrap().bind@), local.unwrap().token.unwrap()@),
        (user.api is None || user.token is None) && available(user, local).contains_key(name)
            && user.daemons@ != Map::<Seq<char>, DaemonEntry>::empty()
            ==> user.daemons@.contains_key(name),
{
    let all = configured(user);
    if user.daemons@.contains_key(name) {
        assert(all.dom().contains(name));
        assert(all.dom() != Set::<Seq<char>>::empty());
    }
    if user.api is Some && user.token is Some {
        assert(all.dom().contains("default"@));
        assert(all.dom() != Set::<Seq<char>>::empty());
    }
    if (user.api is None || user.token is None) && user.daemons@ == Map::<
        Seq<char>,
        DaemonEntry,
    >::empty() {
        assert(all.dom() =~= Set::<Seq<char>>::empty());
    }
    if (user.api is None || user.token is None) && user.daemons@ != Map::<
        Seq<char>,
        DaemonEntry,
    >::empty() {
        if all.dom() =~= Set::<Seq<char>>::empty() {
            assert forall|k: Seq<char>| !user.daemons@.dom().contains(k) by {
                assert(!all.dom().contains(k));
            }
            assert(user.daemons@ =~= Map::<Seq<char>, DaemonEntry>::empty());
        }
    }
}

/// Which daemon is selected: the one picked on the command line, alone; else the
/// configured default; else the only one, alone; else the one called `default`; else
/// none. A pick or a default that is not known is an error, and so is knowing none.
pub proof fn law_selected_daemon(
    user: UserCliConfig,
    local: Option<AdminConfig>,
    flag: Option<Seq<char>>,
    r: Result<DaemonCtx, CliError>,
    a: Seq<char>,
    b: Seq<char>,
)
    requires
        resolved(user, local, flag, r),
    ensures
        r matches Ok(ctx) ==> {
            let all = available(user, local);
            &&& forall|k: Seq<char>| #[trigger]
                ctx.daemons@.contains_key(k) <==> all.contains_key(k)
            &&& ctx.daemons@.contains_key(a) ==> (
            ctx.daemons@[a].base@,
            ctx.daemons@[a].token@,
            ) == all[a]
            &&& flag is Some ==> text_in(ctx.selected) == flag && ctx.restricted
            &&& flag is None && user.default is Some ==> text_in(ctx.selected) == text_in(
                user.default,
            ) && !ctx.restricted
            &&& flag is None && user.default is None && all.contains_key(a) && all.contains_key(b)
                && a != b ==> !ctx.restricted && text_in(ctx.selected) == if all.contains_key(
                "default"@,
            ) {
                Some("default"@)
            } else {
                None
            }
        },
        r matches Err(e) ==> match e {
            CliError::NoDaemons => !available(user, local).contains_key(a),
            CliError::NoSuchDaemon { name, .. } => flag == Some(name@) && !available(
                user,
                local,
            ).contains_key(name@),
            CliError::NoSuchDefault { name } => flag is None && user.default is Some
                && user.default.unwrap()@ == name@ && !available(user, local).contains_key(name@),
            _ => false,
        },
        available(user, local).contains_key(a) && (flag is Some ==> available(
            user,
            local,
        ).contains_key(flag.unwrap())) && (flag is None && user.default is Some ==> available(
            user,
            local,
        ).contains_key(user.default.unwrap()@)) ==> r is Ok,
{
    let all = available(user, local);
    let known = all.dom();
    if all.contains_key(a) {
        assert(known.contains(a));
        assert(known != Set::<Seq<char>>::empty());
    }
    if flag is Some && known == Set::<Seq<char>>::empty() {
        assert(!known.contains(flag.unwrap()));
    }
    if let Ok(ctx) = r {
        assert forall|k: Seq<char>| #[trigger] ctx.daemons@.contains_key(k) <==> all.contains_key(
            k,
        ) by {
            assert(endpoints(ctx.daemons@).dom().contains(k) <==> all.dom().contains(k));
        }
        if ctx.daemons@.contains_key(a) {
            assert(endpoints(ctx.daemons@)[a] == (
                ctx.daemons@[a].base@,
                ctx.daemons@[a].token@,
            ));
        }
        if all.contains_key(a) && all.contains_key(b) && a != b {
            assert forall|k: Seq<char>| !(#[trigger] is_only(known, k)) by {
                if is_only(known, k) {
                    assert(known.contains(a) && known.contains(b));
                }
            }
        }
    }
}

/// The configuration of the command line is looked for under the directory for
/// configurations where one is set, and else under the home.
pub proof fn law_place_of_the_configuration(xdg: Option<Seq<char>>, home: Option<Seq<char>>)
    ensures
        xdg is Some && xdg.unwrap().len() > 0 ==> cli_config_path(xdg, home) == Some(
            seq![Step::Into(xdg.unwrap()), Step::Into("cerberus/cli.toml"@)],
        ),
        !(xdg is Some && xdg.unwrap().len() > 0) && home is Some ==> cli_config_path(xdg, home)
            == Some(seq![Step::Into(home.unwrap()), Step::Into(".config/cerberus/cli.toml"@)]),
        !(xdg is Some && xdg.unwrap().len() > 0) && home is None ==> cli_config_path(xdg, home)
            is None,
{
}

/// Each error in words.
pub proof fn law_cli_errors_in_words(name: String, known: String, target: String, why: String)
    ensures
        cli_error_text(CliError::NoDaemons)
            == "no daemons configured; pass --api/--token, or set [daemons.<name>] (or api/token) in ~/.config/cerberus/cli.toml"@,
        cli_error_text(CliError::NoSuchDaemon { name, known }) == "no daemon named "@ + debug_text(
            name@,
        ) + "; known: "@ + known@,
        cli_error_text(CliError::NoSuchDefault { name }) == "default = "@ + debug_text(name@)
            + " in CLI config, but no such daemon defined"@,
        cli_error_text(CliError::NoneSelected { known }) == "multiple daemons configured ("@
            + known@ + "); pick one with --daemon <name> or set default = ..."@,
        cli_error_text(CliError::Ambiguous { target, known }) == "multiple daemons configured ("@
            + known@ + "); write target as `<daemon>/"@ + target@ + "` or pass --daemon <name>"@,
        cli_error_text(CliError::Reported(why)) == why@,
{
}

/// A daemon whose address and token were both given is the only one, and meant.
pub proof fn law_given_daemon(ctx: DaemonCtx, api: Seq<char>, token: Seq<char>, name: Seq<char>)
    requires
        stands_for(ctx, api, token),
    ensures
        ctx.restricted,
        text_in(ctx.selected) == Some("default"@),
        ctx.daemons@.contains_key(name) <==> name == "default"@,
        ctx.daemons@["default"@].base@ == api,
        ctx.daemons@["default"@].token@ == token,
{
    let e = endpoints(ctx.daemons@);
    assert(e.dom().contains(name) <==> name == "default"@);
    assert(e.dom().contains("default"@));
    assert(e["default"@] == (ctx.daemons@["default"@].base@, ctx.daemons@["default"@].token@));
}

} // verus!
