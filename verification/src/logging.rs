//! What is logged, and where to.
use vstd::prelude::*;
use vstd::string::*;

use crate::config::LoggingConfig;
use crate::keymap::{lemma_one_more, lists, KeyMap};
use crate::text::{ascii_lower, ascii_lowered, debug_text, quoted, texts};

verus! {

/// How much is logged.
#[derive(Debug, Clone, Copy, PartialEq, Eq, Structural)]
pub enum Level {
    Off,
    Error,
    Warn,
    Info,
    Debug,
    Trace,
}

/// Whether all characters are decimal digits.
pub open spec fn all_digits(s: Seq<char>) -> bool {
    forall|i: int| 0 <= i < s.len() ==> '0' <= #[trigger] s[i] <= '9'
}

/// The number that decimal digits stand for.
pub open spec fn number_of(s: Seq<char>) -> nat
    decreases s.len(),
{
    if s.len() == 0 {
        0
    } else {
        number_of(s.drop_last()) * 10 + (s.last() as u32 - 48) as nat
    }
}

/// The number that a text is: decimal digits, with a plus before them or not.
pub open spec fn number_in(s: Seq<char>) -> Option<nat> {
    let t = if s.len() > 0 && s[0] == '+' {
        s.skip(1)
    } else {
        s
    };
    if t.len() > 0 && all_digits(t) {
        Some(number_of(t))
    } else {
        None
    }
}

/// The level that a text names: by a number from zero to five, or by its name in
/// either case; the empty text means errors.
pub open spec fn level_named(s: Seq<char>) -> Option<Level> {
    let n = number_in(s);
    let word = ascii_lowered(s);
    if n == Some(0nat) || word == "off"@ {
        Some(Level::Off)
    } else if n == Some(1nat) || word == "error"@ || s.len() == 0 {
        Some(Level::Error)
    } else if n == Some(2nat) || word == "warn"@ {
        Some(Level::Warn)
    } else if n == Some(3nat) || word == "info"@ {
        Some(Level::Info)
    } else if n == Some(4nat) || word == "debug"@ {
        Some(Level::Debug)
    } else if n == Some(5nat) || word == "trace"@ {
        Some(Level::Trace)
    } else {
        None
    }
}

/// The level that a text names.
///
/// Calls `LevelFilter::from_str` of the `tracing` crate by way of `str::parse`.
/// It reads a number from zero to five, with leading zeros or a plus or not,
/// then the names of the levels regardless of the case of ASCII letters, and
/// takes the empty text for `error`.
#[verifier::external_body]
fn parse_level(s: &str) -> (r: Option<Level>)
    ensures
        r == level_named(s@),
{
    let filter = s.parse::<tracing::level_filters::LevelFilter>().ok()?;
    Some(match filter.into_level() {
        None => Level::Off,
        Some(tracing::Level::ERROR) => Level::Error,
        Some(tracing::Level::WARN) => Level::Warn,
        Some(tracing::Level::INFO) => Level::Info,
        Some(tracing::Level::DEBUG) => Level::Debug,
        Some(_) => Level::Trace,
    })
}

/// Up to which level each target is logged, and all others.
pub struct Filter {
    pub default: Level,
    pub targets: KeyMap<Level>,
}

/// The levels that are set for single targets, where they are levels.
pub open spec fn overridden(overrides: Map<Seq<char>, String>) -> Map<Seq<char>, Level> {
    Map::new(
        |k: Seq<char>| overrides.contains_key(k) && level_named(overrides[k]@) is Some,
        |k: Seq<char>| level_named(overrides[k]@).unwrap(),
    )
}

/// What is said of a level that is none, by target and level in quotes.
pub open spec fn invalid_level(target: Seq<char>, level: Seq<char>) -> Seq<char> {
    "logging: invalid level "@ + level + " for target "@ + target
}

/// What is said of a level that is none.
pub fn invalid_level_text(quoted_target: &str, quoted_level: &str) -> (r: String)
    ensures
        r@ == invalid_level(quoted_target@, quoted_level@),
{
    let mut r = "logging: invalid level ".to_string();
    r.append(quoted_level);
    r.append(" for target ");
    r.append(quoted_target);
    r
}

/// What is said of a level that is none.
pub open spec fn complaint(target: Seq<char>, level: Seq<char>) -> Seq<char> {
    invalid_level(debug_text(target), debug_text(level))
}

/// The levels in `overrides` that are none, said of each in the order of the
/// targets.
pub open spec fn invalid(order: Seq<Seq<char>>, overrides: Map<Seq<char>, String>) -> Seq<Seq<char>>
    decreases order.len(),
{
    if order.len() == 0 {
        Seq::empty()
    } else {
        let rest = invalid(order.drop_last(), overrides);
        let target = order.last();
        if level_named(overrides[target]@) is None {
            rest.push(complaint(target, overrides[target]@))
        } else {
            rest
        }
    }
}

fn complain(target: &str, level: &str) -> (r: String)
    ensures
        r@ == complaint(target@, level@),
{
    invalid_level_text(quoted(target).as_str(), quoted(level).as_str())
}

/// The filter for a default level and levels for single targets, and what is to
/// be said of those that are none.
pub fn build_filter(default: Level, overrides: &KeyMap<String>) -> (r: (Filter, Vec<String>))
    ensures
        r.0.default == default,
        r.0.targets@ == overridden(overrides@),
        exists|order: Seq<Seq<char>>| #[trigger]
            lists(order, overrides@.dom()) && texts(r.1@) == invalid(
                order,
                overrides@,
            ),
{
    let n = overrides.len();
    let ghost order = overrides.order();
    let mut targets: KeyMap<Level> = KeyMap::new();
    let mut said: Vec<String> = Vec::new();
    let mut i: usize = 0;
    assert(texts(said@) =~= invalid(order.take(0), overrides@));
    while i < n
        invariant
            order == overrides.order(),
            n == order.len(),
            lists(order, overrides@.dom()),
            i <= n,
            texts(said@) == invalid(order.take(i as int), overrides@),
            forall|k: Seq<char>| #[trigger]
                targets@.contains_key(k) <==> order.take(i as int).contains(k) && level_named(
                    overrides@[k]@,
                ) is Some,
            forall|k: Seq<char>| #[trigger]
                targets@.contains_key(k) ==> Some(targets@[k]) == level_named(overrides@[k]@),
        decreases n - i,
    {
        let ghost was = targets@;
        let ghost before = texts(said@);
        let target = overrides.key_at(i);
        let level = overrides.value_at(i);
        match parse_level(level.as_str()) {
            Some(l) => targets.insert(target.clone(), l),
            None => said.push(complain(target.as_str(), level.as_str())),
        }
        proof {
            let then = order.take(i + 1);
            assert(then.drop_last() =~= order.take(i as int));
            assert(then.last() == target@);
            if level_named(level@) is None {
                assert(texts(said@) =~= before.push(complaint(target@, level@)));
            }
            assert forall|k: Seq<char>| #[trigger]
                targets@.contains_key(k) <==> then.contains(k) && level_named(overrides@[k]@)
                    is Some by {
                lemma_one_more(order, i as int, k);
                assert(was.contains_key(k) <==> order.take(i as int).contains(k) && level_named(
                    overrides@[k]@,
                ) is Some);
            }
            assert forall|k: Seq<char>| #[trigger] targets@.contains_key(k) implies Some(
                targets@[k],
            ) == level_named(overrides@[k]@) by {
                if k != target@ {
                    assert(was.contains_key(k));
                }
            }
        }
        i = i + 1;
    }
    proof {
        assert(order.take(n as int) =~= order);
        assert forall|k: Seq<char>| targets@.contains_key(k) <==> overridden(
            overrides@,
        ).contains_key(k) by {
            assert(order.contains(k) <==> overrides@.dom().contains(k));
            assert(targets@.contains_key(k) <==> order.contains(k) && level_named(overrides@[k]@)
                is Some);
        }
        assert(targets@ =~= overridden(overrides@));
    }
    (Filter { default, targets }, said)
}

/// The targets that sending logs to Loki uses itself.
pub open spec fn own_targets(k: Seq<char>) -> bool {
    k == "hyper"@ || k == "hyper_util"@ || k == "reqwest"@ || k == "h2"@ || k == "tracing_loki"@
}

/// The filter for Loki: like any other, but for the targets that sending logs to
/// it uses itself, which are never logged.
pub fn loki_filter(default: Level, overrides: &KeyMap<String>) -> (r: (Filter, Vec<String>))
    ensures
        r.0.default == default,
        forall|k: Seq<char>| #[trigger]
            r.0.targets@.contains_key(k) <==> own_targets(k) || overridden(
                overrides@,
            ).contains_key(k),
        forall|k: Seq<char>| #[trigger]
            r.0.targets@.contains_key(k) ==> r.0.targets@[k] == if own_targets(k) {
                Level::Off
            } else {
                overridden(overrides@)[k]
            },
        exists|order: Seq<Seq<char>>| #[trigger]
            lists(order, overrides@.dom()) && texts(r.1@) == invalid(
                order,
                overrides@,
            ),
{
    let (mut filter, said) = build_filter(default, overrides);
    filter.targets.insert("hyper".to_string(), Level::Off);
    filter.targets.insert("hyper_util".to_string(), Level::Off);
    filter.targets.insert("reqwest".to_string(), Level::Off);
    filter.targets.insert("h2".to_string(), Level::Off);
    filter.targets.insert("tracing_loki".to_string(), Level::Off);
    (filter, said)
}

/// Which outputs there are.
#[derive(Debug, Clone, Copy, PartialEq, Eq, Structural)]
pub struct Outputs {
    /// The level of all targets that have none of their own.
    pub level: Level,
    pub console: bool,
    pub loki: bool,
}

/// Which outputs a configuration asks for: those that it has and that are
/// enabled. A level that is none means information.
pub fn outputs(c: &LoggingConfig) -> (r: Outputs)
    ensures
        r.level == match level_named(c.level@) {
            Some(l) => l,
            None => Level::Info,
        },
        r.console == (c.console is Some && c.console.unwrap().enabled),
        r.loki == (c.loki is Some && c.loki.unwrap().enabled),
{
    let level = match parse_level(c.level.as_str()) {
        Some(l) => l,
        None => Level::Info,
    };
    let console = match &c.console {
        Some(c) => c.enabled,
        None => false,
    };
    let loki = match &c.loki {
        Some(l) => l.enabled,
        None => false,
    };
    Outputs { level, console, loki }
}

/// The names of the levels count in either case, the numbers zero to five from silent to
/// most detailed, and the empty text means errors; nothing else is a level.
pub proof fn law_levels(s: Seq<char>)
    ensures
        ascii_lowered(s) == "off"@ ==> level_named(s) == Some(Level::Off),
        ascii_lowered(s) == "error"@ ==> level_named(s) == Some(Level::Error),
        ascii_lowered(s) == "warn"@ ==> level_named(s) == Some(Level::Warn),
        ascii_lowered(s) == "info"@ ==> level_named(s) == Some(Level::Info),
        ascii_lowered(s) == "debug"@ ==> level_named(s) == Some(Level::Debug),
        ascii_lowered(s) == "trace"@ ==> level_named(s) == Some(Level::Trace),
        s.len() == 0 ==> level_named(s) == Some(Level::Error),
        level_named(seq!['0']) == Some(Level::Off),
        level_named(seq!['1']) == Some(Level::Error),
        level_named(seq!['2']) == Some(Level::Warn),
        level_named(seq!['3']) == Some(Level::Info),
        level_named(seq!['4']) == Some(Level::Debug),
        level_named(seq!['5']) == Some(Level::Trace),
        ({
            let w = ascii_lowered(s);
            &&& w != "off"@ && w != "error"@ && w != "warn"@ && w != "info"@ && w != "debug"@ && w
                != "trace"@
            &&& s.len() > 0
            &&& !('0' <= s.last() <= '5')
        }) ==> level_named(s) is None,
{
    lemma_level_words();
    let w = ascii_lowered(s);
    assert(w.len() == s.len());
    if s.len() > 0 {
        assert(w[0] == ascii_lower(s[0]));
        assert(number_in(s) is Some ==> '0' <= s[0] <= '9' || s[0] == '+');
        let t = if s[0] == '+' {
            s.skip(1)
        } else {
            s
        };
        if number_in(s) is Some {
            assert(t.last() == s.last());
            assert('0' <= t[t.len() - 1] <= '9');
            assert(number_of(t) >= t.last() as u32 - 48);
        }
    }
    lemma_one_digit('0');
    lemma_one_digit('1');
    lemma_one_digit('2');
    lemma_one_digit('3');
    lemma_one_digit('4');
    lemma_one_digit('5');
}

proof fn lemma_one_digit(c: char)
    requires
        '0' <= c <= '9',
    ensures
        number_in(seq![c]) == Some((c as u32 - 48) as nat),
        ascii_lowered(seq![c]).len() == 1,
{
    assert(seq![c].drop_last() =~= Seq::<char>::empty());
    assert(number_of(Seq::<char>::empty()) == 0);
    assert(number_of(seq![c]) == (c as u32 - 48) as nat);
}

proof fn lemma_level_words()
    ensures
        "off"@.len() == 3 && "error"@.len() == 5 && "warn"@.len() == 4 && "info"@.len() == 4
            && "debug"@.len() == 5 && "trace"@.len() == 5,
        "off"@[0] == 'o' && "error"@[0] == 'e' && "warn"@[0] == 'w' && "info"@[0] == 'i'
            && "debug"@[0] == 'd' && "trace"@[0] == 't',
{
    reveal_strlit("off");
    reveal_strlit("error");
    reveal_strlit("warn");
    reveal_strlit("info");
    reveal_strlit("debug");
    reveal_strlit("trace");
}

/// A target is logged by its own level where one is set for it that is a level; a target
/// whose level is none goes by the default, and that is said of it.
pub proof fn law_own_levels(
    overrides: Map<Seq<char>, String>,
    order: Seq<Seq<char>>,
    target: Seq<char>,
)
    ensures
        overridden(overrides).contains_key(target) <==> overrides.contains_key(target)
            && level_named(overrides[target]@) is Some,
        overridden(overrides).contains_key(target) ==> Some(overridden(overrides)[target])
            == level_named(overrides[target]@),
        invalid(order.push(target), overrides) == if level_named(overrides[target]@) is None {
            invalid(order, overrides).push(
                "logging: invalid level "@ + debug_text(overrides[target]@) + " for target "@
                    + debug_text(target),
            )
        } else {
            invalid(order, overrides)
        },
        invalid(Seq::empty(), overrides) == Seq::<Seq<char>>::empty(),
{
    assert(order.push(target).drop_last() =~= order);
}

/// What sending logs to Loki uses itself is never sent there.
pub proof fn law_targets_of_loki(k: Seq<char>)
    ensures
        own_targets(k) <==> k == "hyper"@ || k == "hyper_util"@ || k == "reqwest"@ || k == "h2"@
            || k == "tracing_loki"@,
{
}

} // verus!
