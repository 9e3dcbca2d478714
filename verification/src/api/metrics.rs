//! The state of all instances in the format of Prometheus.
use vstd::prelude::*;
use vstd::string::*;

use crate::instances::SilenceRegistry;
use crate::supervisor::laws::consistent;
use crate::supervisor::machine::{
    elapsed, elapsed_secs, is_clean, next, Event, ExitReport, InternalState, Supervisor,
};
use crate::supervisor::reports::looks;
use crate::supervisor::Status;
use crate::text::{chars_of, dec, dec_int, push_char, push_dec, push_int};

verus! {

/// How a character is written in the value of a label.
pub open spec fn escaped_char(c: char) -> Seq<char> {
    if c == '\\' {
        seq!['\\', '\\']
    } else if c == '"' {
        seq!['\\', '"']
    } else if c == '\n' {
        seq!['\\', 'n']
    } else {
        seq![c]
    }
}

/// How a text is written in the value of a label.
pub open spec fn escaped(s: Seq<char>) -> Seq<char>
    decreases s.len(),
{
    if s.len() == 0 {
        Seq::empty()
    } else {
        escaped_char(s[0]) + escaped(s.skip(1))
    }
}

/// How a text is written in the value of a label.
pub fn escape(s: &str) -> (r: String)
    ensures
        r@ == escaped(s@),
{
    let chars = chars_of(s);
    let mut out = String::new();
    let mut i: usize = 0;
    assert(s@.skip(0) =~= s@);
    assert(out@ + escaped(s@) =~= escaped(s@));
    while i < chars.len()
        invariant
            chars@ == s@,
            i <= chars.len(),
            out@ + escaped(s@.skip(i as int)) == escaped(s@),
        decreases chars.len() - i,
    {
        let c = chars[i];
        let ghost was = out@;
        if c == '\\' {
            push_char(&mut out, '\\');
            push_char(&mut out, '\\');
        } else if c == '"' {
            push_char(&mut out, '\\');
            push_char(&mut out, '"');
        } else if c == '\n' {
            push_char(&mut out, '\\');
            push_char(&mut out, 'n');
        } else {
            push_char(&mut out, c);
        }
        proof {
            let rest = s@.skip(i as int);
            assert(rest[0] == c);
            assert(rest.skip(1) =~= s@.skip(i + 1));
            assert(out@ =~= was + escaped_char(c));
            assert(out@ + escaped(s@.skip(i + 1)) =~= was + escaped(rest));
        }
        i = i + 1;
    }
    assert(s@.skip(i as int).len() == 0);
    assert(out@ =~= escaped(s@));
    out
}

/// What a reader makes of the value of a label: the text up to the closing
/// quote, and what follows it.
pub open spec fn read_label(t: Seq<char>) -> Option<(Seq<char>, Seq<char>)>
    decreases t.len(),
{
    if t.len() == 0 {
        None
    } else if t[0] == '"' {
        Some((Seq::empty(), t.skip(1)))
    } else if t[0] == '\\' {
        if t.len() < 2 {
            None
        } else {
            match read_label(t.skip(2)) {
                Some((s, rest)) => Some(
                    (
                        seq![
                            if t[1] == 'n' {
                                '\n'
                            } else {
                                t[1]
                            },
                        ] + s,
                        rest,
                    ),
                ),
                None => None,
            }
        }
    } else {
        match read_label(t.skip(1)) {
            Some((s, rest)) => Some((seq![t[0]] + s, rest)),
            None => None,
        }
    }
}

/// A reader gets every text back as it was, and finds its end, whatever follows.
pub proof fn law_labels_are_read_back(s: Seq<char>, rest: Seq<char>)
    ensures
        read_label(escaped(s) + seq!['"'] + rest) == Some((s, rest)),
        forall|i: int| 0 <= i < escaped(s).len() ==> escaped(s)[i] != '\n',
    decreases s.len(),
{
    let t = escaped(s) + seq!['"'] + rest;
    if s.len() == 0 {
        assert(t.skip(1) =~= rest);
        assert(s =~= Seq::empty());
    } else {
        let s1 = s.skip(1);
        law_labels_are_read_back(s1, rest);
        let t1 = escaped(s1) + seq!['"'] + rest;
        let e = escaped_char(s[0]);
        assert(t =~= e + t1);
        assert(t.skip(e.len() as int) =~= t1);
        assert(t[0] == e[0]);
        assert(e.len() == 2 ==> t[1] == e[1]);
        assert(s =~= seq![s[0]] + s1);
        assert forall|i: int| 0 <= i < escaped(s).len() implies escaped(s)[i] != '\n' by {
            if i >= e.len() {
                assert(escaped(s)[i] == escaped(s1)[i - e.len()]);
            }
        }
    }
}

/// What is known of one instance.
pub struct MetricsRow {
    pub key: String,
    pub status: Status,
    /// How long ago it last pinged, whatever it has been doing since.
    pub last_ping_secs_ago: Option<u64>,
    /// The failures in a row that the next wait counts.
    pub failures: u32,
    pub silenced: bool,
    /// How often each happened, where the history could be asked.
    pub starts: Option<u64>,
    pub crashes: Option<u64>,
    pub clean_exits: Option<u64>,
    pub heartbeat_lost: Option<u64>,
}

impl MetricsRow {
    /// What is known of the server `key` at the moment `now`, but for what the
    /// history knows of it.
    pub fn of(key: &str, s: &Supervisor, silenced: &SilenceRegistry, now: u64) -> (r: Self)
        ensures
            r.key@ == key@,
            looks(s.state, s.last_ping, now, r.status),
            r.last_ping_secs_ago == match s.last_seen {
                Some(t) => Some(elapsed_secs(t, now)),
                None => None,
            },
            r.failures == counting_failures(*s, now),
            r.silenced == silenced@.contains(s.key@),
            r.starts is None,
            r.crashes is None,
            r.clean_exits is None,
            r.heartbeat_lost is None,
    {
        let last_ping_secs_ago = match s.last_seen {
            Some(t) => Some(elapsed(t, now)),
            None => None,
        };
        let failures: u32 = match &s.state {
            InternalState::Running { pid: _, started_at, version: _ } => {
                if elapsed(*started_at, now) >= s.server.healthy_after_secs {
                    0
                } else {
                    s.failures
                }
            },
            _ => s.failures,
        };
        MetricsRow {
            key: key.to_string(),
            status: s.status(now),
            last_ping_secs_ago,
            failures,
            silenced: s.is_silent(silenced),
            starts: None,
            crashes: None,
            clean_exits: None,
            heartbeat_lost: None,
        }
    }
}

/// The failures in a row that the next wait counts: none once the server has been
/// up long enough for them to be forgotten.
pub open spec fn counting_failures(s: Supervisor, now: u64) -> u32 {
    match s.state {
        InternalState::Running { started_at, .. } => if elapsed_secs(started_at, now)
            >= s.server.healthy_after_secs {
            0
        } else {
            s.failures
        },
        _ => s.failures,
    }
}

/// The failures that are shown are those that the next wait counts: when the
/// server goes down now, one more is counted.
pub proof fn law_shown_failures_count(s: Supervisor, report: ExitReport, now: u64)
    requires
        s.phase is Watching,
        consistent(s),
        !is_clean(report),
    ensures
        next(s, Event::Exited(report), now) matches Some((t, _)) && {
            let counted: int = counting_failures(s, now) + 1;
            t.failures == if counted <= u32::MAX {
                counted
            } else {
                u32::MAX as int
            } && counting_failures(t, now) == t.failures
        },
{
}

/// The gauges of a status: whether it runs, for how long, and how long it waits.
pub open spec fn gauges(s: Status) -> (int, int, int) {
    match s {
        Status::Running { uptime_secs, .. } => (1, uptime_secs as i64 as int, 0),
        Status::Backoff { wait_secs, .. } => (0, 0, wait_secs as i64 as int),
        _ => (0, 0, 0),
    }
}

/// How long ago an instance last pinged; -1 if it never did.
pub open spec fn ping_gauge(secs_ago: Option<u64>) -> int {
    match secs_ago {
        Some(t) => t as i64 as int,
        None => -1,
    }
}

/// One line: a metric of an instance and its value.
pub open spec fn sample(name: Seq<char>, key: Seq<char>, value: Seq<char>) -> Seq<char> {
    name + "{key=\""@ + escaped(key) + "\"} "@ + value + "\n"@
}

/// A count in decimal; none counts as zero.
pub open spec fn counted(n: Option<u64>) -> Seq<char> {
    match n {
        Some(n) => dec(n as nat),
        None => dec(0),
    }
}

/// All lines of an instance.
#[verifier::opaque]
pub open spec fn row_text(row: MetricsRow) -> Seq<char> {
    let key = row.key@;
    let (up, uptime, backoff) = gauges(row.status);
    sample("cerberus_instance_up"@, key, dec_int(up)) + sample(
        "cerberus_instance_uptime_seconds"@,
        key,
        dec_int(uptime),
    ) + sample(
        "cerberus_instance_last_ping_seconds"@,
        key,
        dec_int(ping_gauge(row.last_ping_secs_ago)),
    ) + sample(
        "cerberus_instance_backoff_seconds"@,
        key,
        dec_int(backoff),
    ) + sample("cerberus_instance_failures"@, key, dec(row.failures as nat)) + sample(
        "cerberus_instance_silenced"@,
        key,
        dec(
            if row.silenced {
                1
            } else {
                0
            },
        ),
    ) + sample("cerberus_instance_starts_total"@, key, counted(row.starts)) + sample(
        "cerberus_instance_crashes_total"@,
        key,
        counted(row.crashes),
    ) + sample("cerberus_instance_clean_exits_total"@, key, counted(row.clean_exits)) + sample(
        "cerberus_instance_heartbeat_lost_total"@,
        key,
        counted(row.heartbeat_lost),
    )
}

/// All lines of some instances.
pub open spec fn rows_text(rows: Seq<MetricsRow>) -> Seq<char>
    decreases rows.len(),
{
    if rows.len() == 0 {
        Seq::empty()
    } else {
        rows_text(rows.drop_last()) + row_text(rows.last())
    }
}

/// What comes before the instances: every metric with its meaning and type, and
/// the version of the daemon.
#[verifier::opaque]
pub open spec fn preamble(version: Seq<char>) -> Seq<char> {
    "# HELP cerberus_build_info Build metadata; value is always 1.\n# TYPE cerberus_build_info gauge\n"@ + "cerberus_build_info{version=\""@ + version + "\"} 1\n"@
        + "# HELP cerberus_instance_up 1 if the instance's supervisor is in state=running.\n# TYPE cerberus_instance_up gauge\n"@
        + "# HELP cerberus_instance_uptime_seconds Seconds since the current process started; 0 if not running.\n# TYPE cerberus_instance_uptime_seconds gauge\n"@
        + "# HELP cerberus_instance_last_ping_seconds Seconds since the last heartbeat from this instance; -1 if never seen.\n# TYPE cerberus_instance_last_ping_seconds gauge\n"@
        + "# HELP cerberus_instance_backoff_seconds Seconds remaining in the current backoff wait; 0 outside backoff.\n# TYPE cerberus_instance_backoff_seconds gauge\n"@
        + "# HELP cerberus_instance_failures Consecutive spawn/heartbeat failures counting toward backoff.\n# TYPE cerberus_instance_failures gauge\n"@
        + "# HELP cerberus_instance_silenced 1 if the instance's stdout/stderr is currently dropped.\n# TYPE cerberus_instance_silenced gauge\n"@
        + "# HELP cerberus_instance_starts_total Successful process spawns; each restart increments.\n# TYPE cerberus_instance_starts_total counter\n"@
        + "# HELP cerberus_instance_crashes_total Non-clean exits (non-zero status or unexpected signal).\n# TYPE cerberus_instance_crashes_total counter\n"@
        + "# HELP cerberus_instance_clean_exits_total Clean exits (status 0), e.g. in-game admin shutdown.\n# TYPE cerberus_instance_clean_exits_total counter\n"@
        + "# HELP cerberus_instance_heartbeat_lost_total Times heartbeat timeout forced a restart.\n# TYPE cerberus_instance_heartbeat_lost_total counter\n"@
}

/// The media type of the metrics.
pub fn content_type() -> (r: &'static str)
    ensures
        r@ == "text/plain; version=0.0.4; charset=utf-8"@,
{
    "text/plain; version=0.0.4; charset=utf-8"
}

fn push_sample(buf: &mut String, name: &str, label: &str, value: &str)
    ensures
        final(buf)@ == old(buf)@ + (name@ + "{key=\""@ + label@ + "\"} "@ + value@ + "\n"@),
{
    buf.append(name);
    buf.append("{key=\"");
    buf.append(label);
    buf.append("\"} ");
    buf.append(value);
    buf.append("\n");
    assert(buf@ =~= old(buf)@ + (name@ + "{key=\""@ + label@ + "\"} "@ + value@ + "\n"@));
}

fn push_int_sample(buf: &mut String, name: &str, key: &str, value: i64)
    ensures
        final(buf)@ == old(buf)@ + sample(name@, key@, dec_int(value as int)),
{
    let label = escape(key);
    let mut text = String::new();
    push_int(&mut text, value);
    assert(text@ =~= dec_int(value as int));
    push_sample(buf, name, label.as_str(), text.as_str());
}

fn push_count_sample(buf: &mut String, name: &str, key: &str, value: Option<u64>)
    ensures
        final(buf)@ == old(buf)@ + sample(name@, key@, counted(value)),
{
    let label = escape(key);
    let n: u64 = match value {
        Some(n) => n,
        None => 0,
    };
    let mut text = String::new();
    push_dec(&mut text, n);
    assert(text@ =~= counted(value));
    push_sample(buf, name, label.as_str(), text.as_str());
}

fn row_lines(row: &MetricsRow) -> (r: String)
    ensures
        r@ == row_text(*row),
{
    reveal(row_text);
    let key = row.key.as_str();
    let mut up: i64 = 0;
    let mut uptime: i64 = 0;
    let mut backoff: i64 = 0;
    match &row.status {
        Status::Running { pid: _, version: _, uptime_secs, last_ping_secs_ago: _ } => {
            up = 1;
            uptime = *uptime_secs as i64;
        },
        Status::Backoff { wait_secs, failures: _ } => {
            backoff = *wait_secs as i64;
        },
        _ => {},
    }
    let last_ping: i64 = match row.last_ping_secs_ago {
        Some(t) => t as i64,
        None => -1,
    };
    assert(gauges(row.status) == (up as int, uptime as int, backoff as int));
    let mut buf = String::new();
    push_int_sample(&mut buf, "cerberus_instance_up", key, up);
    assert(buf@ =~= sample("cerberus_instance_up"@, key@, dec_int(up as int)));
    push_int_sample(&mut buf, "cerberus_instance_uptime_seconds", key, uptime);
    push_int_sample(&mut buf, "cerberus_instance_last_ping_seconds", key, last_ping);
    push_int_sample(&mut buf, "cerberus_instance_backoff_seconds", key, backoff);
    push_count_sample(&mut buf, "cerberus_instance_failures", key, Some(row.failures as u64));
    let silenced: u64 = if row.silenced {
        1
    } else {
        0
    };
    push_count_sample(&mut buf, "cerberus_instance_silenced", key, Some(silenced));
    push_count_sample(&mut buf, "cerberus_instance_starts_total", key, row.starts);
    push_count_sample(&mut buf, "cerberus_instance_crashes_total", key, row.crashes);
    push_count_sample(&mut buf, "cerberus_instance_clean_exits_total", key, row.clean_exits);
    push_count_sample(&mut buf, "cerberus_instance_heartbeat_lost_total", key, row.heartbeat_lost);
    buf
}

fn opening(version: &str) -> (r: String)
    ensures
        r@ == preamble(version@),
{
    reveal(preamble);
    let mut r =
        "# HELP cerberus_build_info Build metadata; value is always 1.\n# TYPE cerberus_build_info gauge\n".to_string();
    r.append("cerberus_build_info{version=\"");
    r.append(version);
    r.append("\"} 1\n");
    r.append(
        "# HELP cerberus_instance_up 1 if the instance's supervisor is in state=running.\n# TYPE cerberus_instance_up gauge\n",
    );
    r.append(
        "# HELP cerberus_instance_uptime_seconds Seconds since the current process started; 0 if not running.\n# TYPE cerberus_instance_uptime_seconds gauge\n",
    );
    r.append(
        "# HELP cerberus_instance_last_ping_seconds Seconds since the last heartbeat from this instance; -1 if never seen.\n# TYPE cerberus_instance_last_ping_seconds gauge\n",
    );
    r.append(
        "# HELP cerberus_instance_backoff_seconds Seconds remaining in the current backoff wait; 0 outside backoff.\n# TYPE cerberus_instance_backoff_seconds gauge\n",
    );
    r.append(
        "# HELP cerberus_instance_failures Consecutive spawn/heartbeat failures counting toward backoff.\n# TYPE cerberus_instance_failures gauge\n",
    );
    r.append(
        "# HELP cerberus_instance_silenced 1 if the instance's stdout/stderr is currently dropped.\n# TYPE cerberus_instance_silenced gauge\n",
    );
    r.append(
        "# HELP cerberus_instance_starts_total Successful process spawns; each restart increments.\n# TYPE cerberus_instance_starts_total counter\n",
    );
    r.append(
        "# HELP cerberus_instance_crashes_total Non-clean exits (non-zero status or unexpected signal).\n# TYPE cerberus_instance_crashes_total counter\n",
    );
    r.append(
        "# HELP cerberus_instance_clean_exits_total Clean exits (status 0), e.g. in-game admin shutdown.\n# TYPE cerberus_instance_clean_exits_total counter\n",
    );
    r.append(
        "# HELP cerberus_instance_heartbeat_lost_total Times heartbeat timeout forced a restart.\n# TYPE cerberus_instance_heartbeat_lost_total counter\n",
    );
    r
}

/// The state of all instances, for a daemon of the given version.
pub fn metrics(version: &str, rows: &Vec<MetricsRow>) -> (r: String)
    ensures
        r@ == preamble(version@) + rows_text(rows@),
{
    let mut buf = opening(version);
    let mut i: usize = 0;
    assert(buf@ =~= preamble(version@) + rows_text(rows@.take(0)));
    while i < rows.len()
        invariant
            i <= rows@.len(),
            buf@ == preamble(version@) + rows_text(rows@.take(i as int)),
        decreases rows.len() - i,
    {
        let lines = row_lines(&rows[i]);
        buf.append(lines.as_str());
        proof {
            let then = rows@.take(i + 1);
            assert(then.drop_last() =~= rows@.take(i as int));
            assert(buf@ =~= preamble(version@) + rows_text(then));
        }
        i = i + 1;
    }
    assert(rows@.take(i as int) =~= rows@);
    buf
}

/// In the value of a label a backslash, a quote and a line feed are written as a
/// backslash and a character, every other character as itself, one after another.
pub proof fn law_escaped(a: Seq<char>, b: Seq<char>, c: char)
    ensures
        escaped(Seq::empty()) == Seq::<char>::empty(),
        escaped(seq![c]) == if c == '\\' {
            seq!['\\', '\\']
        } else if c == '"' {
            seq!['\\', '"']
        } else if c == '\n' {
            seq!['\\', 'n']
        } else {
            seq![c]
        },
        escaped(a + b) == escaped(a) + escaped(b),
    decreases a.len(),
{
    assert(seq![c].skip(1) =~= Seq::<char>::empty());
    assert(escaped(Seq::empty()) =~= Seq::<char>::empty());
    assert(escaped(seq![c]) =~= escaped_char(c));
    if a.len() == 0 {
        assert(a + b =~= b);
        assert(escaped(a) + escaped(b) =~= escaped(b));
    } else {
        law_escaped(a.skip(1), b, c);
        assert((a + b).skip(1) =~= a.skip(1) + b);
        assert(escaped(a) + escaped(b) =~= escaped_char(a[0]) + (escaped(a.skip(1)) + escaped(b)));
    }
}

/// A line of a metric: its name, the key of the instance as a label, and the value.
pub open spec fn metric_line(name: Seq<char>, key: Seq<char>, value: Seq<char>) -> Seq<char> {
    name + "{key=\""@ + escaped(key) + "\"} "@ + value + "\n"@
}

/// The lines of an instance, one for each metric: whether it runs, its uptime while it
/// does, the age of the last ping or -1, the wait while it waits, the failures, whether
/// its output is dropped, and how often each thing happened, zero where that is unknown.
pub proof fn law_lines_of_an_instance(row: MetricsRow)
    ensures
        row_text(row) == metric_line(
            "cerberus_instance_up"@,
            row.key@,
            dec_int(
                if row.status is Running {
                    1
                } else {
                    0
                },
            ),
        ) + metric_line(
            "cerberus_instance_uptime_seconds"@,
            row.key@,
            dec_int(
                match row.status {
                    Status::Running { uptime_secs, .. } => uptime_secs as i64 as int,
                    _ => 0,
                },
            ),
        ) + metric_line(
            "cerberus_instance_last_ping_seconds"@,
            row.key@,
            dec_int(
                match row.last_ping_secs_ago {
                    Some(t) => t as i64 as int,
                    None => -1,
                },
            ),
        ) + metric_line(
            "cerberus_instance_backoff_seconds"@,
            row.key@,
            dec_int(
                match row.status {
                    Status::Backoff { wait_secs, .. } => wait_secs as i64 as int,
                    _ => 0,
                },
            ),
        ) + metric_line("cerberus_instance_failures"@, row.key@, dec(row.failures as nat))
            + metric_line(
            "cerberus_instance_silenced"@,
            row.key@,
            dec(
                if row.silenced {
                    1
                } else {
                    0
                },
            ),
        ) + metric_line(
            "cerberus_instance_starts_total"@,
            row.key@,
            dec(
                match row.starts {
                    Some(n) => n as nat,
                    None => 0,
                },
            ),
        ) + metric_line(
            "cerberus_instance_crashes_total"@,
            row.key@,
            dec(
                match row.crashes {
                    Some(n) => n as nat,
                    None => 0,
                },
            ),
        ) + metric_line(
            "cerberus_instance_clean_exits_total"@,
            row.key@,
            dec(
                match row.clean_exits {
                    Some(n) => n as nat,
                    None => 0,
                },
            ),
        ) + metric_line(
            "cerberus_instance_heartbeat_lost_total"@,
            row.key@,
            dec(
                match row.heartbeat_lost {
                    Some(n) => n as nat,
                    None => 0,
                },
            ),
        ),
{
    reveal(row_text);
}

/// The instances are shown one after another, each with its own lines.
pub proof fn law_instances_in_order(rows: Seq<MetricsRow>, row: MetricsRow)
    ensures
        rows_text(Seq::empty()) == Seq::<char>::empty(),
        rows_text(rows.push(row)) == rows_text(rows) + row_text(row),
{
    assert(rows.push(row).drop_last() =~= rows);
}

/// The failures that are shown: none once the server has been up long enough, in whole
/// seconds, for them to be forgotten, and those in a row at all other times.
pub proof fn law_failures_shown(s: Supervisor, now: u64)
    ensures
        counting_failures(s, now) == if s.state matches InternalState::Running { started_at, .. }
            && now >= started_at && (now - started_at) / 1_000_000_000 >= s.server.healthy_after_secs {
            0
        } else if s.state is Running && s.server.healthy_after_secs == 0 {
            0
        } else {
            s.failures
        },
{
}

/// What comes before the instances names the version of the daemon, as it is, in its
/// place, and is the same for every version but for that.
pub proof fn law_version_is_shown(a: Seq<char>, b: Seq<char>)
    ensures
        exists|tail: Seq<char>| #[trigger] opens_with(a, tail) && opens_with(b, tail),
{
    reveal(preamble);
    let head = "# HELP cerberus_build_info Build metadata; value is always 1.\n# TYPE cerberus_build_info gauge\n"@
        + "cerberus_build_info{version=\""@;
    let end = "\"} 1\n"@;
    let tail = preamble(a).skip((head.len() + a.len() + end.len()) as int);
    assert(preamble(a) =~= head + a + end + tail);
    assert(preamble(b) =~= head + b + end + tail);
    assert(opens_with(a, tail) && opens_with(b, tail));
}

/// Whether what comes before the instances is the version in its place, and then `tail`.
pub open spec fn opens_with(version: Seq<char>, tail: Seq<char>) -> bool {
    preamble(version)
        == "# HELP cerberus_build_info Build metadata; value is always 1.\n# TYPE cerberus_build_info gauge\n"@
        + "cerberus_build_info{version=\""@ + version + "\"} 1\n"@ + tail
}

} // verus!
