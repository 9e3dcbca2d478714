//! How the answers of a daemon are shown.
use vstd::prelude::*;
use vstd::string::*;

use crate::text::{left_aligned, push_left_aligned, same, text_in, texts};

use super::calendar::{format_ts, shows_ts};
use super::json::{member_bool, member_int, member_text, Json};

verus! {

/// Whether `r` tells what came of an update; `None` for an answer that is shown
/// as it is.
pub open spec fn tells_outcome(v: Json, r: Option<Seq<char>>) -> bool {
    let outcome = member_text(v, "outcome"@);
    if outcome == Some("no_update"@) {
        r == Some("no update available"@)
    } else if outcome == Some("notified"@) {
        r == Some(
            if member_bool(v, "notification_sent"@) == Some(true) {
                "update queued; server notified, will apply on next natural exit"@
            } else {
                "update queued; server notification could NOT be delivered - the update will apply the next time the server exits for any reason"@
            },
        )
    } else if outcome == Some("applied"@) {
        r == Some("update installed; will start on next spawn"@)
    } else if outcome == Some("failed"@) {
        r == Some(
            "update failed: "@ + match member_text(v, "reason"@) {
                Some(why) => why,
                None => "unknown"@,
            },
        )
    } else {
        r is None
    }
}

proof fn lemma_outcomes_differ()
    ensures
        "no_update"@ != "notified"@,
        "no_update"@ != "applied"@,
        "no_update"@ != "failed"@,
        "notified"@ != "applied"@,
        "notified"@ != "failed"@,
        "applied"@ != "failed"@,
{
    reveal_strlit("no_update");
    reveal_strlit("notified");
    reveal_strlit("applied");
    reveal_strlit("failed");
    assert("no_update"@.len() == 9 && "notified"@.len() == 8 && "applied"@.len() == 7
        && "failed"@.len() == 6);
}

/// What came of an update, in a line; `None` for an answer that is shown as it
/// is.
pub fn update_outcome(v: &Json) -> (r: Option<String>)
    ensures
        tells_outcome(*v, text_in(r)),
{
    proof {
        lemma_outcomes_differ();
    }
    let outcome = match v.get_text("outcome") {
        Some(o) => o,
        None => return None,
    };
    if same(outcome, "no_update") {
        Some("no update available".to_string())
    } else if same(outcome, "notified") {
        let sent = match v.get_bool("notification_sent") {
            Some(b) => b,
            None => false,
        };
        if sent {
            Some("update queued; server notified, will apply on next natural exit".to_string())
        } else {
            Some(
                "update queued; server notification could NOT be delivered - the update will apply the next time the server exits for any reason".to_string(),
            )
        }
    } else if same(outcome, "applied") {
        Some("update installed; will start on next spawn".to_string())
    } else if same(outcome, "failed") {
        let mut r = "update failed: ".to_string();
        match v.get_text("reason") {
            Some(why) => r.append(why),
            None => r.append("unknown"),
        }
        Some(r)
    } else {
        None
    }
}

/// One line of the history: moment, kind and detail, the first two filled up
/// with blanks.
pub open spec fn history_line(moment: Seq<char>, kind: Seq<char>, detail: Seq<char>) -> Seq<char> {
    left_aligned(moment, 20) + " "@ + left_aligned(kind, 16) + " "@ + detail
}

/// A text, or another where there is none.
pub open spec fn text_or(t: Option<Seq<char>>, other: Seq<char>) -> Seq<char> {
    match t {
        Some(s) => s,
        None => other,
    }
}

/// Whether `line` shows something that happened at the moment `ts`.
pub open spec fn shows_happening(
    ts: int,
    kind: Seq<char>,
    detail: Seq<char>,
    line: Seq<char>,
) -> bool {
    exists|moment: Seq<char>| #[trigger]
        shows_ts(ts, moment) && line == history_line(moment, kind, detail)
}

/// Whether `line` shows an entry of the history.
pub open spec fn shows_entry(row: Json, line: Seq<char>) -> bool {
    shows_happening(
        match member_int(row, "ts"@) {
            Some(n) => n as int,
            None => 0,
        },
        text_or(member_text(row, "kind"@), "?"@),
        text_or(member_text(row, "detail"@), ""@),
        line,
    )
}

/// Whether `lines` show a history: a heading and a line for each entry.
pub open spec fn shows_history(rows: Seq<Json>, lines: Seq<Seq<char>>) -> bool {
    if rows.len() == 0 {
        lines == seq!["(no history)"@]
    } else {
        &&& lines.len() == rows.len() + 1
        &&& lines[0] == history_line("TIMESTAMP"@, "KIND"@, "DETAIL"@)
        &&& forall|i: int| 0 <= i < rows.len() ==> shows_entry(#[trigger] rows[i], lines[i + 1])
    }
}

fn line_of(moment: &str, kind: &str, detail: &str) -> (r: String)
    ensures
        r@ == history_line(moment@, kind@, detail@),
{
    let mut r = String::new();
    push_left_aligned(&mut r, moment, 20);
    assert(r@ =~= left_aligned(moment@, 20));
    r.append(" ");
    push_left_aligned(&mut r, kind, 16);
    r.append(" ");
    r.append(detail);
    r
}

fn entry_line(row: &Json) -> (r: String)
    ensures
        shows_entry(*row, r@),
{
    let ts: i64 = match row.get_int("ts") {
        Some(n) => n,
        None => 0,
    };
    let kind = match row.get_text("kind") {
        Some(k) => k,
        None => "?",
    };
    let detail = match row.get_text("detail") {
        Some(d) => d,
        None => "",
    };
    let moment = format_ts(ts);
    let r = line_of(moment.as_str(), kind, detail);
    assert(shows_happening(ts as int, kind@, detail@, r@));
    r
}

/// A history, line by line; `None` for an answer that is shown as it is.
pub fn history_lines(v: &Json) -> (r: Option<Vec<String>>)
    ensures
        match (*v, r) {
            (Json::List(rows), Some(lines)) => shows_history(rows@, texts(lines@)),
            (Json::List(_), None) => false,
            (_, _) => r is None,
        },
{
    let rows = match v {
        Json::List(rows) => rows,
        _ => return None,
    };
    let mut lines: Vec<String> = Vec::new();
    if rows.len() == 0 {
        lines.push("(no history)".to_string());
        assert(texts(lines@) =~= seq!["(no history)"@]);
        return Some(lines);
    }
    lines.push(line_of("TIMESTAMP", "KIND", "DETAIL"));
    let mut i: usize = 0;
    while i < rows.len()
        invariant
            i <= rows@.len(),
            lines@.len() == i + 1,
            lines@[0]@ == history_line("TIMESTAMP"@, "KIND"@, "DETAIL"@),
            forall|j: int| 0 <= j < i ==> shows_entry(#[trigger] rows@[j], lines@[j + 1]@),
        decreases rows.len() - i,
    {
        lines.push(entry_line(&rows[i]));
        i = i + 1;
    }
    proof {
        assert forall|j: int| 0 <= j < rows@.len() implies shows_entry(
            #[trigger] rows@[j],
            texts(lines@)[j + 1],
        ) by {
            assert(texts(lines@)[j + 1] == lines@[j + 1]@);
        }
    }
    Some(lines)
}

/// What came of an update, as it is told: that there is none, that it is queued and
/// whether the server could be told, that it is installed, or why it failed. Any other
/// answer is shown as it is.
pub proof fn law_told_outcome(v: Json, r: Option<Seq<char>>)
    requires
        tells_outcome(v, r),
    ensures
        member_text(v, "outcome"@) == Some("no_update"@) ==> r == Some("no update available"@),
        member_text(v, "outcome"@) == Some("notified"@) && member_bool(v, "notification_sent"@)
            == Some(true) ==> r == Some(
            "update queued; server notified, will apply on next natural exit"@,
        ),
        member_text(v, "outcome"@) == Some("notified"@) && member_bool(v, "notification_sent"@)
            != Some(true) ==> r == Some(
            "update queued; server notification could NOT be delivered - the update will apply the next time the server exits for any reason"@,
        ),
        member_text(v, "outcome"@) == Some("applied"@) ==> r == Some(
            "update installed; will start on next spawn"@,
        ),
        member_text(v, "outcome"@) == Some("failed"@) ==> (member_text(
            v,
            "reason"@,
        ) matches Some(why) ==> r == Some("update failed: "@ + why)),
        member_text(v, "outcome"@) == Some("failed"@) && member_text(v, "reason"@) is None ==> r
            == Some("update failed: "@ + "unknown"@),
        member_text(v, "outcome"@) is None ==> r is None,
        r is Some ==> member_text(v, "outcome"@) == Some("no_update"@) || member_text(v, "outcome"@)
            == Some("notified"@) || member_text(v, "outcome"@) == Some("applied"@) || member_text(
            v,
            "outcome"@,
        ) == Some("failed"@),
{
    lemma_outcomes_differ();
}

/// Whether a line has a moment, a kind and a detail in its columns.
pub open spec fn in_columns(
    ts: int,
    kind: Seq<char>,
    detail: Seq<char>,
    line: Seq<char>,
) -> bool {
    exists|moment: Seq<char>| #[trigger]
        shows_ts(ts, moment) && line == left_aligned(moment, 20) + " "@ + left_aligned(kind, 16)
            + " "@ + detail
}

/// A history is shown with a heading and a line for each entry, in the order it came:
/// its moment, its kind and its detail in columns, with a question mark for a kind that
/// is missing and nothing for a detail.
pub proof fn law_shown_history(rows: Seq<Json>, lines: Seq<Seq<char>>, i: int)
    requires
        shows_history(rows, lines),
    ensures
        rows.len() == 0 ==> lines == seq!["(no history)"@],
        rows.len() > 0 ==> lines.len() == rows.len() + 1 && lines[0] == left_aligned(
            "TIMESTAMP"@,
            20,
        ) + " "@ + left_aligned("KIND"@, 16) + " "@ + "DETAIL"@,
        0 <= i < rows.len() ==> in_columns(
            match member_int(rows[i], "ts"@) {
                Some(n) => n as int,
                None => 0,
            },
            match member_text(rows[i], "kind"@) {
                Some(k) => k,
                None => "?"@,
            },
            match member_text(rows[i], "detail"@) {
                Some(d) => d,
                None => ""@,
            },
            lines[i + 1],
        ),
{
    if 0 <= i < rows.len() {
        assert(shows_entry(rows[i], lines[i + 1]));
    }
}

} // verus!
