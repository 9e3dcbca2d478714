//! One list out of the answers of several daemons.
use vstd::prelude::*;
use vstd::string::*;

use super::json::Json;

verus! {

/// The answer of a daemon, by its name.
pub type Reply = (String, Result<Json, String>);

/// Whether an answer is a list.
pub open spec fn is_list(reply: Reply) -> bool {
    reply.1 matches Ok(Json::List(_))
}

/// The rows of an answer, each with the name of the daemon.
pub open spec fn rows_in(reply: Reply) -> Seq<(Seq<char>, Json)> {
    match reply.1 {
        Ok(Json::List(rows)) => rows@.map_values(|row: Json| (reply.0@, row)),
        _ => Seq::empty(),
    }
}

/// The rows of all answers, in order.
pub open spec fn all_rows(replies: Seq<Reply>) -> Seq<(Seq<char>, Json)>
    decreases replies.len(),
{
    if replies.len() == 0 {
        Seq::empty()
    } else {
        all_rows(replies.drop_last()) + rows_in(replies.last())
    }
}

/// The answers that are no lists, in order.
pub open spec fn complaints(replies: Seq<Reply>) -> Seq<Reply>
    decreases replies.len(),
{
    if replies.len() == 0 {
        Seq::empty()
    } else if is_list(replies.last()) {
        complaints(replies.drop_last())
    } else {
        complaints(replies.drop_last()).push(replies.last())
    }
}

/// Whether `r` is the row of a daemon in a list of several: it names the daemon,
/// its key starts with that name, and all else is as it was.
pub open spec fn tagged(name: Seq<char>, row: Json, r: Json) -> bool {
    match row {
        Json::Object(m) => {
            &&& r matches Json::Object(n)
            &&& n@.dom() == m@.dom().insert("daemon"@)
            &&& n@["daemon"@] matches Json::Text(t)
            &&& t@ == name
            &&& forall|k: Seq<char>| #[trigger]
                m@.contains_key(k) && k != "daemon"@ ==> retold(name, k, m@[k], n@[k])
        },
        _ => r == row,
    }
}

/// Whether `r` is the member `k` of a row of the daemon `name`.
pub open spec fn retold(name: Seq<char>, k: Seq<char>, v: Json, r: Json) -> bool {
    match v {
        Json::Text(t) => if k == "key"@ {
            r matches Json::Text(u) && u@ == name + "/"@ + t@
        } else {
            r == v
        },
        _ => r == v,
    }
}

/// The row of a daemon in a list of several.
fn tag(name: &str, row: Json) -> (r: Json)
    ensures
        tagged(name@, row, r),
{
    match row {
        Json::Object(m) => {
            let ghost before = m@;
            let mut n = m;
            n.insert("daemon".to_string(), Json::Text(name.to_string()));
            let key = match n.get("key") {
                Some(Json::Text(t)) => {
                    let mut key = name.to_string();
                    key.append("/");
                    key.append(t.as_str());
                    Some(key)
                },
                _ => None,
            };
            proof {
                reveal_strlit("daemon");
                reveal_strlit("key");
                assert("daemon"@.len() == 6 && "key"@.len() == 3);
            }
            if let Some(k) = key {
                n.insert("key".to_string(), Json::Text(k));
            }
            assert(n@.dom() =~= before.dom().insert("daemon"@));
            Json::Object(n)
        },
        other => other,
    }
}

/// Whether `r` are the rows of a list: each as it came, or with the name of its
/// daemon.
pub open spec fn listed(rows: Seq<(Seq<char>, Json)>, with_names: bool, r: Seq<Json>) -> bool {
    &&& r.len() == rows.len()
    &&& forall|i: int|
        0 <= i < rows.len() ==> if with_names {
            tagged((#[trigger] rows[i]).0, rows[i].1, r[i])
        } else {
            r[i] == rows[i].1
        }
}

/// One list out of all answers, and the answers that are no lists. With answers
/// from more than one daemon the rows bear the daemon's name.
pub fn merge(replies: Vec<Reply>) -> (r: (Vec<Json>, Vec<Reply>))
    ensures
        listed(all_rows(replies@), replies@.len() > 1, r.0@),
        r.1@ == complaints(replies@),
{
    let ghost all = replies@;
    let with_names = replies.len() > 1;
    let mut merged: Vec<Json> = Vec::new();
    let mut trouble: Vec<Reply> = Vec::new();
    for reply in it: replies
        invariant
            it.seq() == all,
            listed(all_rows(all.take(it.index() as int)), with_names, merged@),
            trouble@ == complaints(all.take(it.index() as int)),
    {
        let ghost i = it.index() as int;
        let ghost before = all_rows(all.take(i));
        proof {
            assert(reply == all[i]);
            assert(all.take(i + 1).drop_last() =~= all.take(i));
            assert(all.take(i + 1).last() == reply);
        }
        let ghost whole = reply;
        match reply {
            (name, Ok(Json::List(rows))) => {
                let ghost source = rows@;
                for row in inner: rows
                    invariant
                        inner.seq() == source,
                        listed(
                            before + source.take(inner.index() as int).map_values(
                                |row: Json| (name@, row),
                            ),
                            with_names,
                            merged@,
                        ),
                {
                    let ghost j = inner.index() as int;
                    let ghost was = before + source.take(j).map_values(|row: Json| (name@, row));
                    let ghost then = before + source.take(j + 1).map_values(
                        |row: Json| (name@, row),
                    );
                    proof {
                        assert(row == source[j]);
                        assert(then =~= was.push((name@, row)));
                    }
                    if with_names {
                        merged.push(tag(name.as_str(), row));
                    } else {
                        merged.push(row);
                    }
                }
                proof {
                    assert(source.take(source.len() as int) =~= source);
                    assert(rows_in(whole) =~= source.map_values(|row: Json| (name@, row)));
                }
            },
            other => {
                trouble.push(other);
                assert(rows_in(whole).len() == 0);
                assert(before + rows_in(whole) =~= before);
            },
        }
    }
    assert(all.take(all.len() as int) =~= all);
    (merged, trouble)
}

/// What is said of an answer of a daemon that has not the shape of a list;
/// `shown` is the answer as it came.
pub fn shape_complaint(name: &str, shown: &str) -> (r: String)
    ensures
        r@ == "["@ + name@ + "] unexpected response shape: "@ + shown@,
{
    let mut r = "[".to_string();
    r.append(name);
    r.append("] unexpected response shape: ");
    r.append(shown);
    r
}

/// What is said of a daemon that gave no answer.
pub fn error_complaint(name: &str, why: &str) -> (r: String)
    ensures
        r@ == "["@ + name@ + "] "@ + why@,
{
    let mut r = "[".to_string();
    r.append(name);
    r.append("] ");
    r.append(why);
    r
}

/// No answer is lost: each is in the list or complained of.
pub proof fn law_no_answer_is_lost(replies: Seq<Reply>, i: int)
    requires
        0 <= i < replies.len(),
        !is_list(replies[i]),
    ensures
        complaints(replies).contains(replies[i]),
    decreases replies.len(),
{
    if i < replies.len() - 1 {
        let init = replies.drop_last();
        law_no_answer_is_lost(init, i);
        assert(init[i] == replies[i]);
        let rest = complaints(init);
        let j = choose|j: int| 0 <= j < rest.len() && rest[j] == replies[i];
        if !is_list(replies.last()) {
            assert(rest.push(replies.last())[j] == replies[i]);
        }
    } else {
        let rest = complaints(replies.drop_last());
        assert(rest.push(replies.last())[rest.len() as int] == replies[i]);
    }
}

/// Every row of every list is shown, in the order of the answers and within each in its
/// own, and nothing else is.
pub proof fn law_rows_of_all_answers(replies: Seq<Reply>, more: Reply)
    ensures
        all_rows(Seq::empty()) == Seq::<(Seq<char>, Json)>::empty(),
        all_rows(replies.push(more)) == all_rows(replies) + rows_in(more),
        more.1 matches Ok(Json::List(rows)) ==> {
            &&& rows_in(more).len() == rows@.len()
            &&& forall|i: int|
                0 <= i < rows@.len() ==> (#[trigger] rows_in(more)[i]).0 == more.0@ && rows_in(
                    more,
                )[i].1 == rows@[i]
        },
        !(more.1 matches Ok(Json::List(_))) ==> rows_in(more).len() == 0,
        complaints(replies.push(more)) == if more.1 matches Ok(Json::List(_)) {
            complaints(replies)
        } else {
            complaints(replies).push(more)
        },
{
    assert(replies.push(more).drop_last() =~= replies);
}

/// With several daemons a row names its daemon, in a member of its own and before its
/// key, so that the key is a target that means it; every other member stays. With one
/// daemon the rows are as they came.
pub proof fn law_rows_bear_the_name(
    rows: Seq<(Seq<char>, Json)>,
    with_names: bool,
    r: Seq<Json>,
    i: int,
    k: Seq<char>,
)
    requires
        listed(rows, with_names, r),
        0 <= i < rows.len(),
    ensures
        r.len() == rows.len(),
        !with_names ==> r[i] == rows[i].1,
        with_names && !(rows[i].1 is Object) ==> r[i] == rows[i].1,
        with_names ==> (rows[i].1 matches Json::Object(m) ==> {
            &&& r[i] matches Json::Object(n)
            &&& n@.contains_key("daemon"@)
            &&& n@["daemon"@] matches Json::Text(t)
            &&& t@ == rows[i].0
            &&& k != "daemon"@ ==> (n@.contains_key(k) <==> m@.contains_key(k))
            &&& m@.contains_key(k) && k != "daemon"@ && k != "key"@ ==> n@[k] == m@[k]
            &&& m@.contains_key("key"@) ==> match m@["key"@] {
                Json::Text(key) => n@["key"@] matches Json::Text(full) && full@ == rows[i].0 + "/"@
                    + key@,
                other => n@["key"@] == other,
            }
        }),
{
    reveal_strlit("daemon");
    reveal_strlit("key");
    assert("daemon"@.len() == 6 && "key"@.len() == 3);
    if with_names {
        assert(tagged(rows[i].0, rows[i].1, r[i]));
        if let Json::Object(m) = rows[i].1 {
            let n = r[i]->Object_0;
            assert(n@.dom().contains("daemon"@));
            assert(n@.dom().contains(k) <==> m@.dom().insert("daemon"@).contains(k));
            if m@.contains_key("key"@) {
                assert(retold(rows[i].0, "key"@, m@["key"@], n@["key"@]));
            }
            if m@.contains_key(k) && k != "daemon"@ {
                assert(retold(rows[i].0, k, m@[k], n@[k]));
            }
        }
    }
}

} // verus!
