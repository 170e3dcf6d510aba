//! Events of the kernel that are worth the log submitter's attention.

use vstd::prelude::*;

use crate::error::Failure;
use crate::number::{
    decimal, law_decimal_read_back, lemma_decimal_digits, parse, parse_u32,
};
use crate::text::{chars_of, lemma_find_is, same, split_once, split_once_of, text_of};

verus! {

/// The directory of the tracing instance.
pub const BASE: &'static str = "/sys/kernel/tracing/instances/steamos-log-submitter";

/// What stands behind the last space of `s`.
pub open spec fn last_word(s: Seq<char>) -> Seq<char>
    decreases s.len(),
{
    if s.len() == 0 || s.last() == ' ' {
        seq![]
    } else {
        last_word(s.drop_last()).push(s.last())
    }
}

/// The process that an event is about: its last word gives the number of the process, or says
/// nothing of one.
pub open spec fn event_pid(line: Seq<char>) -> Result<Option<nat>, Seq<char>> {
    match split_once(last_word(line), '=') {
        Some((key, value)) => if key == "pid"@ {
            match parse(value, u32::MAX as nat) {
                Ok(pid) => Ok(Some(pid)),
                Err(e) => Err(e.text()),
            }
        } else {
            Ok(None)
        },
        None => Ok(None),
    }
}

/// What goes along with an event.
#[derive(Debug)]
pub struct TraceData {
    /// The name of the program.
    pub comm: Option<String>,
    /// The game that the process belongs to.
    pub appid: Option<u64>,
}

/// The tracing of the kernel's events.
pub struct Ftrace {}

impl Ftrace {
    /// What to write to which files of the tracing instance, in order; the first that fails
    /// ends it.
    pub fn setup_traces() -> (r: Vec<(&'static str, &'static str)>)
        ensures
            r@.len() == 3,
            r@[0].0@ == "events/oom/mark_victim/enable"@ && r@[0].1@ == "1"@,
            r@[1].0@ == "set_ftrace_filter"@ && r@[1].1@ == "split_lock_warn"@,
            r@[2].0@ == "current_tracer"@ && r@[2].1@ == "function"@,
    {
        vec![
            ("events/oom/mark_victim/enable", "1"),
            ("set_ftrace_filter", "split_lock_warn"),
            ("current_tracer", "function"),
        ]
    }

    /// What goes along with an event about a process, by what could be found out about it.
    pub fn handle_pid(
        comm: Result<String, Failure>,
        appid: Result<Option<u64>, Failure>,
    ) -> (r: TraceData)
        ensures
            r.comm == (match comm {
                Ok(comm) => Some(comm),
                Err(_) => None,
            }),
            r.appid == (match appid {
                Ok(appid) => appid,
                Err(_) => None,
            }),
    {
        let comm = match comm {
            Ok(comm) => Some(comm),
            Err(_) => None,
        };
        let appid = match appid {
            Ok(appid) => appid,
            Err(_) => None,
        };
        TraceData { comm, appid }
    }

    /// What goes along with an event that is about no process.
    pub fn no_data() -> (r: TraceData)
        ensures
            r.comm is None,
            r.appid is None,
    {
        TraceData { comm: None, appid: None }
    }

    /// The process that an event is about, if it is about one. A number that cannot be read is
    /// an error, and the event is then not forwarded.
    pub fn handle_event(line: &str) -> (r: Result<Option<u32>, Failure>)
        ensures
            match (r, event_pid(line@)) {
                (Ok(Some(a)), Ok(Some(b))) => a as nat == b,
                (Ok(None), Ok(None)) => true,
                (Err(a), Err(b)) => a@ == b,
                _ => false,
            },
    {
        let v = chars_of(line);
        let mut n: usize = v.len();
        assert(line@.take(n as int) =~= line@);
        assert(line@.subrange(n as int, v.len() as int) =~= seq![]);
        while n > 0 && v[n - 1] != ' '
            invariant
                v@ == line@,
                n <= v.len(),
                last_word(line@) =~= last_word(line@.take(n as int)) + line@.subrange(
                    n as int,
                    v.len() as int,
                ),
            decreases n,
        {
            proof {
                let s = line@.take(n as int);
                assert(s.drop_last() =~= line@.take(n - 1));
                assert(last_word(s) + line@.subrange(n as int, v.len() as int) =~= last_word(
                    line@.take(n - 1),
                ) + line@.subrange(n - 1, v.len() as int));
            }
            n -= 1;
        }
        let word = text_of(&v, n, v.len());
        assert(last_word(line@.take(n as int)) =~= seq![]);
        assert(word@ =~= last_word(line@));
        if let Some((key, value)) = split_once_of(word.as_str(), '=') {
            if same(key, "pid") {
                return match parse_u32(value) {
                    Ok(pid) => Ok(Some(pid)),
                    Err(e) => Err(Failure::new(e.message())),
                };
            }
        }
        Ok(None)
    }
}

proof fn lemma_last_word(head: Seq<char>, word: Seq<char>)
    requires
        head.len() > 0 ==> head.last() == ' ',
        forall|k: int| 0 <= k < word.len() ==> word[k] != ' ',
    ensures
        last_word(head + word) == word,
    decreases word.len(),
{
    let s = head + word;
    if word.len() == 0 {
        assert(s =~= head);
        assert(last_word(s) =~= word);
    } else {
        assert(s.drop_last() =~= head + word.drop_last());
        assert(s.last() == word.last());
        lemma_last_word(head, word.drop_last());
        assert(last_word(s) =~= word);
    }
}

/// An event whose last word names a process is about that process, whatever stands before.
pub proof fn law_event_pid(head: Seq<char>, pid: u32)
    requires
        head.len() > 0 ==> head.last() == ' ',
    ensures
        event_pid(head + ("pid="@ + decimal(pid as nat))) == Ok::<Option<nat>, Seq<char>>(
            Some(pid as nat),
        ),
{
    let d = decimal(pid as nat);
    lemma_decimal_digits(pid as nat);
    law_decimal_read_back(pid as nat, u32::MAX as nat);
    reveal_strlit("pid=");
    reveal_strlit("pid");
    let word = "pid="@ + d;
    assert forall|k: int| 0 <= k < word.len() implies word[k] != ' ' by {
        if k >= 4 {
            assert(word[k] == d[k - 4]);
        }
    }
    lemma_last_word(head, word);
    lemma_find_is(word, '=', 3);
    assert(word.take(3) =~= "pid"@);
    assert(word.skip(4) =~= d);
}

/// An event is about no process if its last word names none, and cannot be forwarded if the
/// number there cannot be read. Words before the last do not matter.
pub proof fn law_event_without_pid(head: Seq<char>, word: Seq<char>, value: Seq<char>)
    requires
        head.len() > 0 ==> head.last() == ' ',
        forall|k: int| 0 <= k < word.len() ==> word[k] != ' ',
        forall|k: int| 0 <= k < value.len() ==> value[k] != ' ',
    ensures
        !"pid="@.is_prefix_of(word) ==> event_pid(head + word) == Ok::<Option<nat>, Seq<char>>(
            None,
        ),
        parse(value, u32::MAX as nat) is Err ==> event_pid(head + ("pid="@ + value)) is Err,
{
    reveal_strlit("pid=");
    reveal_strlit("pid");
    lemma_last_word(head, word);
    crate::text::lemma_find(word, '=');
    if !"pid="@.is_prefix_of(word) {
        match split_once(word, '=') {
            Some((key, rest)) => {
                if key == "pid"@ {
                    let i = crate::text::find(word, '=');
                    assert(key == word.take(i));
                    assert(key.len() == i);
                    assert(i == 3);
                    assert(word[0] == key[0] && word[1] == key[1] && word[2] == key[2]);
                    assert(word.subrange(0, 4) =~= "pid="@);
                }
            },
            None => {},
        }
    }
    let w = "pid="@ + value;
    assert forall|k: int| 0 <= k < w.len() implies w[k] != ' ' by {
        if k >= 4 {
            assert(w[k] == value[k - 4]);
        }
    }
    lemma_last_word(head, w);
    lemma_find_is(w, '=', 3);
    assert(w.take(3) =~= "pid"@);
    assert(w.skip(4) =~= value);
}

} // verus!
