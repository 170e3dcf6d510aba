//! Which game a process belongs to, by what the system tells of processes.

use vstd::prelude::*;

use crate::error::Failure;
use crate::number::{decimal, parse, parse_number, parse_u32, NumberError};
use crate::text::{
    chars_of, same, split, split_of, split_once, split_once_of, text_of, texts, trim_end,
    trimmed_end,
};

verus! {

/// The name of a program, by the contents of the file that holds it.
pub fn read_comm(comm: &str) -> (r: String)
    ensures
        r@ == trim_end(comm@),
{
    trimmed_end(comm).to_owned()
}

/// The game that the first variable of that name gives, if it is a number.
pub open spec fn own_appid(vars: Seq<Seq<char>>) -> Option<nat>
    decreases vars.len(),
{
    if vars.len() == 0 {
        None
    } else {
        match split_once(vars.first(), '=') {
            Some((key, value)) => if key == "SteamGameId"@ {
                match parse(value, u64::MAX as nat) {
                    Ok(appid) => Some(appid),
                    Err(_) => None,
                }
            } else {
                own_appid(vars.skip(1))
            },
            None => own_appid(vars.skip(1)),
        }
    }
}

/// Where the last closing bracket with a space behind it stands among the first `n`
/// characters of `s`, if there is any.
pub open spec fn last_bracket(s: Seq<char>, n: int) -> Option<int>
    decreases n,
{
    if n < 2 {
        None
    } else if s[n - 2] == ')' && s[n - 1] == ' ' {
        Some(n - 2)
    } else {
        last_bracket(s, n - 1)
    }
}

/// What the status of a process tells of its parent. The name of the program stands in
/// brackets and may hold anything, so that only what is behind the last bracket counts. There
/// may be no parent to go on with.
pub open spec fn parent(stat: Seq<char>) -> Result<Option<nat>, Seq<char>> {
    match last_bracket(stat, stat.len() as int) {
        None => Ok(None),
        Some(i) => {
            let fields = split(stat.skip(i + 2), ' ');
            if fields.len() < 2 {
                Err("stat data invalid"@)
            } else {
                match parse(fields[1], u32::MAX as nat) {
                    Err(e) => Err(e.text()),
                    Ok(ppid) => if ppid > 1 {
                        Ok(Some(ppid))
                    } else {
                        Ok(None)
                    },
                }
            }
        },
    }
}

/// A step in finding out which game a process belongs to.
#[derive(Debug)]
pub enum AppIdStep {
    /// This is known.
    Known(Option<u64>),
    /// The status of the process has to be read.
    ReadStat,
    /// It is the game that this process belongs to.
    Parent(u32),
    /// It cannot be found out.
    Failed(Failure),
}

/// An `AppIdStep` with its numbers and words as such.
pub enum AppIdStepView {
    Known(Option<nat>),
    ReadStat,
    Parent(nat),
    Failed(Seq<char>),
}

impl View for AppIdStep {
    type V = AppIdStepView;

    open spec fn view(&self) -> AppIdStepView {
        match self {
            AppIdStep::Known(Some(appid)) => AppIdStepView::Known(Some(*appid as nat)),
            AppIdStep::Known(None) => AppIdStepView::Known(None),
            AppIdStep::ReadStat => AppIdStepView::ReadStat,
            AppIdStep::Parent(pid) => AppIdStepView::Parent(*pid as nat),
            AppIdStep::Failed(e) => AppIdStepView::Failed(e@),
        }
    }
}

/// What the environment and the status of a process tell of its game.
pub open spec fn appid_step(environ: Seq<char>, stat: Option<Seq<char>>) -> AppIdStepView {
    match (own_appid(split(environ, '\0')), stat) {
        (Some(appid), _) => AppIdStepView::Known(Some(appid)),
        (None, None) => AppIdStepView::ReadStat,
        (None, Some(stat)) => match parent(stat) {
            Ok(Some(pid)) => AppIdStepView::Parent(pid),
            Ok(None) => AppIdStepView::Known(None),
            Err(e) => AppIdStepView::Failed(e),
        },
    }
}

/// The game that the environment of a process gives.
fn environ_appid(environ: &str) -> (r: Option<u64>)
    ensures
        match (r, own_appid(split(environ@, '\0'))) {
            (Some(a), Some(b)) => a as nat == b,
            (None, None) => true,
            _ => false,
        },
{
    let vars = split_of(environ, '\0');
    let ghost all = texts(vars@);
    let mut i: usize = 0;
    assert(all.skip(0) =~= all);
    while i < vars.len()
        invariant
            i <= vars.len(),
            all == texts(vars@),
            all == split(environ@, '\0'),
            own_appid(all.skip(i as int)) == own_appid(all),
        decreases vars.len() - i,
    {
        assert(all.skip(i as int).first() == vars@[i as int]@);
        assert(all.skip(i as int).skip(1) =~= all.skip(i + 1));
        if let Some((key, value)) = split_once_of(vars[i].as_str(), '=') {
            if same(key, "SteamGameId") {
                return match parse_number(value, u64::MAX) {
                    Ok(appid) => Some(appid),
                    Err(_) => None,
                };
            }
        }
        i += 1;
    }
    None
}

/// What the status of a process tells of its parent.
fn stat_parent(stat: &str) -> (r: Result<Option<u32>, Failure>)
    ensures
        match (r, parent(stat@)) {
            (Ok(Some(a)), Ok(Some(b))) => a as nat == b,
            (Ok(None), Ok(None)) => true,
            (Err(a), Err(b)) => a@ == b,
            _ => false,
        },
{
    let v = chars_of(stat);
    let mut n: usize = v.len();
    while n >= 2
        invariant
            n <= v.len(),
            v@ == stat@,
            last_bracket(stat@, n as int) == last_bracket(stat@, stat@.len() as int),
        decreases n,
    {
        if v[n - 2] == ')' && v[n - 1] == ' ' {
            let rest = text_of(&v, n, v.len());
            assert(rest@ =~= stat@.skip(n as int));
            let fields = split_of(rest.as_str(), ' ');
            assert(texts(fields@).len() == fields@.len());
            if fields.len() < 2 {
                return Err(Failure::new("stat data invalid"));
            }
            assert(texts(fields@)[1] == fields@[1]@);
            return match parse_u32(fields[1].as_str()) {
                Ok(ppid) => if ppid > 1 {
                    Ok(Some(ppid))
                } else {
                    Ok(None)
                },
                Err(e) => Err(Failure::new(e.message())),
            };
        }
        n -= 1;
    }
    Ok(None)
}

/// What the environment of a process and, where it has been read, its status tell of the game
/// that it belongs to.
pub fn get_appid(environ: &str, stat: Option<&str>) -> (r: AppIdStep)
    ensures
        r@ == appid_step(
            environ@,
            match stat {
                Some(stat) => Some(stat@),
                None => None,
            },
        ),
{
    if let Some(appid) = environ_appid(environ) {
        return AppIdStep::Known(Some(appid));
    }
    match stat {
        None => AppIdStep::ReadStat,
        Some(stat) => match stat_parent(stat) {
            Ok(Some(pid)) => AppIdStep::Parent(pid),
            Ok(None) => AppIdStep::Known(None),
            Err(e) => AppIdStep::Failed(e),
        },
    }
}

/// The processes of a system: their environments and their statuses.
pub type Processes = Map<nat, (Seq<char>, Seq<char>)>;

/// Whether `chain` leads from a process to its parent, and so on, through processes without a
/// game of their own.
pub open spec fn ancestors(processes: Processes, chain: Seq<nat>) -> bool {
    forall|i: int|
        0 <= i < chain.len() - 1 ==> processes.contains_key(#[trigger] chain[i]) && appid_step(
            processes[chain[i]].0,
            Some(processes[chain[i]].1),
        ) == AppIdStepView::Parent(chain[i + 1])
}

/// What is known of the game of a process after following parents for at most `steps` steps.
pub open spec fn appid_of(processes: Processes, pid: nat, steps: nat) -> AppIdStepView
    decreases steps,
{
    let step = appid_step(processes[pid].0, Some(processes[pid].1));
    match step {
        AppIdStepView::Parent(parent) => if steps == 0 {
            step
        } else {
            appid_of(processes, parent, (steps - 1) as nat)
        },
        _ => step,
    }
}

/// A process belongs to the game of the nearest ancestor that has one.
pub proof fn law_appid_inherited(processes: Processes, chain: Seq<nat>, appid: nat)
    requires
        chain.len() > 0,
        ancestors(processes, chain),
        own_appid(split(processes[chain.last()].0, '\0')) == Some(appid),
    ensures
        appid_of(processes, chain.first(), (chain.len() - 1) as nat) == AppIdStepView::Known(
            Some(appid),
        ),
    decreases chain.len(),
{
    if chain.len() > 1 {
        let rest = chain.skip(1);
        assert forall|i: int| 0 <= i < rest.len() - 1 implies processes.contains_key(
            #[trigger] rest[i],
        ) && appid_step(processes[rest[i]].0, Some(processes[rest[i]].1))
            == AppIdStepView::Parent(rest[i + 1]) by {
            assert(rest[i] == chain[i + 1]);
            assert(rest[i + 1] == chain[i + 2]);
        }
        assert(rest.last() == chain.last());
        law_appid_inherited(processes, rest, appid);
        assert(rest.first() == chain[1]);
        assert(chain.first() == chain[0]);
    }
}

proof fn lemma_last_bracket(s: Seq<char>, i: int, n: int)
    requires
        0 <= i,
        i + 2 <= n <= s.len(),
        s[i] == ')',
        s[i + 1] == ' ',
        forall|k: int| i < k < n - 1 ==> !(#[trigger] s[k] == ')' && s[k + 1] == ' '),
    ensures
        last_bracket(s, n) == Some(i),
    decreases n,
{
    if n > i + 2 {
        assert(!(s[n - 2] == ')' && s[n - 1] == ' '));
        lemma_last_bracket(s, i, n - 1);
    }
}

/// The parent of a process does not depend on what stands up to the bracket that closes the
/// name of its program, however many brackets the name holds.
pub proof fn law_parent_ignores_name(a: Seq<char>, b: Seq<char>, rest: Seq<char>)
    requires
        forall|k: int|
            0 <= k < rest.len() - 1 ==> !(#[trigger] rest[k] == ')' && rest[k + 1] == ' '),
    ensures
        parent(a + seq![')', ' '] + rest) == parent(b + seq![')', ' '] + rest),
{
    let s = a + seq![')', ' '] + rest;
    let t = b + seq![')', ' '] + rest;
    assert forall|k: int| a.len() < k < s.len() - 1 implies !(#[trigger] s[k] == ')' && s[k + 1]
        == ' ') by {
        if k >= a.len() + 2 {
            assert(s[k] == rest[k - a.len() - 2]);
            assert(s[k + 1] == rest[k + 1 - a.len() - 2]);
        }
    }
    assert forall|k: int| b.len() < k < t.len() - 1 implies !(#[trigger] t[k] == ')' && t[k + 1]
        == ' ') by {
        if k >= b.len() + 2 {
            assert(t[k] == rest[k - b.len() - 2]);
            assert(t[k + 1] == rest[k + 1 - b.len() - 2]);
        }
    }
    lemma_last_bracket(s, a.len() as int, s.len() as int);
    lemma_last_bracket(t, b.len() as int, t.len() as int);
    assert(s.skip(a.len() as int + 2) =~= rest);
    assert(t.skip(b.len() as int + 2) =~= rest);
}

/// A process has the game that the first variable of that name gives, if it gives a number; a
/// later variable of that name does not count, nor does any other variable.
pub proof fn law_own_appid(vars: Seq<Seq<char>>, i: int, value: Seq<char>)
    requires
        0 <= i <= vars.len(),
        forall|j: int| 0 <= j < i ==> !"SteamGameId="@.is_prefix_of(#[trigger] vars[j]),
        i < vars.len() ==> vars[i] == "SteamGameId="@ + value,
    ensures
        i < vars.len() ==> own_appid(vars) == (match parse(value, u64::MAX as nat) {
            Ok(appid) => Some(appid),
            Err(_) => None,
        }),
        i == vars.len() ==> own_appid(vars) is None,
    decreases i,
{
    reveal_strlit("SteamGameId=");
    reveal_strlit("SteamGameId");
    if i > 0 {
        assert(!"SteamGameId="@.is_prefix_of(vars[0]));
        lemma_other_variable(vars[0]);
        let rest = vars.skip(1);
        assert forall|j: int| 0 <= j < i - 1 implies !"SteamGameId="@.is_prefix_of(
            #[trigger] rest[j],
        ) by {
            assert(rest[j] == vars[j + 1]);
        }
        if i < vars.len() {
            assert(rest[i - 1] == vars[i]);
        }
        law_own_appid(rest, i - 1, value);
    } else if vars.len() > 0 {
        let var = vars.first();
        assert(var =~= "SteamGameId"@ + seq!['='] + value);
        crate::text::law_split("SteamGameId"@, '=', value);
    }
}

proof fn lemma_other_variable(var: Seq<char>)
    requires
        !"SteamGameId="@.is_prefix_of(var),
    ensures
        match split_once(var, '=') {
            Some((key, _)) => key != "SteamGameId"@,
            None => true,
        },
{
    reveal_strlit("SteamGameId=");
    reveal_strlit("SteamGameId");
    crate::text::lemma_find(var, '=');
    match split_once(var, '=') {
        Some((key, _)) => {
            if key == "SteamGameId"@ {
                let i = crate::text::find(var, '=');
                assert(key == var.take(i));
                assert(key.len() == i);
                assert(i == 11);
                assert(var.subrange(0, 12) =~= key.push('='));
                assert(var.subrange(0, 12) =~= "SteamGameId="@);
            }
        },
        None => {},
    }
}

/// The parent of a process is the number that stands as the second field behind the name of its
/// program, whatever follows; the first process and none are no parents to go on with.
pub proof fn law_parent_read(head: Seq<char>, state: Seq<char>, ppid: u32, rest: Seq<char>)
    requires
        forall|k: int| 0 <= k < state.len() ==> state[k] != ' ' && state[k] != ')',
        forall|k: int| 0 <= k < rest.len() ==> rest[k] != ')',
        rest.len() > 0 ==> rest.first() == ' ',
    ensures
        ({
            let stat = head + seq![')', ' '] + (state + seq![' '] + (decimal(ppid as nat) + rest));
            parent(stat) == Ok::<Option<nat>, Seq<char>>(
                if ppid > 1 {
                    Some(ppid as nat)
                } else {
                    None
                },
            )
        }),
{
    let d = decimal(ppid as nat);
    crate::number::lemma_decimal_digits(ppid as nat);
    crate::number::law_decimal_read_back(ppid as nat, u32::MAX as nat);
    let tail = state + seq![' '] + (d + rest);
    let stat = head + seq![')', ' '] + tail;
    assert forall|k: int| 0 <= k < d.len() implies d[k] != ' ' && d[k] != ')' by {
        assert(crate::number::is_digit(d[k]));
    }
    assert forall|k: int| 0 <= k < tail.len() implies tail[k] != ')' by {
        if k < state.len() {
            assert(tail[k] == state[k]);
        } else if k > state.len() {
            let m = k - state.len() - 1;
            assert(tail[k] == (d + rest)[m]);
            if m < d.len() {
                assert((d + rest)[m] == d[m]);
            } else {
                assert((d + rest)[m] == rest[m - d.len()]);
            }
        }
    }
    assert forall|k: int| head.len() < k < stat.len() - 1 implies !(#[trigger] stat[k] == ')'
        && stat[k + 1] == ' ') by {
        if k >= head.len() + 2 {
            assert(stat[k] == tail[k - head.len() - 2]);
        }
    }
    lemma_last_bracket(stat, head.len() as int, stat.len() as int);
    assert(stat.skip(head.len() as int + 2) =~= tail);
    crate::text::law_split(state, ' ', d + rest);
    if rest.len() > 0 {
        assert(d + rest =~= d + seq![' '] + rest.skip(1));
        crate::text::law_split(d, ' ', rest.skip(1));
    } else {
        assert(d + rest =~= d);
        crate::text::law_split(d, ' ', rest);
    }
    let fields = split(tail, ' ');
    assert(fields[1] == d);
}

/// A game of its own goes before that of a parent, and needs no status; without one, the status
/// is read and tells the parent, the lack of one, or why it cannot be told.
pub proof fn law_appid_steps(environ: Seq<char>, stat: Seq<char>)
    ensures
        own_appid(split(environ, '\0')) is Some ==> appid_step(environ, None)
            == AppIdStepView::Known(own_appid(split(environ, '\0'))) && appid_step(
            environ,
            Some(stat),
        ) == AppIdStepView::Known(own_appid(split(environ, '\0'))),
        own_appid(split(environ, '\0')) is None ==> {
            &&& appid_step(environ, None) is ReadStat
            &&& parent(stat) is Err ==> appid_step(environ, Some(stat)) == AppIdStepView::Failed(
                parent(stat)->Err_0,
            )
            &&& parent(stat) is Ok && parent(stat)->Ok_0 is Some ==> appid_step(environ, Some(stat))
                == AppIdStepView::Parent(parent(stat)->Ok_0->0)
            &&& parent(stat) is Ok && parent(stat)->Ok_0 is None ==> appid_step(environ, Some(stat))
                == AppIdStepView::Known(None)
        },
{
}

/// A status without a bracket that is closed and followed by a space tells of no parent.
pub proof fn law_no_parent_without_bracket(stat: Seq<char>)
    requires
        forall|k: int| 0 <= k < stat.len() - 1 ==> !(#[trigger] stat[k] == ')' && stat[k + 1] == ' '),
    ensures
        parent(stat) == Ok::<Option<nat>, Seq<char>>(None),
{
    lemma_no_bracket(stat, stat.len() as int);
}

proof fn lemma_no_bracket(s: Seq<char>, n: int)
    requires
        0 <= n <= s.len(),
        forall|k: int| 0 <= k < s.len() - 1 ==> !(#[trigger] s[k] == ')' && s[k + 1] == ' '),
    ensures
        last_bracket(s, n) is None,
    decreases n,
{
    if n >= 2 {
        assert(!(s[n - 2] == ')' && s[n - 1] == ' '));
        lemma_no_bracket(s, n - 1);
    }
}

/// A status whose second field behind the name of the program is no number is an error with the
/// reason; one that ends before that field is invalid.
pub proof fn law_parent_unreadable(
    head: Seq<char>,
    state: Seq<char>,
    word: Seq<char>,
    rest: Seq<char>,
    reason: NumberError,
)
    requires
        forall|k: int| 0 <= k < state.len() ==> state[k] != ' ' && state[k] != ')',
        forall|k: int| 0 <= k < word.len() ==> word[k] != ' ' && word[k] != ')',
        forall|k: int| 0 <= k < rest.len() ==> rest[k] != ')',
        rest.len() > 0 ==> rest.first() == ' ',
        parse(word, u32::MAX as nat) == Err::<nat, NumberError>(reason),
    ensures
        parent(head + seq![')', ' '] + (state + seq![' '] + (word + rest))) == Err::<
            Option<nat>,
            Seq<char>,
        >(reason.text()),
        parent(head + seq![')', ' '] + state) == Err::<Option<nat>, Seq<char>>(
            "stat data invalid"@,
        ),
{
    let tail = state + seq![' '] + (word + rest);
    let stat = head + seq![')', ' '] + tail;
    assert forall|k: int| 0 <= k < tail.len() implies tail[k] != ')' by {
        if k < state.len() {
            assert(tail[k] == state[k]);
        } else if k > state.len() {
            let m = k - state.len() - 1;
            assert(tail[k] == (word + rest)[m]);
            if m < word.len() {
                assert((word + rest)[m] == word[m]);
            } else {
                assert((word + rest)[m] == rest[m - word.len()]);
            }
        }
    }
    lemma_bracket_before(head, tail);
    lemma_bracket_before(head, state);
    assert(stat.skip(head.len() as int + 2) =~= tail);
    let short = head + seq![')', ' '] + state;
    assert(short.skip(head.len() as int + 2) =~= state);
    crate::text::law_split(state, ' ', word + rest);
    if rest.len() > 0 {
        assert(word + rest =~= word + seq![' '] + rest.skip(1));
        crate::text::law_split(word, ' ', rest.skip(1));
    } else {
        assert(word + rest =~= word);
        crate::text::law_split(word, ' ', rest);
    }
    let fields = split(tail, ' ');
    assert(fields[1] == word);
}

proof fn lemma_bracket_before(head: Seq<char>, tail: Seq<char>)
    requires
        forall|k: int| 0 <= k < tail.len() ==> tail[k] != ')',
    ensures
        ({
            let s = head + seq![')', ' '] + tail;
            last_bracket(s, s.len() as int) == Some(head.len() as int)
        }),
{
    let s = head + seq![')', ' '] + tail;
    assert forall|k: int| head.len() < k < s.len() - 1 implies !(#[trigger] s[k] == ')' && s[k + 1]
        == ' ') by {
        if k >= head.len() + 2 {
            assert(s[k] == tail[k - head.len() - 2]);
        }
    }
    lemma_last_bracket(s, head.len() as int, s.len() as int);
}

} // verus!
