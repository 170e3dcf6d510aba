//! Forwarding of messages to the log submitter.

use vstd::prelude::*;
use vstd::string::*;

use crate::text::{chars_of, starts_with, text_of, texts};

pub mod ftrace;

verus! {

/// How much a message matters.
#[derive(Clone, Copy, Debug, PartialEq, Eq, Structural)]
pub enum Level {
    Trace,
    Debug,
    Info,
    Warn,
    Error,
}

/// The number of a level for the log submitter.
pub open spec fn level_number(level: Level) -> u32 {
    match level {
        Level::Trace => 10,
        Level::Debug => 10,
        Level::Info => 20,
        Level::Warn => 30,
        Level::Error => 40,
    }
}

/// The index of the first two colons in a row in `s`, or the length of `s`.
pub open spec fn find_colons(s: Seq<char>) -> int
    decreases s.len(),
{
    if s.len() < 2 {
        s.len() as int
    } else if s[0] == ':' && s[1] == ':' {
        0
    } else {
        1 + find_colons(s.skip(1))
    }
}

/// The parts of `s` between two colons in a row.
pub open spec fn split_colons(s: Seq<char>) -> Seq<Seq<char>>
    decreases s.len(),
    via split_colons_shrink
{
    if find_colons(s) < s.len() {
        seq![s.take(find_colons(s))] + split_colons(s.skip(find_colons(s) + 2))
    } else {
        seq![s]
    }
}

#[via_fn]
proof fn split_colons_shrink(s: Seq<char>) {
    lemma_find_colons(s);
}

proof fn lemma_find_colons(s: Seq<char>)
    ensures
        0 <= find_colons(s) <= s.len(),
        find_colons(s) < s.len() ==> find_colons(s) + 1 < s.len() && s[find_colons(s)] == ':'
            && s[find_colons(s) + 1] == ':',
    decreases s.len(),
{
    if s.len() >= 2 && !(s[0] == ':' && s[1] == ':') {
        lemma_find_colons(s.skip(1));
    }
}

/// The parts, each behind a dot, behind `head`.
pub open spec fn dotted(head: Seq<char>, parts: Seq<Seq<char>>) -> Seq<char>
    decreases parts.len(),
{
    if parts.len() == 0 {
        head
    } else {
        dotted(head, parts.drop_last()) + "."@ + parts.last()
    }
}

/// The module of a message for the log submitter, by the message's target. Messages that are
/// not about the log submitter are not forwarded.
pub open spec fn log_module(target: Seq<char>) -> Option<Seq<char>> {
    if "steamos_workerd::sls"@.is_prefix_of(target) {
        let parts = split_colons(target);
        Some(
            dotted(
                "steamos_workerd"@,
                if parts.len() > 2 {
                    parts.skip(2)
                } else {
                    seq![]
                },
            ),
        )
    } else {
        None
    }
}

/// Where the first two colons in a row stand from `from` on.
fn colons_from(v: &Vec<char>, from: usize) -> (r: usize)
    requires
        from <= v.len(),
    ensures
        from <= r <= v.len(),
        r == from + find_colons(v@.skip(from as int)),
        r < v.len() ==> r + 1 < v.len(),
{
    let mut i: usize = from;
    let ghost whole = v@.skip(from as int);
    assert(whole.skip(0) =~= whole);
    while v.len() - i >= 2 && !(v[i] == ':' && v[i + 1] == ':')
        invariant
            from <= i <= v.len(),
            whole == v@.skip(from as int),
            find_colons(whole) == (i - from) + find_colons(v@.skip(i as int)),
        decreases v.len() - i,
    {
        assert(v@.skip(i as int).skip(1) =~= v@.skip(i + 1));
        assert(v@.skip(i as int)[0] == v@[i as int]);
        assert(v@.skip(i as int)[1] == v@[i + 1]);
        i += 1;
    }
    if v.len() - i >= 2 {
        assert(v@.skip(i as int)[0] == v@[i as int]);
        assert(v@.skip(i as int)[1] == v@[i + 1]);
        i
    } else {
        v.len()
    }
}

/// The parts of `s` between two colons in a row.
fn split_colons_of(s: &str) -> (r: Vec<String>)
    ensures
        texts(r@) == split_colons(s@),
{
    let v = chars_of(s);
    let mut r: Vec<String> = Vec::new();
    let mut i: usize = 0;
    let mut j: usize = colons_from(&v, 0);
    assert(s@.skip(0) =~= s@);
    assert(texts(r@) + split_colons(s@) =~= split_colons(s@));
    while j < v.len()
        invariant
            v@ == s@,
            i <= j <= v.len(),
            j < v.len() ==> j + 1 < v.len(),
            j == i + find_colons(s@.skip(i as int)),
            texts(r@) + split_colons(s@.skip(i as int)) == split_colons(s@),
        decreases v.len() - j,
    {
        let ghost rest = s@.skip(i as int);
        let ghost done = texts(r@);
        let part = text_of(&v, i, j);
        proof {
            assert(part@ =~= rest.take(j - i));
            assert(rest.skip(j - i + 2) =~= s@.skip(j + 2));
        }
        r.push(part);
        i = j + 2;
        j = colons_from(&v, i);
        assert(texts(r@) =~= done.push(part@));
        assert(texts(r@) + split_colons(s@.skip(i as int)) =~= done + split_colons(rest));
    }
    let ghost done = texts(r@);
    let part = text_of(&v, i, v.len());
    assert(part@ =~= s@.skip(i as int));
    r.push(part);
    assert(texts(r@) =~= done + seq![part@]);
    r
}

/// Forwards messages to the log submitter.
pub struct LogLayer {}

impl LogLayer {
    /// The number of a level for the log submitter.
    pub fn level(level: Level) -> (r: u32)
        ensures
            r == level_number(level),
    {
        match level {
            Level::Trace => 10,
            Level::Debug => 10,
            Level::Info => 20,
            Level::Warn => 30,
            Level::Error => 40,
        }
    }

    /// The module of a message for the log submitter, by the message's target, or `None` if
    /// the message is not forwarded.
    pub fn on_event(target: &str) -> (r: Option<String>)
        ensures
            match (r, log_module(target@)) {
                (Some(a), Some(b)) => a@ == b,
                (None, None) => true,
                _ => false,
            },
    {
        if !starts_with(target, "steamos_workerd::sls") {
            // Don't forward logs that are not about the log submitter
            return None;
        }
        let parts = split_colons_of(target);
        let ghost all = texts(parts@);
        let ghost tail = if all.len() > 2 {
            all.skip(2)
        } else {
            seq![]
        };
        let mut module = "steamos_workerd".to_owned();
        let mut i: usize = 2;
        while i < parts.len()
            invariant
                2 <= i,
                all == texts(parts@),
                all.len() == parts.len(),
                all.len() > 2 ==> tail == all.skip(2) && i <= parts.len(),
                all.len() <= 2 ==> tail == Seq::<Seq<char>>::empty() && i == 2,
                module@ == dotted("steamos_workerd"@, tail.take(i - 2)),
            decreases parts.len() - i,
        {
            let ghost upto = tail.take(i - 1);
            assert(upto.drop_last() =~= tail.take(i - 2));
            assert(upto.last() == parts@[i as int]@);
            module.append(".");
            module.append(parts[i].as_str());
            i += 1;
        }
        assert(tail.take(i - 2) =~= tail);
        Some(module)
    }
}

/// Whether a message is forwarded depends on the start of its target alone, and the module of
/// a message that is forwarded starts with the name of the program.
pub proof fn law_log_module_prefix(target: Seq<char>)
    ensures
        log_module(target) is Some <==> "steamos_workerd::sls"@.is_prefix_of(target),
        log_module(target) is Some ==> "steamos_workerd"@.is_prefix_of(log_module(target)->0),
{
    let parts = split_colons(target);
    lemma_dotted_prefix(
        "steamos_workerd"@,
        if parts.len() > 2 {
            parts.skip(2)
        } else {
            seq![]
        },
    );
}

proof fn lemma_dotted_prefix(head: Seq<char>, parts: Seq<Seq<char>>)
    ensures
        head.is_prefix_of(dotted(head, parts)),
    decreases parts.len(),
{
    let s = dotted(head, parts);
    if parts.len() > 0 {
        lemma_dotted_prefix(head, parts.drop_last());
        assert(s.subrange(0, head.len() as int) =~= dotted(head, parts.drop_last()).subrange(
            0,
            head.len() as int,
        ));
    } else {
        assert(s.subrange(0, head.len() as int) =~= head);
    }
}

/// A target is taken apart at the first two colons in a row, and the rest in the same way.
pub proof fn law_split_colons(a: Seq<char>, b: Seq<char>)
    requires
        forall|k: int| 0 <= k < a.len() ==> a[k] != ':',
    ensures
        split_colons(a + seq![':', ':'] + b) == seq![a] + split_colons(b),
        split_colons(a) == seq![a],
{
    lemma_colons_at(a, b);
    let s = a + seq![':', ':'] + b;
    assert(s.take(a.len() as int) =~= a);
    assert(s.skip(a.len() as int + 2) =~= b);
    lemma_no_colons(a);
}

proof fn lemma_colons_at(a: Seq<char>, b: Seq<char>)
    requires
        forall|k: int| 0 <= k < a.len() ==> a[k] != ':',
    ensures
        find_colons(a + seq![':', ':'] + b) == a.len(),
    decreases a.len(),
{
    let s = a + seq![':', ':'] + b;
    if a.len() > 0 {
        assert(s[0] == a[0]);
        assert(s.skip(1) =~= a.skip(1) + seq![':', ':'] + b);
        lemma_colons_at(a.skip(1), b);
    } else {
        assert(s[0] == ':' && s[1] == ':');
    }
}

proof fn lemma_no_colons(a: Seq<char>)
    requires
        forall|k: int| 0 <= k < a.len() ==> a[k] != ':',
    ensures
        find_colons(a) == a.len(),
    decreases a.len(),
{
    if a.len() >= 2 {
        lemma_no_colons(a.skip(1));
    }
}

/// The module of a message is the program's name and, each behind a dot, the parts of the target
/// behind the first two: for every part, of one or of two such parts.
pub proof fn law_log_module_parts(a: Seq<char>, b: Seq<char>)
    requires
        forall|k: int| 0 <= k < a.len() ==> a[k] != ':',
        forall|k: int| 0 <= k < b.len() ==> b[k] != ':',
    ensures
        log_module("steamos_workerd::sls"@) == Some("steamos_workerd"@),
        log_module("steamos_workerd::sls"@ + seq![':', ':'] + a) == Some(
            "steamos_workerd"@ + "."@ + a,
        ),
        log_module("steamos_workerd::sls"@ + seq![':', ':'] + (a + seq![':', ':'] + b)) == Some(
            "steamos_workerd"@ + "."@ + a + "."@ + b,
        ),
{
    reveal_strlit("steamos_workerd::sls");
    reveal_strlit("steamos_workerd");
    reveal_strlit("sls");
    let head = "steamos_workerd::sls"@;
    let x = "steamos_workerd"@;
    let y = "sls"@;
    assert(head =~= x + seq![':', ':'] + y);
    law_split_colons(x, y);
    law_split_colons(y, a);
    law_split_colons(a, b);
    law_split_colons(b, a);
    assert(split_colons(head) =~= seq![x, y]);
    assert(head.subrange(0, head.len() as int) =~= head);
    let one = head + seq![':', ':'] + a;
    assert(one =~= x + seq![':', ':'] + (y + seq![':', ':'] + a));
    law_split_colons(x, y + seq![':', ':'] + a);
    assert(split_colons(one) =~= seq![x, y, a]);
    assert(one.subrange(0, head.len() as int) =~= head);
    assert(seq![x, y, a].skip(2) =~= seq![a]);
    assert(seq![a].drop_last() =~= Seq::<Seq<char>>::empty());
    let ab = a + seq![':', ':'] + b;
    let two = head + seq![':', ':'] + ab;
    assert(two =~= x + seq![':', ':'] + (y + seq![':', ':'] + ab));
    law_split_colons(x, y + seq![':', ':'] + ab);
    law_split_colons(y, ab);
    assert(split_colons(two) =~= seq![x, y, a, b]);
    assert(two.subrange(0, head.len() as int) =~= head);
    assert(seq![x, y, a, b].skip(2) =~= seq![a, b]);
    assert(seq![a, b].drop_last() =~= seq![a]);
    reveal_with_fuel(dotted, 3);
}

/// One more part of the target is one more part of the module, behind a dot, however many there
/// are already.
pub proof fn law_log_module_next(target: Seq<char>, part: Seq<char>)
    requires
        "steamos_workerd::sls"@.is_prefix_of(target),
        target.last() != ':',
        forall|k: int| 0 <= k < part.len() ==> part[k] != ':',
    ensures
        log_module(target) is Some,
        log_module(target + seq![':', ':'] + part) == Some(log_module(target)->0 + "."@ + part),
{
    reveal_strlit("steamos_workerd::sls");
    let head = "steamos_workerd::sls"@;
    let longer = target + seq![':', ':'] + part;
    assert(longer.subrange(0, head.len() as int) =~= target.subrange(0, head.len() as int));
    lemma_split_colons_push(target, part);
    let parts = split_colons(target);
    lemma_two_parts(target);
    assert(split_colons(longer) == parts.push(part));
    if parts.len() > 2 {
        assert(parts.push(part).skip(2) =~= parts.skip(2).push(part));
        assert(parts.skip(2).push(part).drop_last() =~= parts.skip(2));
    } else {
        assert(parts.push(part).skip(2) =~= seq![part]);
        assert(seq![part].drop_last() =~= Seq::<Seq<char>>::empty());
        reveal_with_fuel(dotted, 2);
    }
}

proof fn lemma_two_parts(target: Seq<char>)
    requires
        "steamos_workerd::sls"@.is_prefix_of(target),
    ensures
        split_colons(target).len() >= 2,
{
    reveal_strlit("steamos_workerd::sls");
    reveal_strlit("steamos_workerd");
    let head = "steamos_workerd::sls"@;
    let x = "steamos_workerd"@;
    assert(target.subrange(0, head.len() as int) == head);
    assert forall|k: int| 0 <= k < head.len() implies target[k] == head[k] by {
        assert(target.subrange(0, head.len() as int)[k] == target[k]);
    }
    let rest = target.skip(17);
    assert(target =~= x + seq![':', ':'] + rest);
    law_split_colons(x, rest);
    lemma_some_part(rest);
}

proof fn lemma_some_part(s: Seq<char>)
    ensures
        split_colons(s).len() >= 1,
{
    lemma_find_colons(s);
}

proof fn lemma_split_colons_push(t: Seq<char>, b: Seq<char>)
    requires
        t.len() > 0 ==> t.last() != ':',
        forall|k: int| 0 <= k < b.len() ==> b[k] != ':',
    ensures
        split_colons(t + seq![':', ':'] + b) == split_colons(t).push(b),
    decreases t.len(),
{
    lemma_find_colons(t);
    let s = t + seq![':', ':'] + b;
    lemma_find_colons_extended(t, b);
    if find_colons(t) < t.len() {
        let i = find_colons(t);
        let u = t.skip(i + 2);
        if u.len() > 0 {
            assert(u.last() == t.last());
        } else {
            assert(t[t.len() - 1] == ':');
        }
        assert(s.take(i) =~= t.take(i));
        assert(s.skip(i + 2) =~= u + seq![':', ':'] + b);
        lemma_split_colons_push(u, b);
        assert(split_colons(s) =~= split_colons(t).push(b));
    } else {
        let n = t.len() as int;
        assert(s.take(n) =~= t);
        assert(s.skip(n + 2) =~= b);
        law_split_colons(b, b);
        assert(split_colons(s) =~= seq![t].push(b));
    }
}

proof fn lemma_find_colons_extended(t: Seq<char>, b: Seq<char>)
    requires
        t.len() > 0 ==> t.last() != ':',
    ensures
        find_colons(t + seq![':', ':'] + b) == find_colons(t),
    decreases t.len(),
{
    let s = t + seq![':', ':'] + b;
    if t.len() == 0 {
        assert(s[0] == ':' && s[1] == ':');
    } else {
        assert(s[0] == t[0]);
        assert(s.skip(1) =~= t.skip(1) + seq![':', ':'] + b);
        if t.len() >= 2 {
            assert(s[1] == t[1]);
            assert(t.skip(1).last() == t.last());
            lemma_find_colons_extended(t.skip(1), b);
        } else {
            assert(s[0] == t.last());
            lemma_find_colons_extended(t.skip(1), b);
        }
    }
}

/// From debugging on, each level of importance counts ten more than the one below, and tracing
/// counts as debugging does.
pub proof fn law_level_numbers()
    ensures
        level_number(Level::Debug) == 10,
        level_number(Level::Trace) == level_number(Level::Debug),
        level_number(Level::Info) == level_number(Level::Debug) + 10,
        level_number(Level::Warn) == level_number(Level::Info) + 10,
        level_number(Level::Error) == level_number(Level::Warn) + 10,
{
}

} // verus!
