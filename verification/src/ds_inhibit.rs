//! Keeps the touchpads of game controllers from acting as mice while a game client uses them.

use vstd::prelude::*;

use crate::daemon::config::{join, join_path};
use crate::error::Failure;
use crate::number::{
    decimal, decimal_of, law_decimal_read_back, lemma_decimal_digits, parse, parse_u32,
};
use crate::text::{
    joined, lemma_split_first, lemma_split_none, same, split, split_of, starts_with,
    strip_prefix, texts,
};

verus! {

/// A device with raw access to a human interface.
#[derive(Clone, Copy, Debug, PartialEq, Eq, Structural)]
pub struct HidNode {
    pub id: u32,
}

/// A directory of an input and the names of what it holds.
#[derive(Debug)]
pub struct InputDir {
    pub name: String,
    pub children: Vec<String>,
}

/// What is known of a process.
#[derive(Debug)]
pub struct ProcessInfo {
    /// The name of its directory, if it is text.
    pub name: Option<String>,
    /// What its open files are, as far as that can be told, or `None` if nothing can.
    pub fds: Option<Vec<Option<String>>>,
    /// The name of its program, if it can be told.
    pub comm: Option<String>,
}

/// Whether a device can be inhibited, as far as it is known.
#[derive(Clone, Copy, Debug, PartialEq, Eq, Structural)]
pub enum CanInhibit {
    No,
    Yes,
    /// It depends on the device's nodes.
    ListNodes,
}

/// What is known of a device's nodes.
#[derive(Clone, Copy, Debug, PartialEq, Eq, Structural)]
pub enum Nodes {
    /// They have not been listed.
    NotListed,
    /// They cannot be listed.
    Failed,
    /// There are this many.
    Count(usize),
}

/// What to do about a device, as one process after the other is looked at.
#[derive(Clone, Copy, Debug, PartialEq, Eq, Structural)]
pub enum CheckStep {
    /// Look at the next process.
    Next,
    /// Inhibit it.
    Inhibit,
    /// Do not inhibit it.
    Uninhibit,
}

/// The parts of a path: what stands between its slashes, but for nothing and for a dot.
pub open spec fn path_parts(parts: Seq<Seq<char>>) -> Seq<Seq<char>>
    decreases parts.len(),
{
    if parts.len() == 0 {
        seq![]
    } else if parts.last().len() == 0 || parts.last() == "."@ {
        path_parts(parts.drop_last())
    } else {
        path_parts(parts.drop_last()).push(parts.last())
    }
}

/// Whether a path, however it is written, is that of the device.
pub open spec fn is_device(link: Seq<char>, id: u32) -> bool {
    link.len() > 0 && link[0] == '/' && path_parts(split(link, '/')) == seq![
        "dev"@,
        "hidraw"@ + decimal(id as nat),
    ]
}

/// Whether a process is the game client and has the device open.
pub open spec fn holds_device(process: ProcessInfo, id: u32) -> bool {
    &&& process.name is Some
    &&& parse(process.name->0@, u32::MAX as nat) is Ok
    &&& process.fds is Some
    &&& process.comm is Some
    &&& process.comm->0@ == "steam\n"@
    &&& exists|k: int|
        0 <= k < process.fds->0@.len() && (#[trigger] process.fds->0@[k]) is Some && is_device(
            process.fds->0@[k]->0@,
            id,
        )
}

/// What to do about a device at the next process, or at the end of all.
pub open spec fn check_step(id: u32, process: Option<&ProcessInfo>) -> CheckStep {
    match process {
        Some(process) => if holds_device(*process, id) {
            CheckStep::Inhibit
        } else {
            CheckStep::Next
        },
        None => CheckStep::Uninhibit,
    }
}

/// How many of `children` are mice.
pub open spec fn mice(children: Seq<Seq<char>>) -> nat
    decreases children.len(),
{
    if children.len() == 0 {
        0
    } else {
        mice(children.drop_last()) + if "mouse"@.is_prefix_of(children.last()) {
            1nat
        } else {
            0nat
        }
    }
}

/// The nodes of a device that inhibit its mice: one for each mouse of each input, below
/// `base`.
pub open spec fn inhibit_nodes(base: Seq<char>, inputs: Seq<InputDir>) -> Seq<Seq<char>>
    decreases inputs.len(),
{
    if inputs.len() == 0 {
        seq![]
    } else {
        inhibit_nodes(base, inputs.drop_last()) + Seq::new(
            mice(texts(inputs.last().children@)),
            |k: int| join(join(base, inputs.last().name@), "inhibited"@),
        )
    }
}

/// A write to a node of a device.
#[derive(Debug)]
pub struct NodeWrite {
    pub file: String,
    pub data: &'static str,
}

impl View for NodeWrite {
    type V = (Seq<char>, Seq<char>);

    open spec fn view(&self) -> (Seq<char>, Seq<char>) {
        (self.file@, self.data@)
    }
}

/// The writes with their strings seen as text.
pub open spec fn write_views(writes: Seq<NodeWrite>) -> Seq<(Seq<char>, Seq<char>)> {
    writes.map_values(|w: NodeWrite| w@)
}

/// A write of `data` to each of the nodes, in their order.
pub open spec fn node_writes(nodes: Seq<Seq<char>>, data: Seq<char>) -> Seq<
    (Seq<char>, Seq<char>),
> {
    nodes.map_values(|n: Seq<char>| (n, data))
}

impl HidNode {
    /// The device with number `id`.
    pub fn new(id: u32) -> (r: HidNode)
        ensures
            r.id == id,
    {
        HidNode { id }
    }

    /// The directory of the device's attributes.
    pub open spec fn sys_base_text(self) -> Seq<char> {
        "/sys/class/hidraw/hidraw"@ + decimal(self.id as nat) + "/device"@
    }

    /// The directory of the device's attributes.
    pub fn sys_base(&self) -> (r: String)
        ensures
            r@ == self.sys_base_text(),
    {
        let number = decimal_of(self.id as u64);
        let head = joined("/sys/class/hidraw/hidraw", number.as_str());
        joined(head.as_str(), "/device")
    }

    /// The file of the device.
    pub fn hidraw(&self) -> (r: String)
        ensures
            r@ == "/dev/hidraw"@ + decimal(self.id as nat),
    {
        let number = decimal_of(self.id as u64);
        joined("/dev/hidraw", number.as_str())
    }

    /// The directory of the device's inputs.
    pub fn input_dir(&self) -> (r: String)
        ensures
            r@ == join(self.sys_base_text(), "input"@),
    {
        let base = self.sys_base();
        join_path(base.as_str(), "input")
    }

    /// The nodes that inhibit the device's mice, by what its inputs hold.
    pub fn get_nodes(&self, inputs: &Vec<InputDir>) -> (r: Vec<String>)
        ensures
            texts(r@) == inhibit_nodes(join(self.sys_base_text(), "input"@), inputs@),
    {
        let base = self.input_dir();
        let mut entries: Vec<String> = Vec::new();
        let mut i: usize = 0;
        assert(texts(entries@) =~= seq![]);
        while i < inputs.len()
            invariant
                i <= inputs.len(),
                base@ == join(self.sys_base_text(), "input"@),
                texts(entries@) == inhibit_nodes(base@, inputs@.take(i as int)),
            decreases inputs.len() - i,
        {
            let ghost done = texts(entries@);
            let ghost upto = inputs@.take(i + 1);
            assert(upto.drop_last() =~= inputs@.take(i as int));
            assert(upto.last() == inputs@[i as int]);
            let ghost names = texts(inputs@[i as int].children@);
            let dir = join_path(base.as_str(), inputs[i].name.as_str());
            let node = join_path(dir.as_str(), "inhibited");
            let mut k: usize = 0;
            assert(done + Seq::new(mice(names.take(0)), |m: int| node@) =~= done);
            while k < inputs[i].children.len()
                invariant
                    i < inputs.len(),
                    k <= inputs@[i as int].children@.len(),
                    names == texts(inputs@[i as int].children@),
                    texts(entries@) == done + Seq::new(
                        mice(names.take(k as int)),
                        |m: int| node@,
                    ),
                decreases inputs@[i as int].children@.len() - k,
            {
                assert(names.take(k + 1).drop_last() =~= names.take(k as int));
                assert(names.take(k + 1).last() == inputs@[i as int].children@[k as int]@);
                if starts_with(inputs[i].children[k].as_str(), "mouse") {
                    let ghost before = texts(entries@);
                    entries.push(node.clone());
                    assert(texts(entries@) =~= before.push(node@));
                    assert(texts(entries@) =~= done + Seq::new(
                        mice(names.take(k + 1)),
                        |m: int| node@,
                    ));
                }
                k += 1;
            }
            assert(names.take(k as int) =~= names);
            i += 1;
            assert(texts(entries@) =~= inhibit_nodes(base@, upto));
        }
        assert(inputs@.take(i as int) =~= inputs@);
        entries
    }

    /// Whether a device with this driver and these nodes can be inhibited.
    pub open spec fn inhibitable(driver: Option<Seq<char>>, nodes: Nodes) -> CanInhibit {
        match driver {
            Some(driver) => if driver == "sony"@ || driver == "playstation"@ {
                match nodes {
                    Nodes::NotListed => CanInhibit::ListNodes,
                    Nodes::Failed => CanInhibit::No,
                    Nodes::Count(n) => if n > 0 {
                        CanInhibit::Yes
                    } else {
                        CanInhibit::No
                    },
                }
            } else {
                CanInhibit::No
            },
            None => CanInhibit::No,
        }
    }

    /// Whether the device can be inhibited: it is a controller of the right make, by the name
    /// of its driver, and has nodes to inhibit. `driver` is `None` if it cannot be told.
    pub fn can_inhibit(driver: Option<&str>, nodes: Nodes) -> (r: CanInhibit)
        ensures
            r == HidNode::inhibitable(
                match driver {
                    Some(driver) => Some(driver@),
                    None => None,
                },
                nodes,
            ),
    {
        match driver {
            Some(driver) => if same(driver, "sony") || same(driver, "playstation") {
                match nodes {
                    Nodes::NotListed => CanInhibit::ListNodes,
                    Nodes::Failed => CanInhibit::No,
                    Nodes::Count(n) => if n > 0 {
                        CanInhibit::Yes
                    } else {
                        CanInhibit::No
                    },
                }
            } else {
                CanInhibit::No
            },
            None => CanInhibit::No,
        }
    }

    /// Whether `link`, however it is written, is the path of the device.
    fn is_device_path(&self, link: &str) -> (r: bool)
        ensures
            r == is_device(link@, self.id),
    {
        if !starts_with(link, "/") {
            proof {
                reveal_strlit("/");
                if link@.len() > 0 && link@[0] == '/' {
                    assert(link@.take(1) =~= "/"@);
                }
            }
            return false;
        }
        proof {
            reveal_strlit("/");
            assert("/"@.is_prefix_of(link@));
            assert(link@[0] == "/"@[0]);
        }
        let parts = split_of(link, '/');
        let ghost all = texts(parts@);
        let mut kept: Vec<String> = Vec::new();
        let mut i: usize = 0;
        assert(texts(kept@) =~= seq![]);
        while i < parts.len()
            invariant
                i <= parts.len(),
                all == texts(parts@),
                texts(kept@) == path_parts(all.take(i as int)),
            decreases parts.len() - i,
        {
            let ghost before = texts(kept@);
            assert(all.take(i + 1).drop_last() =~= all.take(i as int));
            assert(all.take(i + 1).last() == parts@[i as int]@);
            let part = parts[i].as_str();
            if !part.is_empty() && !same(part, ".") {
                kept.push(parts[i].clone());
                assert(texts(kept@) =~= before.push(parts@[i as int]@));
            }
            i += 1;
        }
        assert(all.take(i as int) =~= all);
        let number = decimal_of(self.id as u64);
        let name = joined("hidraw", number.as_str());
        assert(texts(kept@).len() == kept@.len());
        if kept.len() != 2 {
            return false;
        }
        assert(texts(kept@)[0] == kept@[0]@);
        assert(texts(kept@)[1] == kept@[1]@);
        let r = same(kept[0].as_str(), "dev") && same(kept[1].as_str(), name.as_str());
        proof {
            if r {
                assert(texts(kept@) =~= seq!["dev"@, name@]);
            }
        }
        r
    }

    /// What to do about the device at the next process, or, where there is no further process,
    /// at the end: it is inhibited if and only if the game client has it open.
    pub fn check(&self, next: Option<&ProcessInfo>) -> (r: CheckStep)
        ensures
            r == check_step(self.id, next),
    {
        let process = match next {
            Some(process) => process,
            None => {
                return CheckStep::Uninhibit;
            },
        };
        match &process.name {
            Some(name) => {
                if parse_u32(name.as_str()).is_err() {
                    return CheckStep::Next;
                }
            },
            None => {
                return CheckStep::Next;
            },
        }
        match &process.comm {
            Some(comm) => {
                if !same(comm.as_str(), "steam\n") {
                    return CheckStep::Next;
                }
            },
            None => {
                return CheckStep::Next;
            },
        }
        match &process.fds {
            Some(fds) => {
                let mut k: usize = 0;
                while k < fds.len()
                    invariant
                        k <= fds.len(),
                        next == Some(process),
                        process.fds == Some(*fds),
                        process.name is Some,
                        parse(process.name->0@, u32::MAX as nat) is Ok,
                        process.comm is Some,
                        process.comm->0@ == "steam\n"@,
                        forall|m: int|
                            0 <= m < k ==> !((#[trigger] fds@[m]) is Some && is_device(
                                fds@[m]->0@,
                                self.id,
                            )),
                    decreases fds.len() - k,
                {
                    if let Some(link) = &fds[k] {
                        if self.is_device_path(link.as_str()) {
                            assert(holds_device(*process, self.id));
                            return CheckStep::Inhibit;
                        }
                    }
                    k += 1;
                }
                CheckStep::Next
            },
            None => CheckStep::Next,
        }
    }

    /// The writes that inhibit the device, by what its inputs hold: one to each of its nodes.
    /// All of them are made, whatever becomes of the others.
    pub fn inhibit(&self, inputs: &Vec<InputDir>) -> (r: Vec<NodeWrite>)
        ensures
            write_views(r@) == node_writes(
                inhibit_nodes(join(self.sys_base_text(), "input"@), inputs@),
                "1\n"@,
            ),
    {
        HidNode::write_all(self.get_nodes(inputs), "1\n")
    }

    /// The writes after which the device is not inhibited, by what its inputs hold: one to each
    /// of its nodes. All of them are made, whatever becomes of the others.
    pub fn uninhibit(&self, inputs: &Vec<InputDir>) -> (r: Vec<NodeWrite>)
        ensures
            write_views(r@) == node_writes(
                inhibit_nodes(join(self.sys_base_text(), "input"@), inputs@),
                "0\n"@,
            ),
    {
        HidNode::write_all(self.get_nodes(inputs), "0\n")
    }

    /// A write of `data` to each of the nodes.
    fn write_all(nodes: Vec<String>, data: &'static str) -> (r: Vec<NodeWrite>)
        ensures
            write_views(r@) == node_writes(texts(nodes@), data@),
    {
        let mut r: Vec<NodeWrite> = Vec::new();
        let mut i: usize = 0;
        while i < nodes.len()
            invariant
                i <= nodes.len(),
                r@.len() == i,
                forall|k: int|
                    0 <= k < i ==> (#[trigger] r@[k]).file@ == nodes@[k]@ && r@[k].data@ == data@,
            decreases nodes.len() - i,
        {
            r.push(NodeWrite { file: nodes[i].clone(), data });
            i += 1;
        }
        assert(write_views(r@) =~= node_writes(texts(nodes@), data@));
        r
    }
}

/// What is done about a device in the end, when all processes are looked at in order.
pub open spec fn check_all(id: u32, processes: Seq<ProcessInfo>) -> CheckStep
    decreases processes.len(),
{
    if processes.len() == 0 {
        check_step(id, None)
    } else {
        match check_step(id, Some(&processes.first())) {
            CheckStep::Next => check_all(id, processes.skip(1)),
            step => step,
        }
    }
}

/// A device is inhibited if and only if some process is the game client and has it open; else
/// it is not inhibited. The order of the processes does not matter.
pub proof fn law_inhibited_iff_held(id: u32, processes: Seq<ProcessInfo>)
    ensures
        check_all(id, processes) is Inhibit <==> exists|i: int|
            0 <= i < processes.len() && holds_device(#[trigger] processes[i], id),
        check_all(id, processes) is Inhibit || check_all(id, processes) is Uninhibit,
    decreases processes.len(),
{
    if processes.len() > 0 {
        let rest = processes.skip(1);
        law_inhibited_iff_held(id, rest);
        if holds_device(processes[0], id) {
            assert(check_all(id, processes) is Inhibit);
        } else {
            if exists|i: int| 0 <= i < processes.len() && holds_device(
                #[trigger] processes[i],
                id,
            ) {
                let i = choose|i: int|
                    0 <= i < processes.len() && holds_device(#[trigger] processes[i], id);
                assert(rest[i - 1] == processes[i]);
            }
            if exists|i: int| 0 <= i < rest.len() && holds_device(#[trigger] rest[i], id) {
                let i = choose|i: int| 0 <= i < rest.len() && holds_device(#[trigger] rest[i], id);
                assert(processes[i + 1] == rest[i]);
            }
        }
    }
}

/// A watch on a device.
#[derive(Clone, Copy, Debug, PartialEq, Eq, Structural)]
pub struct Watch {
    /// The number of the watch.
    pub wd: i32,
    pub node: HidNode,
}

/// The watched devices, by the number of the watch.
pub open spec fn watch_map(watches: Seq<Watch>) -> Map<i32, HidNode>
    decreases watches.len(),
{
    if watches.len() == 0 {
        Map::empty()
    } else {
        watch_map(watches.drop_last()).insert(watches.last().wd, watches.last().node)
    }
}

/// Whether no number is that of two watches.
pub open spec fn distinct(watches: Seq<Watch>) -> bool {
    forall|i: int, j: int| 0 <= i < j < watches.len() ==> watches[i].wd != watches[j].wd
}

/// What a watch tells, as far as it matters.
#[derive(Clone, Copy, Debug, PartialEq, Eq, Structural)]
pub enum WatchMask {
    /// What is watched was deleted.
    DeleteSelf,
    /// The watch was removed.
    Ignored,
    /// Anything else.
    Other,
}

/// What to do about an event.
#[derive(Debug)]
pub enum WatchStep<'a> {
    /// Wait for the device with this name to be set up, and then watch it.
    WatchDevice(&'a str),
    /// Remove the watch; that it is gone is no error.
    RemoveWatch,
    /// Check whether to inhibit this device.
    Check(HidNode),
    /// Nothing; the event is worth a message if the flag is set.
    Nothing(bool),
    /// The event cannot be handled.
    Failed(Failure),
}

/// A `WatchStep` with its strings seen as text.
pub enum WatchStepView {
    WatchDevice(Seq<char>),
    RemoveWatch,
    Check(HidNode),
    Nothing(bool),
    Failed(Seq<char>),
}

impl<'a> View for WatchStep<'a> {
    type V = WatchStepView;

    open spec fn view(&self) -> WatchStepView {
        match self {
            WatchStep::WatchDevice(name) => WatchStepView::WatchDevice(name@),
            WatchStep::RemoveWatch => WatchStepView::RemoveWatch,
            WatchStep::Check(node) => WatchStepView::Check(*node),
            WatchStep::Nothing(odd) => WatchStepView::Nothing(*odd),
            WatchStep::Failed(e) => WatchStepView::Failed(e@),
        }
    }
}

/// What to do about an event, where `dev_watch` is the watch on new devices.
pub open spec fn watch_step(
    dev_watch: i32,
    watches: Map<i32, HidNode>,
    wd: i32,
    mask: WatchMask,
    name: Option<Seq<char>>,
) -> WatchStepView {
    if wd == dev_watch {
        match name {
            Some(name) => WatchStepView::WatchDevice(name),
            None => WatchStepView::Failed("Got an event without an associated filename"@),
        }
    } else if mask is DeleteSelf {
        WatchStepView::RemoveWatch
    } else if watches.contains_key(wd) {
        WatchStepView::Check(watches[wd])
    } else {
        WatchStepView::Nothing(!(mask is Ignored))
    }
}

/// The number of a device by the name of its file.
pub open spec fn hid_id(name: Seq<char>) -> Option<nat> {
    if "hidraw"@.is_prefix_of(name) {
        match parse(name.skip("hidraw"@.len() as int), u32::MAX as nat) {
            Ok(id) => Some(id),
            Err(_) => None,
        }
    } else {
        None
    }
}

/// Watches devices, so that they are inhibited when they have to be.
pub struct Inhibitor {
    dev_watch: i32,
    watches: Vec<Watch>,
}

impl Inhibitor {
    /// The number of the watch on new devices.
    pub closed spec fn dev_watch(&self) -> i32 {
        self.dev_watch
    }

    /// The watched devices, by the number of the watch.
    pub closed spec fn watches(&self) -> Map<i32, HidNode> {
        watch_map(self.watches@)
    }

    /// No number is that of two watches.
    pub closed spec fn wf(&self) -> bool {
        distinct(self.watches@)
    }

    /// Watches nothing but new devices, by the watch with number `dev_watch`.
    pub fn new(dev_watch: i32) -> (r: Inhibitor)
        ensures
            r.wf(),
            r.dev_watch() == dev_watch,
            r.watches() == Map::<i32, HidNode>::empty(),
    {
        Inhibitor { dev_watch, watches: Vec::new() }
    }

    /// The device that a file stands for, if it is one to watch should it be inhibitable: not a
    /// directory, and with the right name.
    pub fn watch(is_dir: bool, file_name: Option<&str>) -> (r: Option<HidNode>)
        ensures
            match r {
                Some(node) => !is_dir && file_name is Some && hid_id(file_name->0@) == Some(
                    node.id as nat,
                ),
                None => is_dir || file_name is None || hid_id(file_name->0@) is None,
            },
    {
        if is_dir {
            return None;
        }
        match file_name {
            Some(name) => match strip_prefix(name, "hidraw") {
                Some(number) => match parse_u32(number) {
                    Ok(id) => Some(HidNode::new(id)),
                    Err(_) => None,
                },
                None => None,
            },
            None => None,
        }
    }

    /// The device to add a watch for, where `found` is what a file stands for: that device, if
    /// and only if it can be inhibited.
    pub fn watch_found(found: Option<HidNode>, can: CanInhibit) -> (r: Option<HidNode>)
        ensures
            r == if can is Yes {
                found
            } else {
                None
            },
    {
        match can {
            CanInhibit::Yes => found,
            _ => None,
        }
    }

    /// The index of the watch with number `wd`, or the number of watches.
    fn find(&self, wd: i32) -> (r: usize)
        requires
            self.wf(),
        ensures
            r <= self.watches@.len(),
            r < self.watches@.len() ==> self.watches@[r as int].wd == wd && self.watches().contains_key(
                wd,
            ) && self.watches()[wd] == self.watches@[r as int].node,
            r == self.watches@.len() ==> !self.watches().contains_key(wd) && forall|k: int|
                0 <= k < self.watches@.len() ==> (#[trigger] self.watches@[k]).wd != wd,
    {
        let mut i: usize = 0;
        while i < self.watches.len()
            invariant
                self.wf(),
                i <= self.watches@.len(),
                forall|k: int| 0 <= k < i ==> (#[trigger] self.watches@[k]).wd != wd,
            decreases self.watches.len() - i,
        {
            if self.watches[i].wd == wd {
                proof {
                    lemma_watch_at(self.watches@, i as int);
                }
                return i;
            }
            i += 1;
        }
        proof {
            lemma_watch_absent(self.watches@, wd);
        }
        i
    }

    /// Remembers that the device is watched by the watch with number `wd`.
    pub fn watched(&mut self, wd: i32, node: HidNode)
        requires
            old(self).wf(),
        ensures
            final(self).wf(),
            final(self).dev_watch() == old(self).dev_watch(),
            final(self).watches() == old(self).watches().insert(wd, node),
    {
        self.unwatched(wd);
        let ghost before = self.watches@;
        let i: usize = self.find(wd);
        self.watches.push(Watch { wd, node });
        proof {
            assert(self.watches@.drop_last() =~= before);
            assert(self.watches() =~= old(self).watches().insert(wd, node));
        }
    }

    /// Forgets the watch with number `wd`.
    fn unwatched(&mut self, wd: i32)
        requires
            old(self).wf(),
        ensures
            final(self).wf(),
            final(self).dev_watch() == old(self).dev_watch(),
            final(self).watches() == old(self).watches().remove(wd),
    {
        let i: usize = self.find(wd);
        if i < self.watches.len() {
            proof {
                lemma_watch_remove(self.watches@, i as int);
            }
            self.watches.remove(i);
        } else {
            assert(self.watches() =~= old(self).watches().remove(wd));
        }
    }

    /// Takes note of an event of the watch with number `wd` and says what to do about it.
    pub fn process_event<'a>(&mut self, wd: i32, mask: WatchMask, name: Option<&'a str>) -> (r:
        WatchStep<'a>)
        requires
            old(self).wf(),
        ensures
            final(self).wf(),
            r@ == watch_step(
                old(self).dev_watch(),
                old(self).watches(),
                wd,
                mask,
                match name {
                    Some(name) => Some(name@),
                    None => None,
                },
            ),
            final(self).dev_watch() == old(self).dev_watch(),
            final(self).watches() == if r@ is RemoveWatch {
                old(self).watches().remove(wd)
            } else {
                old(self).watches()
            },
    {
        if wd == self.dev_watch {
            return match name {
                Some(name) => WatchStep::WatchDevice(name),
                None => WatchStep::Failed(
                    Failure::new("Got an event without an associated filename"),
                ),
            };
        }
        if mask == WatchMask::DeleteSelf {
            self.unwatched(wd);
            return WatchStep::RemoveWatch;
        }
        let i: usize = self.find(wd);
        if i < self.watches.len() {
            WatchStep::Check(self.watches[i].node)
        } else {
            WatchStep::Nothing(mask != WatchMask::Ignored)
        }
    }

    /// Gives up all watches: each of them is to be removed, and its device not to be inhibited
    /// any more.
    pub fn shutdown(&mut self) -> (r: Vec<Watch>)
        requires
            old(self).wf(),
        ensures
            final(self).wf(),
            final(self).dev_watch() == old(self).dev_watch(),
            final(self).watches() == Map::<i32, HidNode>::empty(),
            distinct(r@),
            watch_map(r@) == old(self).watches(),
    {
        let mut all: Vec<Watch> = Vec::new();
        all.append(&mut self.watches);
        assert(all@ =~= old(self).watches@);
        all
    }
}

proof fn lemma_watch_absent(watches: Seq<Watch>, wd: i32)
    requires
        forall|k: int| 0 <= k < watches.len() ==> (#[trigger] watches[k]).wd != wd,
    ensures
        !watch_map(watches).contains_key(wd),
    decreases watches.len(),
{
    if watches.len() > 0 {
        let init = watches.drop_last();
        assert forall|k: int| 0 <= k < init.len() implies (#[trigger] init[k]).wd != wd by {
            assert(init[k] == watches[k]);
        }
        lemma_watch_absent(init, wd);
        assert(watches[watches.len() - 1].wd != wd);
    }
}

proof fn lemma_watch_at(watches: Seq<Watch>, i: int)
    requires
        0 <= i < watches.len(),
        distinct(watches),
    ensures
        watch_map(watches).contains_key(watches[i].wd),
        watch_map(watches)[watches[i].wd] == watches[i].node,
    decreases watches.len(),
{
    if i < watches.len() - 1 {
        lemma_watch_at(watches.drop_last(), i);
    }
}

proof fn lemma_watch_remove(watches: Seq<Watch>, i: int)
    requires
        0 <= i < watches.len(),
        distinct(watches),
    ensures
        watch_map(watches.remove(i)) == watch_map(watches).remove(watches[i].wd),
        distinct(watches.remove(i)),
    decreases watches.len(),
{
    let wd = watches[i].wd;
    let init = watches.drop_last();
    if i == watches.len() - 1 {
        assert(watches.remove(i) =~= init);
        lemma_watch_absent(init, wd);
        assert(watch_map(init) =~= watch_map(watches).remove(wd));
    } else {
        lemma_watch_remove(init, i);
        assert(watches.remove(i).drop_last() =~= init.remove(i));
        assert(watch_map(watches.remove(i)) =~= watch_map(watches).remove(wd));
    }
}

/// Once a device was deleted, no event of its watch leads to it any more, except through a new
/// watch; and the watch on new devices is never taken for one of a device.
pub proof fn law_deleted_device_forgotten(
    dev_watch: i32,
    watches: Map<i32, HidNode>,
    wd: i32,
    mask: WatchMask,
    name: Option<Seq<char>>,
)
    ensures
        !(watch_step(dev_watch, watches.remove(wd), wd, mask, name) is Check),
        !(watch_step(dev_watch, watches, dev_watch, mask, name) is Check),
{
}

/// A device is found again by the name of its file, and its own path is recognised as its path
/// among the open files of a process.
pub proof fn law_device_recognised(id: u32)
    ensures
        hid_id("hidraw"@ + decimal(id as nat)) == Some(id as nat),
        is_device("/dev/hidraw"@ + decimal(id as nat), id),
{
    let digits = decimal(id as nat);
    lemma_decimal_digits(id as nat);
    law_decimal_read_back(id as nat, u32::MAX as nat);
    reveal_strlit("hidraw");
    reveal_strlit("/dev/hidraw");
    reveal_strlit("dev");
    reveal_strlit(".");
    let name = "hidraw"@ + digits;
    assert("hidraw"@.is_prefix_of(name)) by {
        assert(name.subrange(0, 6) =~= "hidraw"@);
    }
    assert(name.skip(6) =~= digits);
    let s = "/dev/hidraw"@ + digits;
    let tail = "dev"@ + seq!['/'] + name;
    assert(s =~= Seq::<char>::empty() + seq!['/'] + tail);
    lemma_split_first(Seq::empty(), '/', tail);
    lemma_split_first("dev"@, '/', name);
    assert forall|k: int| 0 <= k < name.len() implies name[k] != '/' by {
        if k >= 6 {
            assert(name[k] == digits[k - 6]);
        }
    }
    lemma_split_none(name, '/');
    let parts = split(s, '/');
    assert(parts =~= seq![Seq::<char>::empty(), "dev"@, name]);
    reveal_with_fuel(path_parts, 4);
    assert(parts.drop_last() =~= seq![Seq::<char>::empty(), "dev"@]);
    assert(parts.drop_last().drop_last() =~= seq![Seq::<char>::empty()]);
    assert(parts.drop_last().drop_last().drop_last() =~= Seq::<Seq<char>>::empty());
    assert(path_parts(parts) =~= seq!["dev"@, name]);
}

/// The game client holds a device that any of its open files is, whatever the others are: for
/// every process that is a number and runs the client, one open file that is the device is
/// enough, at whichever place.
pub proof fn law_held_by_any_open_file(id: u32, pid: u32, process: ProcessInfo, k: int)
    requires
        process.name is Some,
        process.name->0@ == decimal(pid as nat),
        process.comm is Some,
        process.comm->0@ == "steam\n"@,
        process.fds is Some,
        0 <= k < process.fds->0@.len(),
        process.fds->0@[k] is Some,
        process.fds->0@[k]->0@ == "/dev/hidraw"@ + decimal(id as nat),
    ensures
        check_step(id, Some(&process)) is Inhibit,
{
    law_decimal_read_back(pid as nat, u32::MAX as nat);
    law_device_recognised(id);
    assert(process.fds->0@[k] is Some);
}

/// A device is not held by a process that runs another program, that is no number, or whose
/// files or program cannot be told; nor by one that has none but other devices open.
pub proof fn law_not_held_by_others(id: u32, process: ProcessInfo)
    ensures
        process.name is None ==> check_step(id, Some(&process)) is Next,
        process.name is Some && (exists|k: int|
            0 <= k < process.name->0@.len() && !crate::number::is_digit(
                #[trigger] process.name->0@[k],
            ) && process.name->0@[k] != '+') ==> check_step(id, Some(&process)) is Next,
        process.fds is None ==> check_step(id, Some(&process)) is Next,
        process.comm is None ==> check_step(id, Some(&process)) is Next,
        process.comm is Some && process.comm->0@ != "steam\n"@ ==> check_step(
            id,
            Some(&process),
        ) is Next,
        process.fds is Some && (forall|k: int|
            0 <= k < process.fds->0@.len() ==> (#[trigger] process.fds->0@[k]) is None
                || not_the_device(process.fds->0@[k]->0@, id)) ==> check_step(
            id,
            Some(&process),
        ) is Next,
        check_step(id, None) is Uninhibit,
{
    if process.name is Some {
        let name = process.name->0@;
        if exists|k: int|
            0 <= k < name.len() && !crate::number::is_digit(#[trigger] name[k]) && name[k] != '+' {
            let k = choose|k: int|
                0 <= k < name.len() && !crate::number::is_digit(#[trigger] name[k]) && name[k]
                    != '+';
            crate::number::law_parse_digits_only(name, u32::MAX as nat, k);
        }
    }
    if process.fds is Some && (forall|k: int|
        0 <= k < process.fds->0@.len() ==> (#[trigger] process.fds->0@[k]) is None
            || not_the_device(process.fds->0@[k]->0@, id)) {
        assert forall|k: int|
            0 <= k < process.fds->0@.len() && (#[trigger] process.fds->0@[k]) is Some implies !is_device(
            process.fds->0@[k]->0@,
            id,
        ) by {
            lemma_not_the_device(process.fds->0@[k]->0@, id);
        }
    }
}

/// Whether a file is certainly not the device: its path is not absolute, or it is another
/// device of the kind.
pub open spec fn not_the_device(link: Seq<char>, id: u32) -> bool {
    ||| link.len() == 0
    ||| link[0] != '/'
    ||| exists|other: u32|
        other != id && link == "/dev/hidraw"@ + #[trigger] decimal(other as nat)
}

proof fn lemma_not_the_device(link: Seq<char>, id: u32)
    requires
        not_the_device(link, id),
    ensures
        !is_device(link, id),
{
    if link.len() > 0 && link[0] == '/' {
        let other = choose|other: u32|
            other != id && link == "/dev/hidraw"@ + #[trigger] decimal(other as nat);
        law_device_recognised(other);
        if is_device(link, id) {
            let a = "hidraw"@ + decimal(id as nat);
            let b = "hidraw"@ + decimal(other as nat);
            let parts = path_parts(split(link, '/'));
            assert(parts[1] == a);
            assert(parts[1] == b);
            assert(decimal(id as nat) =~= a.skip("hidraw"@.len() as int));
            assert(decimal(other as nat) =~= b.skip("hidraw"@.len() as int));
            crate::number::law_decimal_injective(id as nat, other as nat);
        }
    }
}

/// The nodes of a device: one for each mouse of each input, in the order of the inputs, each in
/// the directory of its input; what is no mouse gives none.
pub proof fn law_nodes_of_mice(
    base: Seq<char>,
    a: Seq<InputDir>,
    b: Seq<InputDir>,
    input: InputDir,
    k: int,
)
    ensures
        inhibit_nodes(base, a + b) == inhibit_nodes(base, a) + inhibit_nodes(base, b),
        inhibit_nodes(base, seq![input]).len() == mice(texts(input.children@)),
        0 <= k < inhibit_nodes(base, seq![input]).len() ==> inhibit_nodes(base, seq![input])[k]
            == join(join(base, input.name@), "inhibited"@),
{
    lemma_nodes_parts(base, a, b);
    let one = seq![input];
    assert(one.drop_last() =~= Seq::<InputDir>::empty());
    reveal_with_fuel(inhibit_nodes, 2);
    assert(inhibit_nodes(base, one) =~= Seq::new(
        mice(texts(input.children@)),
        |m: int| join(join(base, input.name@), "inhibited"@),
    ));
}

proof fn lemma_nodes_parts(base: Seq<char>, a: Seq<InputDir>, b: Seq<InputDir>)
    ensures
        inhibit_nodes(base, a + b) == inhibit_nodes(base, a) + inhibit_nodes(base, b),
    decreases b.len(),
{
    if b.len() == 0 {
        assert(a + b =~= a);
        assert(inhibit_nodes(base, a) + inhibit_nodes(base, b) =~= inhibit_nodes(base, a));
    } else {
        assert((a + b).drop_last() =~= a + b.drop_last());
        assert((a + b).last() == b.last());
        lemma_nodes_parts(base, a, b.drop_last());
        assert(inhibit_nodes(base, a + b) =~= inhibit_nodes(base, a) + inhibit_nodes(base, b));
    }
}

/// Mice are counted one by one: each name that starts as that of a mouse counts, wherever it
/// stands, and no other does.
pub proof fn law_mice_counted(a: Seq<Seq<char>>, b: Seq<Seq<char>>, name: Seq<char>)
    ensures
        mice(a + b) == mice(a) + mice(b),
        mice(seq!["mouse"@ + name]) == 1,
        !"mouse"@.is_prefix_of(name) ==> mice(seq![name]) == 0,
        mice(Seq::empty()) == 0,
{
    lemma_mice_parts(a, b);
    reveal_with_fuel(mice, 2);
    reveal_strlit("mouse");
    let one = seq!["mouse"@ + name];
    assert(one.drop_last() =~= Seq::<Seq<char>>::empty());
    assert(one.last().subrange(0, 5) =~= "mouse"@);
    let other = seq![name];
    assert(other.drop_last() =~= Seq::<Seq<char>>::empty());
}

proof fn lemma_mice_parts(a: Seq<Seq<char>>, b: Seq<Seq<char>>)
    ensures
        mice(a + b) == mice(a) + mice(b),
    decreases b.len(),
{
    if b.len() == 0 {
        assert(a + b =~= a);
    } else {
        assert((a + b).drop_last() =~= a + b.drop_last());
        assert((a + b).last() == b.last());
        lemma_mice_parts(a, b.drop_last());
    }
}

/// Every node gets the same write, and nothing else is written.
pub proof fn law_every_node_written(nodes: Seq<Seq<char>>, data: Seq<char>, k: int)
    ensures
        node_writes(nodes, data).len() == nodes.len(),
        0 <= k < nodes.len() ==> node_writes(nodes, data)[k].0 == nodes[k] && node_writes(
            nodes,
            data,
        )[k].1 == data,
{
}

/// The attributes of a device stand in the directory with its number.
pub proof fn law_device_directory(id: u32)
    ensures
        (HidNode { id }).sys_base_text() == "/sys/class/hidraw/hidraw"@ + decimal(id as nat)
            + "/device"@,
{
}

/// A device can be inhibited if and only if it has one of the two drivers and at least one node;
/// its nodes are listed only where the driver is the right one.
pub proof fn law_inhibitable(driver: Seq<char>, n: usize, nodes: Nodes)
    ensures
        driver == "sony"@ || driver == "playstation"@ ==> {
            &&& HidNode::inhibitable(Some(driver), Nodes::NotListed) is ListNodes
            &&& HidNode::inhibitable(Some(driver), Nodes::Failed) is No
            &&& n > 0 ==> HidNode::inhibitable(Some(driver), Nodes::Count(n)) is Yes
            &&& HidNode::inhibitable(Some(driver), Nodes::Count(0)) is No
        },
        driver != "sony"@ && driver != "playstation"@ ==> HidNode::inhibitable(Some(driver), nodes)
            is No,
        HidNode::inhibitable(None, nodes) is No,
{
}

/// A file stands for a device if and only if its name is that of a device with a number.
pub proof fn law_hid_id(name: Seq<char>, rest: Seq<char>)
    ensures
        hid_id(name) is Some ==> "hidraw"@.is_prefix_of(name),
        hid_id("hidraw"@ + rest) is Some <==> parse(rest, u32::MAX as nat) is Ok,
        hid_id("hidraw"@ + rest) is Some ==> hid_id("hidraw"@ + rest)->0 == parse(
            rest,
            u32::MAX as nat,
        )->Ok_0,
{
    reveal_strlit("hidraw");
    let s = "hidraw"@ + rest;
    assert(s.subrange(0, 6) =~= "hidraw"@);
    assert(s.skip(6) =~= rest);
}

/// What an event leads to: a new device with a name is watched, a deleted one is forgotten, and
/// any other event of a watched device leads to a check of that very device. Events of other
/// watches lead to nothing.
pub proof fn law_watch_events(
    dev_watch: i32,
    watches: Map<i32, HidNode>,
    wd: i32,
    node: HidNode,
    mask: WatchMask,
    name: Seq<char>,
)
    ensures
        watch_step(dev_watch, watches, dev_watch, mask, Some(name)) == WatchStepView::WatchDevice(
            name,
        ),
        watch_step(dev_watch, watches, dev_watch, mask, None) is Failed,
        wd != dev_watch ==> {
            &&& watch_step(dev_watch, watches, wd, WatchMask::DeleteSelf, None) is RemoveWatch
            &&& watch_step(dev_watch, watches, wd, WatchMask::DeleteSelf, Some(name))
                is RemoveWatch
            &&& !(mask is DeleteSelf) ==> watch_step(
                dev_watch,
                watches.insert(wd, node),
                wd,
                mask,
                None,
            ) == WatchStepView::Check(node)
            &&& !(mask is DeleteSelf) ==> watch_step(
                dev_watch,
                watches.remove(wd),
                wd,
                mask,
                None,
            ) == WatchStepView::Nothing(mask is Other)
        },
{
}

/// Whether a path is absolute and holds no needless part: nothing between two slashes, no dot by
/// itself, and no slash at its end.
pub open spec fn plain_path(link: Seq<char>) -> bool {
    &&& link.len() > 0
    &&& link[0] == '/'
    &&& forall|k: int|
        1 <= k < split(link, '/').len() ==> (#[trigger] split(link, '/')[k]).len() > 0 && split(
            link,
            '/',
        )[k] != "."@
}

/// A plain path is that of a device if and only if it is the very path of the device: a path
/// that only starts or ends in that way is not.
pub proof fn law_plain_path_of_device(link: Seq<char>, id: u32)
    requires
        plain_path(link),
    ensures
        is_device(link, id) <==> link == "/dev/hidraw"@ + decimal(id as nat),
{
    law_device_recognised(id);
    if is_device(link, id) {
        reveal_strlit("dev");
        reveal_strlit("/dev/hidraw");
        reveal_strlit("hidraw");
        let name = "hidraw"@ + decimal(id as nat);
        let tail = link.skip(1);
        assert(link =~= Seq::<char>::empty() + seq!['/'] + tail);
        crate::text::law_split(Seq::empty(), '/', tail);
        let parts = split(link, '/');
        let kept = split(tail, '/');
        assert(parts =~= seq![Seq::<char>::empty()] + kept);
        assert forall|k: int| 0 <= k < kept.len() implies (#[trigger] kept[k]).len() > 0 && kept[k]
            != "."@ by {
            assert(parts[k + 1] == kept[k]);
        }
        lemma_parts_kept(kept);
        lemma_parts_kept_behind_empty(kept);
        assert(kept == seq!["dev"@, name]);
        lemma_split_rejoined(tail);
        assert(tail == joined_parts(kept));
        reveal_with_fuel(joined_parts, 3);
        assert(kept.drop_last() =~= seq!["dev"@]);
        assert(seq!["dev"@].drop_last() =~= Seq::<Seq<char>>::empty());
        assert(tail =~= "dev"@ + seq!['/'] + name);
        assert(link =~= "/dev/hidraw"@ + decimal(id as nat));
    }
}

proof fn lemma_parts_kept(parts: Seq<Seq<char>>)
    requires
        forall|k: int| 0 <= k < parts.len() ==> (#[trigger] parts[k]).len() > 0 && parts[k] != "."@,
    ensures
        path_parts(parts) == parts,
    decreases parts.len(),
{
    if parts.len() > 0 {
        let init = parts.drop_last();
        assert forall|k: int| 0 <= k < init.len() implies (#[trigger] init[k]).len() > 0 && init[k]
            != "."@ by {
            assert(init[k] == parts[k]);
        }
        lemma_parts_kept(init);
        assert(parts[parts.len() - 1].len() > 0);
        assert(path_parts(parts) =~= parts);
    } else {
        assert(path_parts(parts) =~= parts);
    }
}

proof fn lemma_parts_kept_behind_empty(kept: Seq<Seq<char>>)
    ensures
        path_parts(seq![Seq::<char>::empty()] + kept) == path_parts(kept),
    decreases kept.len(),
{
    let all = seq![Seq::<char>::empty()] + kept;
    if kept.len() == 0 {
        assert(all.drop_last() =~= Seq::<Seq<char>>::empty());
        assert(all.last().len() == 0);
        reveal_with_fuel(path_parts, 2);
    } else {
        assert(all.drop_last() =~= seq![Seq::<char>::empty()] + kept.drop_last());
        assert(all.last() == kept.last());
        lemma_parts_kept_behind_empty(kept.drop_last());
    }
}

/// The parts with a slash between each two.
pub open spec fn joined_parts(parts: Seq<Seq<char>>) -> Seq<char>
    decreases parts.len(),
{
    if parts.len() == 0 {
        seq![]
    } else if parts.len() == 1 {
        parts[0]
    } else {
        joined_parts(parts.drop_last()) + seq!['/'] + parts.last()
    }
}

proof fn lemma_joined_front(a: Seq<char>, parts: Seq<Seq<char>>)
    requires
        parts.len() > 0,
    ensures
        joined_parts(seq![a] + parts) == a + seq!['/'] + joined_parts(parts),
    decreases parts.len(),
{
    let all = seq![a] + parts;
    assert(all.last() == parts.last());
    assert(all.drop_last() =~= seq![a] + parts.drop_last());
    if parts.len() == 1 {
        assert(all.drop_last() =~= seq![a]);
        reveal_with_fuel(joined_parts, 3);
        assert(joined_parts(all) =~= a + seq!['/'] + joined_parts(parts));
    } else {
        lemma_joined_front(a, parts.drop_last());
        assert(joined_parts(all) =~= a + seq!['/'] + joined_parts(parts));
    }
}

proof fn lemma_split_rejoined(s: Seq<char>)
    ensures
        split(s, '/').len() > 0,
        joined_parts(split(s, '/')) == s,
    decreases s.len(),
{
    crate::text::lemma_find(s, '/');
    let i = crate::text::find(s, '/');
    if i < s.len() {
        let rest = s.skip(i + 1);
        lemma_split_rejoined(rest);
        lemma_joined_front(s.take(i), split(rest, '/'));
        assert(s =~= s.take(i) + seq!['/'] + rest);
    }
}

/// A process of the client that has none but plain paths open, of which none is the device, does
/// not hold the device.
pub proof fn law_not_held_by_plain_paths(id: u32, process: ProcessInfo)
    requires
        process.fds is Some,
        forall|k: int|
            0 <= k < process.fds->0@.len() && (#[trigger] process.fds->0@[k]) is Some ==> plain_path(
                process.fds->0@[k]->0@,
            ) && process.fds->0@[k]->0@ != "/dev/hidraw"@ + decimal(id as nat),
    ensures
        check_step(id, Some(&process)) is Next,
{
    assert forall|k: int|
        0 <= k < process.fds->0@.len() && (#[trigger] process.fds->0@[k]) is Some implies !is_device(
        process.fds->0@[k]->0@,
        id,
    ) by {
        law_plain_path_of_device(process.fds->0@[k]->0@, id);
    }
}

} // verus!
