//! Events of devices.

use vstd::prelude::*;

use crate::error::{outcome, Failure};
use crate::number::{parse, parse_number};

verus! {

/// The object that tells of events.
pub const PATH: &'static str = "/com/steampowered/SteamOSManager1";

/// An event worth telling.
#[derive(Debug)]
pub enum UdevEvent {
    /// Too much current flows at a port.
    OverCurrent { devpath: String, port: String, count: u64 },
}

/// An `UdevEvent` with its strings seen as text.
pub enum UdevEventView {
    OverCurrent { devpath: Seq<char>, port: Seq<char>, count: nat },
}

impl View for UdevEvent {
    type V = UdevEventView;

    open spec fn view(&self) -> UdevEventView {
        match self {
            UdevEvent::OverCurrent { devpath, port, count } => UdevEventView::OverCurrent {
                devpath: devpath@,
                port: port@,
                count: *count as nat,
            },
        }
    }
}

/// The text of an optional string.
pub open spec fn optional_text(s: Option<&str>) -> Option<Seq<char>> {
    match s {
        Some(s) => Some(s@),
        None => None,
    }
}

/// What an event of a USB device tells: only a change with both properties tells something,
/// and its count must be a number.
pub open spec fn usb_event(
    change: bool,
    port: Option<Seq<char>>,
    count: Option<Seq<char>>,
    devpath: Seq<char>,
) -> Result<Option<UdevEventView>, Seq<char>> {
    match (change, port, count) {
        (true, Some(port), Some(count)) => match parse(count, u64::MAX as nat) {
            Ok(count) => Ok(Some(UdevEventView::OverCurrent { devpath, port, count })),
            Err(e) => Err(e.text()),
        },
        _ => Ok(None),
    }
}

/// What an event of a USB device tells. `change` is whether it is a change of the device;
/// `port` and `count` are its properties on over current.
pub fn process_usb_event(
    change: bool,
    port: Option<&str>,
    count: Option<&str>,
    devpath: &str,
) -> (r: Result<Option<UdevEvent>, Failure>)
    ensures
        match (r, usb_event(change, optional_text(port), optional_text(count), devpath@)) {
            (Ok(Some(a)), Ok(Some(b))) => a@ == b,
            (Ok(None), Ok(None)) => true,
            (Err(a), Err(b)) => a@ == b,
            _ => false,
        },
{
    if !change {
        return Ok(None);
    }
    let port = match port {
        Some(port) => port,
        None => {
            return Ok(None);
        },
    };
    let count = match count {
        Some(count) => count,
        None => {
            return Ok(None);
        },
    };
    match parse_number(count, u64::MAX) {
        Ok(count) => Ok(
            Some(
                UdevEvent::OverCurrent {
                    devpath: devpath.to_owned(),
                    port: port.to_owned(),
                    count,
                },
            ),
        ),
        Err(e) => Err(Failure::new(e.message())),
    }
}

/// What happens to a monitor.
#[derive(Debug)]
pub enum MonitorEvent {
    /// The listener ended.
    Finished(Result<(), Failure>),
    /// The listener tells of an event, or can tell of none any more.
    Event(Option<UdevEvent>),
}

/// What a monitor does next.
#[derive(Debug)]
pub enum MonitorStep {
    /// Tells of an event.
    Emit(UdevEvent),
    /// Stops, having come to this.
    Stop(Result<(), Failure>),
}

/// Tells of events; it runs at most once.
#[derive(Debug)]
pub struct UdevMonitor {
    /// Whether it has not run yet.
    pub ready: bool,
}

impl UdevMonitor {
    /// A monitor that has not run yet. `registered` is whether its object could be put on the
    /// bus.
    pub fn init(registered: bool) -> (r: Result<UdevMonitor, Failure>)
        ensures
            match r {
                Ok(monitor) => registered && monitor.ready,
                Err(e) => !registered && e@ == "Could not register UdevEvents1"@,
            },
    {
        if !registered {
            return Err(Failure::new("Could not register UdevEvents1"));
        }
        Ok(UdevMonitor { ready: true })
    }

    /// Starts to run, which can be done once.
    pub fn begin(&mut self) -> (r: Result<(), Failure>)
        ensures
            outcome(r) == if old(self).ready {
                Ok::<(), Seq<char>>(())
            } else {
                Err("UdevMonitor cannot be run twice"@)
            },
            !final(self).ready,
    {
        if !self.ready {
            return Err(Failure::new("UdevMonitor cannot be run twice"));
        }
        self.ready = false;
        Ok(())
    }

    /// What to do next.
    pub fn run(event: MonitorEvent) -> (r: MonitorStep)
        ensures
            match event {
                MonitorEvent::Finished(result) => r == MonitorStep::Stop(result),
                MonitorEvent::Event(Some(event)) => r == MonitorStep::Emit(event),
                MonitorEvent::Event(None) => r is Stop && outcome(r->Stop_0) == Err::<
                    (),
                    Seq<char>,
                >("udev event pipe broke"@),
            },
    {
        match event {
            MonitorEvent::Finished(result) => MonitorStep::Stop(result),
            MonitorEvent::Event(Some(event)) => MonitorStep::Emit(event),
            MonitorEvent::Event(None) => MonitorStep::Stop(
                Err(Failure::new("udev event pipe broke")),
            ),
        }
    }
}

/// What happens to a poller that waits for one event.
#[derive(Debug)]
pub enum PollEvent {
    /// It has waited for too long.
    TimedOut,
    /// Its source is in a state that it does not know.
    UnknownFlags,
    /// These devices told of events, each with whether it is the one that is waited for.
    Readable(Vec<(bool, String)>),
}

/// The first device that is waited for.
pub open spec fn first_match(events: Seq<(bool, String)>) -> Option<String>
    decreases events.len(),
{
    if events.len() == 0 {
        None
    } else if events.first().0 {
        Some(events.first().1)
    } else {
        first_match(events.skip(1))
    }
}

/// What a poller comes to, or `None` if it goes on waiting.
pub fn single_poll(event: PollEvent) -> (r: Option<Result<String, Failure>>)
    ensures
        match event {
            PollEvent::TimedOut => r is Some && r->0 is Err && r->0->Err_0@
                == "Udev poller timed out"@,
            PollEvent::UnknownFlags => r is Some && r->0 is Err && r->0->Err_0@
                == "Udev poller encountered unknown flags"@,
            PollEvent::Readable(events) => match first_match(events@) {
                Some(device) => r is Some && r->0 is Ok && r->0->Ok_0@ == device@,
                None => r is None,
            },
        },
{
    match event {
        PollEvent::TimedOut => Some(Err(Failure::new("Udev poller timed out"))),
        PollEvent::UnknownFlags => Some(
            Err(Failure::new("Udev poller encountered unknown flags")),
        ),
        PollEvent::Readable(events) => {
            let mut i: usize = 0;
            assert(events@.skip(0) =~= events@);
            while i < events.len()
                invariant
                    i <= events.len(),
                    event == PollEvent::Readable(events),
                    first_match(events@.skip(i as int)) == first_match(events@),
                decreases events.len() - i,
            {
                assert(events@.skip(i as int).first() == events@[i as int]);
                assert(events@.skip(i as int).skip(1) =~= events@.skip(i + 1));
                if events[i].0 {
                    return Some(Ok(events[i].1.clone()));
                }
                i += 1;
            }
            None
        },
    }
}

/// What happens to the listener for USB devices.
#[derive(Debug)]
pub enum ListenEvent {
    /// Devices told of events; handling them came to this.
    Readable(Result<(), Failure>),
    /// It is to stop.
    Shutdown,
    /// Its source is in a state that it does not know.
    UnknownFlags,
}

/// What the listener for USB devices comes to, or `None` if it goes on listening.
pub fn run_udev(event: ListenEvent) -> (r: Option<Result<(), Failure>>)
    ensures
        match event {
            ListenEvent::Readable(Ok(_)) => r is None,
            ListenEvent::Readable(Err(e)) => r == Some(Err::<(), Failure>(e)),
            ListenEvent::Shutdown => r == Some(Ok::<(), Failure>(())),
            ListenEvent::UnknownFlags => r is Some && r->0 is Err && r->0->Err_0@
                == "Event poller encountered unknown flags"@,
        },
{
    match event {
        ListenEvent::Readable(Ok(())) => None,
        ListenEvent::Readable(Err(e)) => Some(Err(e)),
        ListenEvent::Shutdown => Some(Ok(())),
        ListenEvent::UnknownFlags => Some(
            Err(Failure::new("Event poller encountered unknown flags")),
        ),
    }
}

/// An event tells of over current if and only if it is a change and has both properties, of
/// which the count is a number; it then tells just what the event holds.
pub proof fn law_over_current(
    change: bool,
    port: Seq<char>,
    count: u64,
    words: Seq<char>,
    devpath: Seq<char>,
)
    ensures
        usb_event(true, Some(port), Some(crate::number::decimal(count as nat)), devpath) == Ok::<
            Option<UdevEventView>,
            Seq<char>,
        >(Some(UdevEventView::OverCurrent { devpath, port, count: count as nat })),
        usb_event(false, Some(port), Some(words), devpath) == Ok::<
            Option<UdevEventView>,
            Seq<char>,
        >(None),
        usb_event(change, None, Some(words), devpath) == Ok::<Option<UdevEventView>, Seq<char>>(
            None,
        ),
        usb_event(change, Some(port), None, devpath) == Ok::<Option<UdevEventView>, Seq<char>>(
            None,
        ),
        parse(words, u64::MAX as nat) is Err ==> usb_event(
            true,
            Some(port),
            Some(words),
            devpath,
        ) is Err,
{
    crate::number::law_decimal_read_back(count as nat, u64::MAX as nat);
}

/// The device that is waited for is the first that is hit; without a hit there is none.
pub proof fn law_first_match(events: Seq<(bool, String)>, i: int)
    requires
        0 <= i <= events.len(),
        forall|j: int| 0 <= j < i ==> !(#[trigger] events[j]).0,
        i < events.len() ==> events[i].0,
    ensures
        i < events.len() ==> first_match(events) == Some(events[i].1),
        i == events.len() ==> first_match(events) is None,
    decreases i,
{
    if i > 0 {
        assert(!events[0].0);
        let rest = events.skip(1);
        assert forall|j: int| 0 <= j < i - 1 implies !(#[trigger] rest[j]).0 by {
            assert(rest[j] == events[j + 1]);
        }
        if i < events.len() {
            assert(rest[i - 1] == events[i]);
        }
        law_first_match(rest, i - 1);
    }
}

} // verus!
