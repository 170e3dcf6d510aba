//! The manager of a user's session: which interfaces it offers, and what they answer.

use std::collections::HashMap;
use vstd::prelude::*;

use crate::cec::{steps_to, CecStep, HdmiCecControl, HdmiCecState};
use crate::error::{outcome, BusError, BusErrorView, Failure};
use crate::hardware::{fan_action, fan_service, FanControlState, HardwareCurrentlySupported};
use crate::manager::root::{bios_job, dock_job, format_job, part, reset_step, trim_job};
use crate::platform::PlatformConfig;
use crate::power::{CPUScalingGovernor, GPUPerformanceLevel};
use crate::text::texts;

verus! {

/// The object that holds the interfaces.
pub const MANAGER_PATH: &'static str = "/com/steampowered/SteamOSManager1";

/// The interfaces that a session may offer.
#[derive(Clone, Copy, Debug, PartialEq, Eq, Structural)]
pub enum ManagerInterface {
    Manager,
    AmbientLightSensor1,
    CpuScaling1,
    FactoryReset1,
    FanControl1,
    GpuPerformanceLevel1,
    GpuPowerProfile1,
    GpuTdpLimit1,
    HdmiCec1,
    Manager2,
    Storage1,
    UpdateBios1,
    UpdateDock1,
    WifiDebug1,
    WifiPowerManagement1,
}

impl ManagerInterface {
    /// The name of the interface behind the common prefix.
    pub fn suffix(self) -> (r: &'static str)
        ensures
            r@ == self.text(),
    {
        match self {
            ManagerInterface::Manager => "Manager",
            ManagerInterface::AmbientLightSensor1 => "AmbientLightSensor1",
            ManagerInterface::CpuScaling1 => "CpuScaling1",
            ManagerInterface::FactoryReset1 => "FactoryReset1",
            ManagerInterface::FanControl1 => "FanControl1",
            ManagerInterface::GpuPerformanceLevel1 => "GpuPerformanceLevel1",
            ManagerInterface::GpuPowerProfile1 => "GpuPowerProfile1",
            ManagerInterface::GpuTdpLimit1 => "GpuTdpLimit1",
            ManagerInterface::HdmiCec1 => "HdmiCec1",
            ManagerInterface::Manager2 => "Manager2",
            ManagerInterface::Storage1 => "Storage1",
            ManagerInterface::UpdateBios1 => "UpdateBios1",
            ManagerInterface::UpdateDock1 => "UpdateDock1",
            ManagerInterface::WifiDebug1 => "WifiDebug1",
            ManagerInterface::WifiPowerManagement1 => "WifiPowerManagement1",
        }
    }

    /// The name of the interface behind the common prefix.
    pub open spec fn text(self) -> Seq<char> {
        match self {
            ManagerInterface::Manager => "Manager"@,
            ManagerInterface::AmbientLightSensor1 => "AmbientLightSensor1"@,
            ManagerInterface::CpuScaling1 => "CpuScaling1"@,
            ManagerInterface::FactoryReset1 => "FactoryReset1"@,
            ManagerInterface::FanControl1 => "FanControl1"@,
            ManagerInterface::GpuPerformanceLevel1 => "GpuPerformanceLevel1"@,
            ManagerInterface::GpuPowerProfile1 => "GpuPowerProfile1"@,
            ManagerInterface::GpuTdpLimit1 => "GpuTdpLimit1"@,
            ManagerInterface::HdmiCec1 => "HdmiCec1"@,
            ManagerInterface::Manager2 => "Manager2"@,
            ManagerInterface::Storage1 => "Storage1"@,
            ManagerInterface::UpdateBios1 => "UpdateBios1"@,
            ManagerInterface::UpdateDock1 => "UpdateDock1"@,
            ManagerInterface::WifiDebug1 => "WifiDebug1"@,
            ManagerInterface::WifiPowerManagement1 => "WifiPowerManagement1"@,
        }
    }

    /// The interface's place in the order in which they are put on the bus.
    pub open spec fn rank(self) -> int {
        match self {
            ManagerInterface::Manager => 0,
            ManagerInterface::AmbientLightSensor1 => 1,
            ManagerInterface::CpuScaling1 => 2,
            ManagerInterface::FactoryReset1 => 3,
            ManagerInterface::FanControl1 => 4,
            ManagerInterface::GpuPerformanceLevel1 => 5,
            ManagerInterface::GpuPowerProfile1 => 6,
            ManagerInterface::GpuTdpLimit1 => 7,
            ManagerInterface::HdmiCec1 => 8,
            ManagerInterface::Manager2 => 9,
            ManagerInterface::Storage1 => 10,
            ManagerInterface::UpdateBios1 => 11,
            ManagerInterface::UpdateDock1 => 12,
            ManagerInterface::WifiDebug1 => 13,
            ManagerInterface::WifiPowerManagement1 => 14,
        }
    }
}

/// What was found out about the machine.
pub struct Probes {
    /// Whether it is a deck.
    pub deck: Result<bool, Failure>,
    /// The performance levels that the graphics processor can have.
    pub gpu_performance_levels: Result<Vec<GPUPerformanceLevel>, Failure>,
    /// The power profiles that the graphics processor can have.
    pub gpu_power_profiles: Result<HashMap<u32, String>, Failure>,
    /// The power limit.
    pub tdp_limit: Result<u32, Failure>,
    /// The state of Consumer Electronics Control.
    pub hdmi_cec: Result<HdmiCecState, Failure>,
}

/// Whether a session offers an interface, on a machine that is known to be a deck or not.
pub open spec fn offered(
    interface: ManagerInterface,
    config: Option<&PlatformConfig>,
    probes: Probes,
    deck: bool,
) -> bool {
    match interface {
        ManagerInterface::Manager => true,
        ManagerInterface::AmbientLightSensor1 => deck,
        ManagerInterface::CpuScaling1 => true,
        ManagerInterface::FactoryReset1 => config is Some && config->0.factory_reset is Some,
        ManagerInterface::FanControl1 => config is Some && config->0.fan_control is Some,
        ManagerInterface::GpuPerformanceLevel1 => probes.gpu_performance_levels is Ok
            && probes.gpu_performance_levels->Ok_0@.len() > 0,
        ManagerInterface::GpuPowerProfile1 => probes.gpu_power_profiles is Ok
            && probes.gpu_power_profiles->Ok_0@.len() > 0,
        ManagerInterface::GpuTdpLimit1 => probes.tdp_limit is Ok,
        ManagerInterface::HdmiCec1 => probes.hdmi_cec is Ok,
        ManagerInterface::Manager2 => true,
        ManagerInterface::Storage1 => config is Some && config->0.storage is Some,
        ManagerInterface::UpdateBios1 => config is Some && config->0.update_bios is Some,
        ManagerInterface::UpdateDock1 => config is Some && config->0.update_dock is Some,
        ManagerInterface::WifiDebug1 => true,
        ManagerInterface::WifiPowerManagement1 => true,
    }
}

/// All interfaces, in the order in which they are put on the bus.
pub open spec fn interface_order() -> Seq<ManagerInterface> {
    seq![
        ManagerInterface::Manager,
        ManagerInterface::AmbientLightSensor1,
        ManagerInterface::CpuScaling1,
        ManagerInterface::FactoryReset1,
        ManagerInterface::FanControl1,
        ManagerInterface::GpuPerformanceLevel1,
        ManagerInterface::GpuPowerProfile1,
        ManagerInterface::GpuTdpLimit1,
        ManagerInterface::HdmiCec1,
        ManagerInterface::Manager2,
        ManagerInterface::Storage1,
        ManagerInterface::UpdateBios1,
        ManagerInterface::UpdateDock1,
        ManagerInterface::WifiDebug1,
        ManagerInterface::WifiPowerManagement1,
    ]
}

/// Those of `order` that a session offers.
pub open spec fn offered_of(
    order: Seq<ManagerInterface>,
    config: Option<&PlatformConfig>,
    probes: Probes,
    deck: bool,
) -> Seq<ManagerInterface>
    decreases order.len(),
{
    if order.len() == 0 {
        seq![]
    } else if offered(order.last(), config, probes, deck) {
        offered_of(order.drop_last(), config, probes, deck).push(order.last())
    } else {
        offered_of(order.drop_last(), config, probes, deck)
    }
}

/// The interfaces that a session puts on the bus, in order. Where it cannot be told whether
/// the machine is a deck, nothing follows the first one.
pub open spec fn interfaces(config: Option<&PlatformConfig>, probes: Probes) -> Seq<
    ManagerInterface,
> {
    match probes.deck {
        Ok(deck) => offered_of(interface_order(), config, probes, deck),
        Err(_) => seq![ManagerInterface::Manager],
    }
}

/// The interfaces to put on the bus, and what that comes to if it succeeds for each.
pub struct InterfacePlan {
    pub interfaces: Vec<ManagerInterface>,
    pub end: Result<(), Failure>,
}

/// Whether a session offers `interface`.
fn is_offered(
    interface: ManagerInterface,
    config: Option<&PlatformConfig>,
    probes: &Probes,
    deck: bool,
) -> (r: bool)
    ensures
        r == offered(interface, config, *probes, deck),
{
    broadcast use vstd::std_specs::hash::group_hash_axioms;

    match interface {
        ManagerInterface::Manager => true,
        ManagerInterface::AmbientLightSensor1 => deck,
        ManagerInterface::CpuScaling1 => true,
        ManagerInterface::FactoryReset1 => match config {
            Some(config) => config.factory_reset.is_some(),
            None => false,
        },
        ManagerInterface::FanControl1 => match config {
            Some(config) => config.fan_control.is_some(),
            None => false,
        },
        ManagerInterface::GpuPerformanceLevel1 => match &probes.gpu_performance_levels {
            Ok(levels) => levels.len() > 0,
            Err(_) => false,
        },
        ManagerInterface::GpuPowerProfile1 => match &probes.gpu_power_profiles {
            Ok(profiles) => profiles.len() > 0,
            Err(_) => false,
        },
        ManagerInterface::GpuTdpLimit1 => probes.tdp_limit.is_ok(),
        ManagerInterface::HdmiCec1 => probes.hdmi_cec.is_ok(),
        ManagerInterface::Manager2 => true,
        ManagerInterface::Storage1 => match config {
            Some(config) => config.storage.is_some(),
            None => false,
        },
        ManagerInterface::UpdateBios1 => match config {
            Some(config) => config.update_bios.is_some(),
            None => false,
        },
        ManagerInterface::UpdateDock1 => match config {
            Some(config) => config.update_dock.is_some(),
            None => false,
        },
        ManagerInterface::WifiDebug1 => true,
        ManagerInterface::WifiPowerManagement1 => true,
    }
}

/// The interfaces that a session puts on the bus, by the platform's configuration and by what
/// was found out about the machine.
pub fn create_interfaces(config: Option<&PlatformConfig>, probes: Probes) -> (r: InterfacePlan)
    ensures
        r.interfaces@ == interfaces(config, probes),
        outcome(r.end) == (match probes.deck {
            Ok(_) => Ok::<(), Seq<char>>(()),
            Err(e) => Err(e@),
        }),
{
    let deck = match &probes.deck {
        Ok(deck) => *deck,
        Err(e) => {
            let r = vec![ManagerInterface::Manager];
            assert(r@ =~= seq![ManagerInterface::Manager]);
            return InterfacePlan { interfaces: r, end: Err(Failure { message: e.to_string() }) };
        },
    };
    let order = vec![
        ManagerInterface::Manager,
        ManagerInterface::AmbientLightSensor1,
        ManagerInterface::CpuScaling1,
        ManagerInterface::FactoryReset1,
        ManagerInterface::FanControl1,
        ManagerInterface::GpuPerformanceLevel1,
        ManagerInterface::GpuPowerProfile1,
        ManagerInterface::GpuTdpLimit1,
        ManagerInterface::HdmiCec1,
        ManagerInterface::Manager2,
        ManagerInterface::Storage1,
        ManagerInterface::UpdateBios1,
        ManagerInterface::UpdateDock1,
        ManagerInterface::WifiDebug1,
        ManagerInterface::WifiPowerManagement1,
    ];
    assert(order@ =~= interface_order());
    let mut chosen: Vec<ManagerInterface> = Vec::new();
    let mut i: usize = 0;
    while i < order.len()
        invariant
            i <= order.len(),
            chosen@ == offered_of(order@.take(i as int), config, probes, deck),
        decreases order.len() - i,
    {
        assert(order@.take(i + 1).drop_last() =~= order@.take(i as int));
        if is_offered(order[i], config, &probes, deck) {
            chosen.push(order[i]);
        }
        i += 1;
    }
    assert(order@.take(i as int) =~= order@);
    InterfacePlan { interfaces: chosen, end: Ok(()) }
}

proof fn lemma_offered_of(
    order: Seq<ManagerInterface>,
    config: Option<&PlatformConfig>,
    probes: Probes,
    deck: bool,
)
    requires
        forall|a: int, b: int| 0 <= a < b < order.len() ==> order[a].rank() < order[b].rank(),
    ensures
        ({
            let s = offered_of(order, config, probes, deck);
            &&& forall|i: ManagerInterface| #[trigger]
                s.contains(i) <==> order.contains(i) && offered(i, config, probes, deck)
            &&& forall|a: int, b: int| 0 <= a < b < s.len() ==> s[a].rank() < s[b].rank()
        }),
    decreases order.len(),
{
    if order.len() > 0 {
        let init = order.drop_last();
        let last = order.last();
        let s = offered_of(order, config, probes, deck);
        let t = offered_of(init, config, probes, deck);
        lemma_offered_of(init, config, probes, deck);
        assert forall|i: ManagerInterface| #[trigger]
            s.contains(i) <==> order.contains(i) && offered(i, config, probes, deck) by {
            if s.contains(i) {
                let k = choose|k: int| 0 <= k < s.len() && s[k] == i;
                if k < t.len() {
                    assert(t[k] == i);
                    assert(t.contains(i));
                    let m = choose|m: int| 0 <= m < init.len() && init[m] == i;
                    assert(order[m] == i);
                } else {
                    assert(order[order.len() - 1] == i);
                }
            }
            if order.contains(i) && offered(i, config, probes, deck) {
                let m = choose|m: int| 0 <= m < order.len() && order[m] == i;
                if m < init.len() {
                    assert(init[m] == i);
                    assert(t.contains(i));
                    let k = choose|k: int| 0 <= k < t.len() && t[k] == i;
                    assert(s[k] == i);
                } else {
                    assert(s[s.len() - 1] == i);
                }
            }
        }
        assert forall|a: int, b: int| 0 <= a < b < s.len() implies s[a].rank() < s[b].rank() by {
            if b == t.len() {
                assert(t.contains(t[a]));
                let m = choose|m: int| 0 <= m < init.len() && init[m] == t[a];
                assert(order[m] == t[a]);
                assert(order[order.len() - 1] == last);
            }
        }
    }
}

/// Once it is known whether the machine is a deck, an interface is on the bus if and only if
/// it is offered; and interfaces come in their order, so that none comes twice.
pub proof fn law_interfaces_iff_offered(
    config: Option<&PlatformConfig>,
    probes: Probes,
    interface: ManagerInterface,
)
    requires
        probes.deck is Ok,
    ensures
        interfaces(config, probes).contains(interface) <==> offered(
            interface,
            config,
            probes,
            probes.deck->Ok_0,
        ),
        forall|a: int, b: int|
            0 <= a < b < interfaces(config, probes).len() ==> interfaces(config, probes)[a].rank()
                < interfaces(config, probes)[b].rank(),
{
    let order = interface_order();
    lemma_offered_of(order, config, probes, probes.deck->Ok_0);
    assert(order[interface.rank()] == interface);
}

/// Without a platform configuration, what only the configuration can bring is not offered; the
/// rest of what is always offered still is.
pub proof fn law_interfaces_without_config(probes: Probes)
    requires
        probes.deck is Ok,
    ensures
        ({
            let s = interfaces(None, probes);
            &&& s.contains(ManagerInterface::Manager)
            &&& s.contains(ManagerInterface::CpuScaling1)
            &&& s.contains(ManagerInterface::Manager2)
            &&& s.contains(ManagerInterface::WifiDebug1)
            &&& s.contains(ManagerInterface::WifiPowerManagement1)
            &&& !s.contains(ManagerInterface::FactoryReset1)
            &&& !s.contains(ManagerInterface::FanControl1)
            &&& !s.contains(ManagerInterface::Storage1)
            &&& !s.contains(ManagerInterface::UpdateBios1)
            &&& !s.contains(ManagerInterface::UpdateDock1)
        }),
{
    law_interfaces_iff_offered(None, probes, ManagerInterface::Manager);
    law_interfaces_iff_offered(None, probes, ManagerInterface::CpuScaling1);
    law_interfaces_iff_offered(None, probes, ManagerInterface::Manager2);
    law_interfaces_iff_offered(None, probes, ManagerInterface::WifiDebug1);
    law_interfaces_iff_offered(None, probes, ManagerInterface::WifiPowerManagement1);
    law_interfaces_iff_offered(None, probes, ManagerInterface::FactoryReset1);
    law_interfaces_iff_offered(None, probes, ManagerInterface::FanControl1);
    law_interfaces_iff_offered(None, probes, ManagerInterface::Storage1);
    law_interfaces_iff_offered(None, probes, ManagerInterface::UpdateBios1);
    law_interfaces_iff_offered(None, probes, ManagerInterface::UpdateDock1);
}

/// A feature that comes with the platform can be discovered: its interface is offered if and
/// only if no request for the feature is turned down as not supported or not configured.
pub proof fn law_offered_iff_supported(
    config: Option<&PlatformConfig>,
    probes: Probes,
    deck: bool,
    kind: u32,
    device: Seq<char>,
    label: Seq<char>,
    validate: bool,
    state: FanControlState,
)
    ensures
        offered(ManagerInterface::FactoryReset1, config, probes, deck) <==> reset_step(
            part(config, |c: PlatformConfig| c.factory_reset),
            kind,
        ) is Ok,
        offered(ManagerInterface::UpdateBios1, config, probes, deck) <==> bios_job(config) is Ok,
        offered(ManagerInterface::UpdateDock1, config, probes, deck) <==> dock_job(config) is Ok,
        offered(ManagerInterface::Storage1, config, probes, deck) <==> trim_job(config) is Ok,
        offered(ManagerInterface::Storage1, config, probes, deck) <==> format_job(
            config,
            device,
            label,
            validate,
        ) is Ok,
        offered(ManagerInterface::FanControl1, config, probes, deck) <==> fan_action(
            fan_service(config),
            state,
        ) is Ok,
{
}

/// The names of governors.
pub fn available_cpu_scaling_governors(governors: &Vec<CPUScalingGovernor>) -> (r: Vec<String>)
    ensures
        texts(r@) == governors@.map_values(|g: CPUScalingGovernor| g.text()),
{
    let mut result: Vec<String> = Vec::new();
    let mut i: usize = 0;
    while i < governors.len()
        invariant
            i <= governors.len(),
            result@.len() == i,
            forall|k: int| 0 <= k < i ==> (#[trigger] result@[k])@ == governors@[k].text(),
        decreases governors.len() - i,
    {
        result.push(governors[i].to_string());
        i += 1;
    }
    assert(texts(result@) =~= governors@.map_values(|g: CPUScalingGovernor| g.text()));
    result
}

/// The names of performance levels.
pub fn available_gpu_performance_levels(levels: &Vec<GPUPerformanceLevel>) -> (r: Vec<String>)
    ensures
        texts(r@) == levels@.map_values(|l: GPUPerformanceLevel| l.text()),
{
    let mut result: Vec<String> = Vec::new();
    let mut i: usize = 0;
    while i < levels.len()
        invariant
            i <= levels.len(),
            result@.len() == i,
            forall|k: int| 0 <= k < i ==> (#[trigger] result@[k])@ == levels@[k].text(),
        decreases levels.len() - i,
    {
        result.push(levels[i].to_string());
        i += 1;
    }
    assert(texts(result@) =~= levels@.map_values(|l: GPUPerformanceLevel| l.text()));
    result
}

/// The number that tells whether the hardware is supported; that it could not be found out is
/// no error.
pub fn hardware_currently_supported(support: Result<HardwareCurrentlySupported, Failure>) -> (r:
    u32)
    ensures
        r == (match support {
            Ok(support) => support.number(),
            Err(_) => HardwareCurrentlySupported::Unknown.number(),
        }),
{
    match support {
        Ok(support) => support.value(),
        Err(_) => HardwareCurrentlySupported::Unknown.value(),
    }
}

/// The steps that bring the state of Consumer Electronics Control with number `state` about.
pub fn set_hdmi_cec_state(state: u32) -> (r: Result<Vec<CecStep>, BusError>)
    ensures
        match (r, HdmiCecState::of_number(state as int)) {
            (Ok(a), Ok(b)) => a@ == steps_to(b),
            (Err(a), Err(b)) => a@ == BusErrorView::InvalidArgs(b),
            _ => false,
        },
{
    match HdmiCecState::try_from(state) {
        Ok(state) => Ok(HdmiCecControl::set_enabled_state(state)),
        Err(err) => Err(BusError::InvalidArgs(err.message)),
    }
}

/// On every machine that is known to be a deck or not, what is offered follows from one thing
/// each: nothing but the light sensor's interface depends on the machine being a deck, what can
/// be read decides the probed interfaces, what is configured the configured ones, and the rest
/// is always offered.
pub proof fn law_each_interface(config: Option<&PlatformConfig>, probes: Probes)
    requires
        probes.deck is Ok,
    ensures
        ({
            let s = interfaces(config, probes);
            &&& s.contains(ManagerInterface::Manager)
            &&& s.contains(ManagerInterface::AmbientLightSensor1) <==> probes.deck->Ok_0
            &&& s.contains(ManagerInterface::CpuScaling1)
            &&& s.contains(ManagerInterface::FactoryReset1) <==> config is Some
                && config->0.factory_reset is Some
            &&& s.contains(ManagerInterface::FanControl1) <==> config is Some
                && config->0.fan_control is Some
            &&& s.contains(ManagerInterface::GpuPerformanceLevel1) <==> (
            probes.gpu_performance_levels is Ok && probes.gpu_performance_levels->Ok_0@.len() != 0)
            &&& s.contains(ManagerInterface::GpuPowerProfile1) <==> (probes.gpu_power_profiles is Ok
                && probes.gpu_power_profiles->Ok_0@.len() != 0)
            &&& s.contains(ManagerInterface::GpuTdpLimit1) <==> probes.tdp_limit is Ok
            &&& s.contains(ManagerInterface::HdmiCec1) <==> probes.hdmi_cec is Ok
            &&& s.contains(ManagerInterface::Manager2)
            &&& s.contains(ManagerInterface::Storage1) <==> config is Some
                && config->0.storage is Some
            &&& s.contains(ManagerInterface::UpdateBios1) <==> config is Some
                && config->0.update_bios is Some
            &&& s.contains(ManagerInterface::UpdateDock1) <==> config is Some
                && config->0.update_dock is Some
            &&& s.contains(ManagerInterface::WifiDebug1)
            &&& s.contains(ManagerInterface::WifiPowerManagement1)
            &&& s.first() == ManagerInterface::Manager
            &&& s.last() == ManagerInterface::WifiPowerManagement1
        }),
{
    let s = interfaces(config, probes);
    law_interfaces_iff_offered(config, probes, ManagerInterface::Manager);
    law_interfaces_iff_offered(config, probes, ManagerInterface::AmbientLightSensor1);
    law_interfaces_iff_offered(config, probes, ManagerInterface::CpuScaling1);
    law_interfaces_iff_offered(config, probes, ManagerInterface::FactoryReset1);
    law_interfaces_iff_offered(config, probes, ManagerInterface::FanControl1);
    law_interfaces_iff_offered(config, probes, ManagerInterface::GpuPerformanceLevel1);
    law_interfaces_iff_offered(config, probes, ManagerInterface::GpuPowerProfile1);
    law_interfaces_iff_offered(config, probes, ManagerInterface::GpuTdpLimit1);
    law_interfaces_iff_offered(config, probes, ManagerInterface::HdmiCec1);
    law_interfaces_iff_offered(config, probes, ManagerInterface::Manager2);
    law_interfaces_iff_offered(config, probes, ManagerInterface::Storage1);
    law_interfaces_iff_offered(config, probes, ManagerInterface::UpdateBios1);
    law_interfaces_iff_offered(config, probes, ManagerInterface::UpdateDock1);
    law_interfaces_iff_offered(config, probes, ManagerInterface::WifiDebug1);
    law_interfaces_iff_offered(config, probes, ManagerInterface::WifiPowerManagement1);
    let i = choose|i: int| 0 <= i < s.len() && s[i] == ManagerInterface::Manager;
    assert(s[i].rank() == 0);
    assert(i == 0) by {
        if i > 0 {
            assert(s[0].rank() < s[i].rank());
        }
    }
    let j = choose|j: int| 0 <= j < s.len() && s[j] == ManagerInterface::WifiPowerManagement1;
    assert(j == s.len() - 1) by {
        if j < s.len() - 1 {
            assert(s[j].rank() < s[s.len() - 1].rank());
        }
    }
}

/// Interfaces are put on the bus in this order, each at most once: the manager, the light
/// sensor, processor scaling, factory reset, the fan, the graphics processor's level, profile
/// and limit, Consumer Electronics Control, the second manager, storage, the two updates, and
/// wireless networking.
pub proof fn law_interface_places(
    config: Option<&PlatformConfig>,
    probes: Probes,
    a: int,
    b: int,
)
    requires
        probes.deck is Ok,
        0 <= a < b < interfaces(config, probes).len(),
    ensures
        ({
            let order = seq![
                ManagerInterface::Manager,
                ManagerInterface::AmbientLightSensor1,
                ManagerInterface::CpuScaling1,
                ManagerInterface::FactoryReset1,
                ManagerInterface::FanControl1,
                ManagerInterface::GpuPerformanceLevel1,
                ManagerInterface::GpuPowerProfile1,
                ManagerInterface::GpuTdpLimit1,
                ManagerInterface::HdmiCec1,
                ManagerInterface::Manager2,
                ManagerInterface::Storage1,
                ManagerInterface::UpdateBios1,
                ManagerInterface::UpdateDock1,
                ManagerInterface::WifiDebug1,
                ManagerInterface::WifiPowerManagement1,
            ];
            exists|i: int, j: int|
                0 <= i < j < order.len() && #[trigger] order[i] == interfaces(config, probes)[a]
                    && #[trigger] order[j] == interfaces(config, probes)[b]
        }),
{
    let s = interfaces(config, probes);
    law_interfaces_iff_offered(config, probes, s[a]);
    let order = interface_order();
    let i = s[a].rank();
    let j = s[b].rank();
    assert(order[i] == s[a]);
    assert(order[j] == s[b]);
}

/// Where the board cannot be told, the manager is all that is offered, whatever the platform
/// and the other probes say.
pub proof fn law_interfaces_of_unknown_board(config: Option<&PlatformConfig>, probes: Probes)
    requires
        probes.deck is Err,
    ensures
        interfaces(config, probes).len() == 1,
        interfaces(config, probes)[0] is Manager,
{
}

} // verus!
