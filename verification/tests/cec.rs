use steamos_manager::cec::{CecQuery, CecStep, CecUnit, HdmiCecControl, HdmiCecState};
use steamos_manager::systemd::EnableState;

#[test]
fn hdmi_cec_state_roundtrip() {
    let all = [
        (0, "Disabled", "disabled", HdmiCecState::Disabled),
        (1, "ControlOnly", "control-only", HdmiCecState::ControlOnly),
        (2, "ControlAndWake", "control-and-wake", HdmiCecState::ControlAndWake),
    ];
    for (number, name, human, state) in all {
        assert_eq!(state.value(), number);
        assert_eq!(HdmiCecState::try_from(number).unwrap(), state);
        assert_eq!(state.to_string(), name);
        assert_eq!(state.to_human_readable(), human);
        assert_eq!(HdmiCecState::from_str(human).unwrap(), state);
    }
    assert_eq!(
        HdmiCecState::from_str("control-wake").unwrap(),
        HdmiCecState::ControlAndWake
    );
    assert_eq!(HdmiCecState::from_str("off").unwrap(), HdmiCecState::Disabled);
    assert_eq!(HdmiCecState::from_str("disable").unwrap(), HdmiCecState::Disabled);
    assert_eq!(
        HdmiCecState::from_str("Disabled").unwrap_err().to_string(),
        "No enum match for value Disabled"
    );
    assert_eq!(
        HdmiCecState::try_from(3).unwrap_err().to_string(),
        "No enum match for value {v}"
    );
}

#[test]
fn enabled_state_by_units() {
    let get = HdmiCecControl::get_enabled_state;
    assert_eq!(get(None, None), CecQuery::Ask(CecUnit::PlasmaRc));
    assert_eq!(get(Some(EnableState::Masked), None), CecQuery::State(HdmiCecState::Disabled));
    assert_eq!(get(Some(EnableState::Disabled), None), CecQuery::State(HdmiCecState::Disabled));
    assert_eq!(get(Some(EnableState::Static), None), CecQuery::Ask(CecUnit::Wakehook));
    assert_eq!(
        get(Some(EnableState::Enabled), Some(EnableState::Masked)),
        CecQuery::State(HdmiCecState::ControlOnly)
    );
    assert_eq!(
        get(Some(EnableState::Enabled), Some(EnableState::Static)),
        CecQuery::State(HdmiCecState::ControlAndWake)
    );
    assert_eq!(CecUnit::PlasmaRc.name(), "plasma-remotecontrollers.service");
    assert_eq!(CecUnit::Wakehook.name(), "wakehook.service");
}

#[test]
fn enabled_state_read_back() {
    let all = [
        HdmiCecState::Disabled,
        HdmiCecState::ControlOnly,
        HdmiCecState::ControlAndWake,
    ];
    for before in all {
        for state in all {
            let mut masked = [false, true];
            for step in HdmiCecControl::set_enabled_state(before)
                .into_iter()
                .chain(HdmiCecControl::set_enabled_state(state))
            {
                match step {
                    CecStep::Mask(CecUnit::PlasmaRc) => masked[0] = true,
                    CecStep::Mask(CecUnit::Wakehook) => masked[1] = true,
                    CecStep::Unmask(CecUnit::PlasmaRc) => masked[0] = false,
                    CecStep::Unmask(CecUnit::Wakehook) => masked[1] = false,
                    _ => (),
                }
            }
            let enabled = masked.map(|masked| {
                Some(if masked {
                    EnableState::Masked
                } else {
                    EnableState::Enabled
                })
            });
            assert_eq!(
                HdmiCecControl::get_enabled_state(enabled[0], enabled[1]),
                CecQuery::State(state)
            );
        }
    }
}

#[test]
fn steps_to_control_only() {
    assert_eq!(
        HdmiCecControl::set_enabled_state(HdmiCecState::ControlOnly),
        vec![
            CecStep::Mask(CecUnit::Wakehook),
            CecStep::Stop(CecUnit::Wakehook),
            CecStep::Unmask(CecUnit::PlasmaRc),
            CecStep::DaemonReload,
            CecStep::Start(CecUnit::PlasmaRc),
        ]
    );
}
