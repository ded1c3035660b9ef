use guvnuh::commands::{cmd_name, Command, LiveParam, RunMode, RunPlan};

#[test]
fn command_names() {
    assert_eq!(cmd_name(&Command::Ping), "Ping");
    let p = RunPlan { mode: RunMode::OpenLoop, ramp_up_ms: 1, hold_ms: 2, ramp_down_ms: 3 };
    assert_eq!(cmd_name(&Command::Configure(p)), "Configure");
    assert_eq!(cmd_name(&Command::LiveAdjust(LiveParam::Duty)), "LiveAdjust");
    assert_eq!(cmd_name(&Command::EmergencyStop), "EmergencyStop");
    assert_eq!(cmd_name(&Command::Setpoints), "Set");
    assert_eq!(cmd_name(&Command::HelloAck), "HelloAck");
    assert_eq!(cmd_name(&Command::LoadProfile), "LoadProfile");
}
