use power_bridge::executor::{plan, respond, Action, AttrError, AttrKind, AttrOutcome, Output};
use power_bridge::matcher::{parse_command, Command};
use power_bridge::text::render_decimal;

/// A fake attribute store: three in-memory attributes standing in for the
/// sysfs files, so the executor can be driven end to end.
struct FakeStore {
    current: Option<String>,
    max_limit: Option<String>,
    min_limit: Option<String>,
}

impl FakeStore {
    fn read(&self, kind: AttrKind) -> Result<String, AttrError> {
        let slot = match kind {
            AttrKind::CurrentLimit => &self.current,
            AttrKind::MaxLimit => &self.max_limit,
            AttrKind::MinLimit => &self.min_limit,
        };
        match slot {
            Some(text) => Ok(text.clone()),
            None => Err(AttrError::PathNotFound {
                path: "/sys/class/drm/card1/device/hwmon/hwmon2/power1_cap_max".to_string(),
            }),
        }
    }

    fn perform(&mut self, action: Action) -> AttrOutcome {
        match action {
            Action::WriteCurrentLimit(v) => {
                self.current = Some(render_decimal(v));
                AttrOutcome::Wrote(Ok(()))
            }
            Action::ReadAttr(kind) => AttrOutcome::ReadBack(self.read(kind)),
            Action::NoAccess => AttrOutcome::Skipped,
        }
    }
}

fn run(store: &mut FakeStore, line: &str) -> Output {
    let cmd = parse_command(line);
    let action = plan(&cmd);
    let outcome = store.perform(action);
    respond(cmd, outcome)
}

#[test]
fn plan_maps_each_variant() {
    assert_eq!(
        plan(&Command::SetPowerLimit(5)),
        Action::WriteCurrentLimit(5)
    );
    assert_eq!(
        plan(&Command::GetPowerLimit),
        Action::ReadAttr(AttrKind::CurrentLimit)
    );
    assert_eq!(plan(&Command::GetPowerMax), Action::ReadAttr(AttrKind::MaxLimit));
    assert_eq!(plan(&Command::GetPowerMin), Action::ReadAttr(AttrKind::MinLimit));
    assert_eq!(plan(&Command::Test("x".to_string())), Action::NoAccess);
    assert_eq!(plan(&Command::Unknown("?".to_string())), Action::NoAccess);
}

#[test]
fn set_success_notice_stays_local() {
    // Scenario: "setPowerLimit: 5\n" writes 5 to the current-limit attribute;
    // on success the notice is local and the peer hears nothing.
    let mut store = FakeStore {
        current: Some("0".to_string()),
        max_limit: None,
        min_limit: None,
    };
    let cmd = parse_command("setPowerLimit: 5\n");
    assert_eq!(cmd, Command::SetPowerLimit(5));
    let action = plan(&cmd);
    assert_eq!(action, Action::WriteCurrentLimit(5));
    let out = respond(cmd, store.perform(action));
    assert_eq!(out.peer, None);
    assert_eq!(
        out.local,
        Some("Successfully set GPU power limit.".to_string())
    );
    assert_eq!(store.current, Some("5".to_string()));
}

#[test]
fn set_failure_notice_stays_local() {
    let cmd = Command::SetPowerLimit(5);
    let err = AttrError::OpenFailed {
        path: "/sys/x/power1_cap".to_string(),
        cause: "permission denied".to_string(),
    };
    let out = respond(cmd, AttrOutcome::Wrote(Err(err)));
    assert_eq!(out.peer, None);
    assert_eq!(
        out.local,
        Some(
            "Failed to set GPU power limit: Failed to open /sys/x/power1_cap: \
             permission denied (try running as root with sudo)"
                .to_string()
        )
    );
}

#[test]
fn get_success_answers_peer_trimmed_and_framed() {
    let out = respond(
        Command::GetPowerLimit,
        AttrOutcome::ReadBack(Ok("212000000\n".to_string())),
    );
    assert_eq!(out.peer, Some("212000000\r\n".to_string()));
    assert_eq!(out.local, None);
}

#[test]
fn get_failure_answers_peer_with_cause() {
    // Scenario: "getPowerMax\r\n" with the attribute path missing answers the
    // peer with the failure sentence, same framing, and does not crash.
    let mut store = FakeStore {
        current: None,
        max_limit: None,
        min_limit: None,
    };
    let out = run(&mut store, "getPowerMax\r\n");
    assert_eq!(
        out.peer,
        Some(
            "Failed to read power_cap (Path not found: \
             /sys/class/drm/card1/device/hwmon/hwmon2/power1_cap_max)\r\n"
                .to_string()
        )
    );
    assert_eq!(out.local, None);
}

#[test]
fn test_command_logs_argument_locally() {
    let mut store = FakeStore {
        current: None,
        max_limit: None,
        min_limit: None,
    };
    let out = run(&mut store, "test hello");
    assert_eq!(out.peer, None);
    assert_eq!(out.local, Some("Received test argument: hello".to_string()));
}

#[test]
fn unknown_is_mirrored_locally_verbatim() {
    // Scenario: "banana\n" is classified Unknown, mirrored to local
    // diagnostics untrimmed, and the peer hears nothing.
    let mut store = FakeStore {
        current: None,
        max_limit: None,
        min_limit: None,
    };
    let out = run(&mut store, "banana\n");
    assert_eq!(out.peer, None);
    assert_eq!(out.local, Some("banana\n".to_string()));
}

#[test]
fn get_is_idempotent_without_intervening_set() {
    let mut store = FakeStore {
        current: Some("100000000\n".to_string()),
        max_limit: None,
        min_limit: None,
    };
    let first = run(&mut store, "getPowerLimit");
    let second = run(&mut store, "getPowerLimit");
    assert_eq!(first, second);
    assert_eq!(first.peer, Some("100000000\r\n".to_string()));
}

#[test]
fn set_then_get_round_trip() {
    let mut store = FakeStore {
        current: Some("0".to_string()),
        max_limit: None,
        min_limit: None,
    };
    let set_out = run(&mut store, "setPowerLimit: 150000000");
    assert_eq!(set_out.peer, None);
    let get_out = run(&mut store, "getPowerLimit");
    assert_eq!(get_out.peer, Some("150000000\r\n".to_string()));
}

#[test]
fn error_messages_name_path_and_cause() {
    let e = AttrError::PathNotFound {
        path: "/sys/p".to_string(),
    };
    assert_eq!(e.message(), "Path not found: /sys/p");
    let e = AttrError::ReadFailed {
        path: "/sys/p".to_string(),
        cause: "io".to_string(),
    };
    assert_eq!(e.message(), "Failed to read /sys/p: io");
    let e = AttrError::WriteFailed {
        path: "/sys/p".to_string(),
        cause: "io".to_string(),
    };
    assert_eq!(e.message(), "Failed to write /sys/p: io");
}

#[test]
fn render_decimal_exact_values() {
    assert_eq!(render_decimal(0), "0");
    assert_eq!(render_decimal(7), "7");
    assert_eq!(render_decimal(150_000_000), "150000000");
    assert_eq!(render_decimal(u32::MAX), "4294967295");
}
