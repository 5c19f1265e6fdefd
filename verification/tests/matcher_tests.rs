use power_bridge::matcher::{parse_command, Command};

#[test]
fn set_power_limit_parses() {
    assert_eq!(parse_command("setPowerLimit: 5"), Command::SetPowerLimit(5));
    assert_eq!(
        parse_command("setPowerLimit: 150000000"),
        Command::SetPowerLimit(150_000_000)
    );
}

#[test]
fn set_power_limit_without_space() {
    assert_eq!(parse_command("setPowerLimit:42"), Command::SetPowerLimit(42));
}

#[test]
fn set_power_limit_with_line_ending() {
    assert_eq!(parse_command("setPowerLimit: 5\n"), Command::SetPowerLimit(5));
    assert_eq!(
        parse_command("  setPowerLimit:   9  \r\n"),
        Command::SetPowerLimit(9)
    );
}

#[test]
fn set_power_limit_leading_zeros() {
    assert_eq!(parse_command("setPowerLimit: 007"), Command::SetPowerLimit(7));
}

#[test]
fn set_power_limit_at_u32_max() {
    assert_eq!(
        parse_command("setPowerLimit: 4294967295"),
        Command::SetPowerLimit(u32::MAX)
    );
}

#[test]
fn set_power_limit_overflow_is_unknown() {
    // One past the 32-bit maximum and a 20-digit monster both fall back to
    // Unknown carrying the untrimmed line, and neither panics.
    assert_eq!(
        parse_command("setPowerLimit: 4294967296"),
        Command::Unknown("setPowerLimit: 4294967296".to_string())
    );
    assert_eq!(
        parse_command("setPowerLimit: 99999999999999999999"),
        Command::Unknown("setPowerLimit: 99999999999999999999".to_string())
    );
}

#[test]
fn set_power_limit_malformed_payload_is_unknown() {
    assert_eq!(
        parse_command("setPowerLimit: "),
        Command::Unknown("setPowerLimit: ".to_string())
    );
    assert_eq!(
        parse_command("setPowerLimit: abc"),
        Command::Unknown("setPowerLimit: abc".to_string())
    );
    assert_eq!(
        parse_command("setPowerLimit: 12 34"),
        Command::Unknown("setPowerLimit: 12 34".to_string())
    );
    assert_eq!(
        parse_command("setPowerLimit: -5"),
        Command::Unknown("setPowerLimit: -5".to_string())
    );
}

#[test]
fn get_commands_parse() {
    assert_eq!(parse_command("getPowerLimit"), Command::GetPowerLimit);
    assert_eq!(parse_command("getPowerMax"), Command::GetPowerMax);
    assert_eq!(parse_command("getPowerMin"), Command::GetPowerMin);
}

#[test]
fn get_commands_tolerate_surrounding_whitespace() {
    assert_eq!(parse_command("getPowerLimit\r\n"), Command::GetPowerLimit);
    assert_eq!(parse_command("  getPowerMax  "), Command::GetPowerMax);
    assert_eq!(parse_command("\tgetPowerMin\n"), Command::GetPowerMin);
}

#[test]
fn get_commands_reject_internal_whitespace() {
    assert_eq!(
        parse_command("getPower Limit"),
        Command::Unknown("getPower Limit".to_string())
    );
}

#[test]
fn get_commands_are_case_sensitive() {
    assert_eq!(
        parse_command("getpowerlimit"),
        Command::Unknown("getpowerlimit".to_string())
    );
    assert_eq!(
        parse_command("GETPOWERMAX"),
        Command::Unknown("GETPOWERMAX".to_string())
    );
}

#[test]
fn get_commands_reject_trailing_text() {
    assert_eq!(
        parse_command("getPowerLimitX"),
        Command::Unknown("getPowerLimitX".to_string())
    );
}

#[test]
fn test_command_bare() {
    assert_eq!(parse_command("test"), Command::Test(String::new()));
    assert_eq!(parse_command("test\n"), Command::Test(String::new()));
}

#[test]
fn test_command_with_argument() {
    assert_eq!(
        parse_command("test hello world"),
        Command::Test("hello world".to_string())
    );
    assert_eq!(
        parse_command("test   spaced"),
        Command::Test("spaced".to_string())
    );
}

#[test]
fn test_command_needs_whitespace_before_argument() {
    assert_eq!(parse_command("testing"), Command::Unknown("testing".to_string()));
}

#[test]
fn unknown_carries_untrimmed_line() {
    assert_eq!(parse_command("banana\n"), Command::Unknown("banana\n".to_string()));
    assert_eq!(parse_command(""), Command::Unknown(String::new()));
    assert_eq!(parse_command("   "), Command::Unknown("   ".to_string()));
}
