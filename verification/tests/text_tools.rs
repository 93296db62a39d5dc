use kaneru::battery::PowerProfile;
use kaneru::battery::format_time_option;
use kaneru::battery::get_active_power_profile;
use kaneru::battery::get_available_power_profiles;
use kaneru::distro::DistroInfoError;
use kaneru::distro::get_distro_icon_name;
use kaneru::network::get_wifi_icon_name;
use kaneru::network::get_wifi_signal_icon_name;
use kaneru::text::chars_of;
use kaneru::text::string_from_chars;
use kaneru::text::trim_chars;

#[test]
fn chars_round_trip() {
    let v = chars_of("héllo wörld");
    assert_eq!(v.len(), 11);
    assert_eq!(string_from_chars(&v), "héllo wörld");
}

#[test]
fn trim_strips_unicode_white_space() {
    let v = chars_of(" \t\r\n value \u{a0}");
    assert_eq!(string_from_chars(&trim_chars(&v)), "value");
}

#[test]
fn format_time_reads_as_hours_and_padded_minutes() {
    assert_eq!(format_time_option(Some(3725)), "1h 02m");
    assert_eq!(format_time_option(Some(7800)), "2h 10m");
    assert_eq!(format_time_option(Some(360)), "6m");
    assert_eq!(format_time_option(Some(0)), "0m");
    assert_eq!(format_time_option(None), "");
}

#[test]
fn active_profile_parses_the_tool_output() {
    assert_eq!(get_active_power_profile("balanced\n"), Ok(PowerProfile::Balanced));
    assert_eq!(get_active_power_profile(" power-saver "), Ok(PowerProfile::PowerSaver));
    assert_eq!(get_active_power_profile("performance"), Ok(PowerProfile::Performance));
    assert_eq!(
        get_active_power_profile("quiet\n"),
        Ok(PowerProfile::Unknown(String::from("quiet")))
    );
}

#[test]
fn available_profiles_keep_the_fixed_order() {
    let out = "* power-saver\n  balanced\n  performance\n";
    assert_eq!(
        get_available_power_profiles(out),
        vec![PowerProfile::PowerSaver, PowerProfile::Balanced, PowerProfile::Performance]
    );
    assert_eq!(
        get_available_power_profiles("performance only"),
        vec![PowerProfile::Performance]
    );
    assert_eq!(get_available_power_profiles(""), Vec::<PowerProfile>::new());
}

#[test]
fn profile_names_round_trip() {
    assert_eq!(PowerProfile::parse("balanced").name(), "balanced");
    assert_eq!(PowerProfile::parse("turbo").name(), "turbo");
}

#[test]
fn distro_icon_prefers_the_logo_variable() {
    let content = "NAME=\"Fedora Linux\"\nID=fedora\nLOGO=fedora-logo-icon\n";
    assert_eq!(get_distro_icon_name(content), Ok(Some(String::from("fedora-logo-icon"))));
}

#[test]
fn distro_icon_falls_back_to_id() {
    let content = "# a comment\n\nNAME='Arch Linux'\nID=arch\n";
    assert_eq!(get_distro_icon_name(content), Ok(Some(String::from("arch"))));
}

#[test]
fn distro_icon_absent_when_neither_is_set() {
    assert_eq!(get_distro_icon_name("NAME=Foo\n"), Ok(None));
    assert_eq!(get_distro_icon_name(""), Ok(None));
}

#[test]
fn distro_icon_rejects_a_line_without_equals() {
    let content = "NAME=Foo\nbroken line\nID=foo\n";
    assert_eq!(
        get_distro_icon_name(content),
        Err(DistroInfoError::ParseError(String::from("broken line")))
    );
}

#[test]
fn distro_values_lose_their_quotes() {
    let content = "LOGO=\"quoted-logo\"\n";
    assert_eq!(get_distro_icon_name(content), Ok(Some(String::from("quoted-logo"))));
}

#[test]
fn wifi_signal_icons_follow_the_strength_bands() {
    assert_eq!(get_wifi_signal_icon_name(95), "network-wireless-signal-excellent-symbolic");
    assert_eq!(get_wifi_signal_icon_name(60), "network-wireless-signal-good-symbolic");
    assert_eq!(get_wifi_signal_icon_name(45), "network-wireless-signal-ok-symbolic");
    assert_eq!(get_wifi_signal_icon_name(20), "network-wireless-signal-weak-symbolic");
    assert_eq!(get_wifi_signal_icon_name(5), "network-wireless-signal-none-symbolic");
}

#[test]
fn wifi_icon_reports_offline_and_unknown_strength() {
    assert_eq!(get_wifi_icon_name(false, Some(90)), "network-wireless-offline-symbolic");
    assert_eq!(get_wifi_icon_name(true, None), "network-wireless-signal-none-symbolic");
    assert_eq!(get_wifi_icon_name(true, Some(90)), "network-wireless-signal-excellent-symbolic");
}
