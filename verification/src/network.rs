//! Network-related decisions on plain values: which icon a connection state
//! and signal strength select. Talking to the network daemon stays with the
//! shell.

use vstd::prelude::*;

verus! {

/// What can go wrong around the network daemon; the payloads carry the
/// underlying error's text.
#[derive(Debug, Clone, PartialEq, Eq)]
pub enum NetworkUtilError {
    Zbus(String),
    Nm(String),
    NoWifiDevice,
    Io(String),
    Utf8(String),
    TypeConversion(String),
    InvalidEnumValue(String),
    TryFromIntError(String),
}

/// The icon name for a signal strength, by the fixed strength bands.
pub open spec fn spec_wifi_signal_icon(strength: u8) -> Seq<char> {
    if 80 <= strength && strength <= 100 {
        "network-wireless-signal-excellent-symbolic"@
    } else if 60 <= strength && strength <= 79 {
        "network-wireless-signal-good-symbolic"@
    } else if 40 <= strength && strength <= 59 {
        "network-wireless-signal-ok-symbolic"@
    } else if 20 <= strength && strength <= 39 {
        "network-wireless-signal-weak-symbolic"@
    } else {
        "network-wireless-signal-none-symbolic"@
    }
}

/// The icon for an access point's signal strength.
pub fn get_wifi_signal_icon_name(strength: u8) -> (r: String)
    ensures
        r@ == spec_wifi_signal_icon(strength),
{
    if 80 <= strength && strength <= 100 {
        String::from_str("network-wireless-signal-excellent-symbolic")
    } else if 60 <= strength && strength <= 79 {
        String::from_str("network-wireless-signal-good-symbolic")
    } else if 40 <= strength && strength <= 59 {
        String::from_str("network-wireless-signal-ok-symbolic")
    } else if 20 <= strength && strength <= 39 {
        String::from_str("network-wireless-signal-weak-symbolic")
    } else {
        String::from_str("network-wireless-signal-none-symbolic")
    }
}

/// The icon summing up the connection: offline when disconnected, the signal
/// band when connected with a known strength, the no-signal icon otherwise.
pub fn get_wifi_icon_name(connected: bool, strength: Option<u8>) -> (r: String)
    ensures
        !connected ==> r@ == "network-wireless-offline-symbolic"@,
        connected ==> match strength {
            Some(s) => r@ == spec_wifi_signal_icon(s),
            None => r@ == "network-wireless-signal-none-symbolic"@,
        },
{
    if !connected {
        return String::from_str("network-wireless-offline-symbolic");
    }
    match strength {
        Some(s) => get_wifi_signal_icon_name(s),
        None => String::from_str("network-wireless-signal-none-symbolic"),
    }
}

} // verus!
