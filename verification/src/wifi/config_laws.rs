//! What the access point's configurations say, and what sets it, stated apart from how they are
//! put together.

use vstd::prelude::*;
use vstd::string::*;

use crate::conf;
use crate::text;
use crate::wifi::config_gen::{self, ApConfigView, ApErrorView, ApLoadErrorView};
use crate::wifi::ipv4::{self, Ipv4Addr};
use crate::wifi::laws;

verus! {

proof fn lemma_interface_directive(config: ApConfigView)
    ensures
        laws::reads(config_gen::hostapd_lines(config), "interface="@, config.interface),
{
    let lines = config_gen::hostapd_lines(config);
    reveal_strlit("interface=");
    reveal_strlit("driver=nl80211");
    reveal_strlit("ssid=");
    reveal_strlit("hw_mode=g");
    reveal_strlit("channel=");
    reveal_strlit("country_code=");
    reveal_strlit("ieee80211n=1");
    reveal_strlit("wmm_enabled=1");
    reveal_strlit("auth_algs=1");
    reveal_strlit("wpa=2");
    reveal_strlit("wpa_key_mgmt=WPA-PSK");
    reveal_strlit("wpa_passphrase=");
    reveal_strlit("rsn_pairwise=CCMP");
    reveal_strlit("");
    assert(lines[0] == "interface="@ + config.interface);
    laws::lemma_other_label("interface="@, lines[1], 0);
    laws::lemma_other_label("interface="@, lines[2], 0);
    laws::lemma_other_label("interface="@, lines[3], 0);
    laws::lemma_other_label("interface="@, lines[4], 0);
    laws::lemma_other_label("interface="@, lines[5], 0);
    laws::lemma_other_label("interface="@, lines[6], 1);
    laws::lemma_other_label("interface="@, lines[7], 0);
    laws::lemma_other_label("interface="@, lines[8], 0);
    laws::lemma_other_label("interface="@, lines[9], 0);
    if config.psk is Some {
        laws::lemma_other_label("interface="@, lines[10], 0);
    }
    if config.psk is Some {
        laws::lemma_other_label("interface="@, lines[11], 0);
    }
    if config.psk is Some {
        laws::lemma_other_label("interface="@, lines[12], 0);
    }
    if config.psk is Some {
        laws::lemma_other_label("interface="@, lines[13], 0);
    }
}

proof fn lemma_ssid_directive(config: ApConfigView)
    ensures
        laws::reads(config_gen::hostapd_lines(config), "ssid="@, config.ssid),
{
    let lines = config_gen::hostapd_lines(config);
    reveal_strlit("interface=");
    reveal_strlit("driver=nl80211");
    reveal_strlit("ssid=");
    reveal_strlit("hw_mode=g");
    reveal_strlit("channel=");
    reveal_strlit("country_code=");
    reveal_strlit("ieee80211n=1");
    reveal_strlit("wmm_enabled=1");
    reveal_strlit("auth_algs=1");
    reveal_strlit("wpa=2");
    reveal_strlit("wpa_key_mgmt=WPA-PSK");
    reveal_strlit("wpa_passphrase=");
    reveal_strlit("rsn_pairwise=CCMP");
    reveal_strlit("");
    assert(lines[2] == "ssid="@ + config.ssid);
    laws::lemma_other_label("ssid="@, lines[0], 0);
    laws::lemma_other_label("ssid="@, lines[1], 0);
    laws::lemma_other_label("ssid="@, lines[3], 0);
    laws::lemma_other_label("ssid="@, lines[4], 0);
    laws::lemma_other_label("ssid="@, lines[5], 0);
    laws::lemma_other_label("ssid="@, lines[6], 0);
    laws::lemma_other_label("ssid="@, lines[7], 0);
    laws::lemma_other_label("ssid="@, lines[8], 0);
    laws::lemma_other_label("ssid="@, lines[9], 0);
    if config.psk is Some {
        laws::lemma_other_label("ssid="@, lines[10], 0);
    }
    if config.psk is Some {
        laws::lemma_other_label("ssid="@, lines[11], 0);
    }
    if config.psk is Some {
        laws::lemma_other_label("ssid="@, lines[12], 0);
    }
    if config.psk is Some {
        laws::lemma_other_label("ssid="@, lines[13], 0);
    }
}

proof fn lemma_channel_directive(config: ApConfigView)
    ensures
        laws::reads(config_gen::hostapd_lines(config), "channel="@, text::decimal(config.channel as nat)),
{
    let lines = config_gen::hostapd_lines(config);
    reveal_strlit("interface=");
    reveal_strlit("driver=nl80211");
    reveal_strlit("ssid=");
    reveal_strlit("hw_mode=g");
    reveal_strlit("channel=");
    reveal_strlit("country_code=");
    reveal_strlit("ieee80211n=1");
    reveal_strlit("wmm_enabled=1");
    reveal_strlit("auth_algs=1");
    reveal_strlit("wpa=2");
    reveal_strlit("wpa_key_mgmt=WPA-PSK");
    reveal_strlit("wpa_passphrase=");
    reveal_strlit("rsn_pairwise=CCMP");
    reveal_strlit("");
    assert(lines[4] == "channel="@ + text::decimal(config.channel as nat));
    laws::lemma_other_label("channel="@, lines[0], 0);
    laws::lemma_other_label("channel="@, lines[1], 0);
    laws::lemma_other_label("channel="@, lines[2], 0);
    laws::lemma_other_label("channel="@, lines[3], 0);
    laws::lemma_other_label("channel="@, lines[5], 1);
    laws::lemma_other_label("channel="@, lines[6], 0);
    laws::lemma_other_label("channel="@, lines[7], 0);
    laws::lemma_other_label("channel="@, lines[8], 0);
    laws::lemma_other_label("channel="@, lines[9], 0);
    if config.psk is Some {
        laws::lemma_other_label("channel="@, lines[10], 0);
    }
    if config.psk is Some {
        laws::lemma_other_label("channel="@, lines[11], 0);
    }
    if config.psk is Some {
        laws::lemma_other_label("channel="@, lines[12], 0);
    }
    if config.psk is Some {
        laws::lemma_other_label("channel="@, lines[13], 0);
    }
}

proof fn lemma_country_directive(config: ApConfigView)
    ensures
        laws::reads(config_gen::hostapd_lines(config), "country_code="@, config.country),
{
    let lines = config_gen::hostapd_lines(config);
    reveal_strlit("interface=");
    reveal_strlit("driver=nl80211");
    reveal_strlit("ssid=");
    reveal_strlit("hw_mode=g");
    reveal_strlit("channel=");
    reveal_strlit("country_code=");
    reveal_strlit("ieee80211n=1");
    reveal_strlit("wmm_enabled=1");
    reveal_strlit("auth_algs=1");
    reveal_strlit("wpa=2");
    reveal_strlit("wpa_key_mgmt=WPA-PSK");
    reveal_strlit("wpa_passphrase=");
    reveal_strlit("rsn_pairwise=CCMP");
    reveal_strlit("");
    assert(lines[5] == "country_code="@ + config.country);
    laws::lemma_other_label("country_code="@, lines[0], 0);
    laws::lemma_other_label("country_code="@, lines[1], 0);
    laws::lemma_other_label("country_code="@, lines[2], 0);
    laws::lemma_other_label("country_code="@, lines[3], 0);
    laws::lemma_other_label("country_code="@, lines[4], 1);
    laws::lemma_other_label("country_code="@, lines[6], 0);
    laws::lemma_other_label("country_code="@, lines[7], 0);
    laws::lemma_other_label("country_code="@, lines[8], 0);
    laws::lemma_other_label("country_code="@, lines[9], 0);
    if config.psk is Some {
        laws::lemma_other_label("country_code="@, lines[10], 0);
    }
    if config.psk is Some {
        laws::lemma_other_label("country_code="@, lines[11], 0);
    }
    if config.psk is Some {
        laws::lemma_other_label("country_code="@, lines[12], 0);
    }
    if config.psk is Some {
        laws::lemma_other_label("country_code="@, lines[13], 0);
    }
}

proof fn lemma_driver_directive(config: ApConfigView)
    ensures
        laws::reads(config_gen::hostapd_lines(config), "driver="@, "nl80211"@),
{
    let lines = config_gen::hostapd_lines(config);
    reveal_strlit("interface=");
    reveal_strlit("driver=nl80211");
    reveal_strlit("ssid=");
    reveal_strlit("hw_mode=g");
    reveal_strlit("channel=");
    reveal_strlit("country_code=");
    reveal_strlit("ieee80211n=1");
    reveal_strlit("wmm_enabled=1");
    reveal_strlit("auth_algs=1");
    reveal_strlit("wpa=2");
    reveal_strlit("wpa_key_mgmt=WPA-PSK");
    reveal_strlit("wpa_passphrase=");
    reveal_strlit("rsn_pairwise=CCMP");
    reveal_strlit("driver=");
    reveal_strlit("");
    reveal_strlit("nl80211");
    assert("driver=nl80211"@ =~= "driver="@ + "nl80211"@);
    assert(lines[1] == "driver="@ + "nl80211"@);
    laws::lemma_other_label("driver="@, lines[0], 0);
    laws::lemma_other_label("driver="@, lines[2], 0);
    laws::lemma_other_label("driver="@, lines[3], 0);
    laws::lemma_other_label("driver="@, lines[4], 0);
    laws::lemma_other_label("driver="@, lines[5], 0);
    laws::lemma_other_label("driver="@, lines[6], 0);
    laws::lemma_other_label("driver="@, lines[7], 0);
    laws::lemma_other_label("driver="@, lines[8], 0);
    laws::lemma_other_label("driver="@, lines[9], 0);
    if config.psk is Some {
        laws::lemma_other_label("driver="@, lines[10], 0);
    }
    if config.psk is Some {
        laws::lemma_other_label("driver="@, lines[11], 0);
    }
    if config.psk is Some {
        laws::lemma_other_label("driver="@, lines[12], 0);
    }
    if config.psk is Some {
        laws::lemma_other_label("driver="@, lines[13], 0);
    }
}

proof fn lemma_mode_directive(config: ApConfigView)
    ensures
        laws::reads(config_gen::hostapd_lines(config), "hw_mode="@, "g"@),
{
    let lines = config_gen::hostapd_lines(config);
    reveal_strlit("interface=");
    reveal_strlit("driver=nl80211");
    reveal_strlit("ssid=");
    reveal_strlit("hw_mode=g");
    reveal_strlit("channel=");
    reveal_strlit("country_code=");
    reveal_strlit("ieee80211n=1");
    reveal_strlit("wmm_enabled=1");
    reveal_strlit("auth_algs=1");
    reveal_strlit("wpa=2");
    reveal_strlit("wpa_key_mgmt=WPA-PSK");
    reveal_strlit("wpa_passphrase=");
    reveal_strlit("rsn_pairwise=CCMP");
    reveal_strlit("hw_mode=");
    reveal_strlit("");
    reveal_strlit("g");
    assert("hw_mode=g"@ =~= "hw_mode="@ + "g"@);
    assert(lines[3] == "hw_mode="@ + "g"@);
    laws::lemma_other_label("hw_mode="@, lines[0], 0);
    laws::lemma_other_label("hw_mode="@, lines[1], 0);
    laws::lemma_other_label("hw_mode="@, lines[2], 0);
    laws::lemma_other_label("hw_mode="@, lines[4], 0);
    laws::lemma_other_label("hw_mode="@, lines[5], 0);
    laws::lemma_other_label("hw_mode="@, lines[6], 0);
    laws::lemma_other_label("hw_mode="@, lines[7], 0);
    laws::lemma_other_label("hw_mode="@, lines[8], 0);
    laws::lemma_other_label("hw_mode="@, lines[9], 0);
    if config.psk is Some {
        laws::lemma_other_label("hw_mode="@, lines[10], 0);
    }
    if config.psk is Some {
        laws::lemma_other_label("hw_mode="@, lines[11], 0);
    }
    if config.psk is Some {
        laws::lemma_other_label("hw_mode="@, lines[12], 0);
    }
    if config.psk is Some {
        laws::lemma_other_label("hw_mode="@, lines[13], 0);
    }
}

proof fn lemma_passphrase_directive(config: ApConfigView)
    requires
        config.psk is Some,
    ensures
        laws::reads(config_gen::hostapd_lines(config), "wpa_passphrase="@, config.psk->0),
{
    let lines = config_gen::hostapd_lines(config);
    reveal_strlit("interface=");
    reveal_strlit("driver=nl80211");
    reveal_strlit("ssid=");
    reveal_strlit("hw_mode=g");
    reveal_strlit("channel=");
    reveal_strlit("country_code=");
    reveal_strlit("ieee80211n=1");
    reveal_strlit("wmm_enabled=1");
    reveal_strlit("auth_algs=1");
    reveal_strlit("wpa=2");
    reveal_strlit("wpa_key_mgmt=WPA-PSK");
    reveal_strlit("wpa_passphrase=");
    reveal_strlit("rsn_pairwise=CCMP");
    reveal_strlit("");
    assert(lines[12] == "wpa_passphrase="@ + config.psk->0);
    laws::lemma_other_label("wpa_passphrase="@, lines[0], 0);
    laws::lemma_other_label("wpa_passphrase="@, lines[1], 0);
    laws::lemma_other_label("wpa_passphrase="@, lines[2], 0);
    laws::lemma_other_label("wpa_passphrase="@, lines[3], 0);
    laws::lemma_other_label("wpa_passphrase="@, lines[4], 0);
    laws::lemma_other_label("wpa_passphrase="@, lines[5], 0);
    laws::lemma_other_label("wpa_passphrase="@, lines[6], 0);
    laws::lemma_other_label("wpa_passphrase="@, lines[7], 1);
    laws::lemma_other_label("wpa_passphrase="@, lines[8], 0);
    laws::lemma_other_label("wpa_passphrase="@, lines[9], 0);
    laws::lemma_other_label("wpa_passphrase="@, lines[10], 3);
    laws::lemma_other_label("wpa_passphrase="@, lines[11], 4);
    laws::lemma_other_label("wpa_passphrase="@, lines[13], 0);
}

proof fn lemma_wpa_directive(config: ApConfigView)
    requires
        config.psk is Some,
    ensures
        laws::reads(config_gen::hostapd_lines(config), "wpa="@, "2"@),
{
    let lines = config_gen::hostapd_lines(config);
    reveal_strlit("interface=");
    reveal_strlit("driver=nl80211");
    reveal_strlit("ssid=");
    reveal_strlit("hw_mode=g");
    reveal_strlit("channel=");
    reveal_strlit("country_code=");
    reveal_strlit("ieee80211n=1");
    reveal_strlit("wmm_enabled=1");
    reveal_strlit("auth_algs=1");
    reveal_strlit("wpa=2");
    reveal_strlit("wpa_key_mgmt=WPA-PSK");
    reveal_strlit("wpa_passphrase=");
    reveal_strlit("rsn_pairwise=CCMP");
    reveal_strlit("wpa=");
    reveal_strlit("");
    reveal_strlit("2");
    assert("wpa=2"@ =~= "wpa="@ + "2"@);
    assert(lines[10] == "wpa="@ + "2"@);
    laws::lemma_other_label("wpa="@, lines[0], 0);
    laws::lemma_other_label("wpa="@, lines[1], 0);
    laws::lemma_other_label("wpa="@, lines[2], 0);
    laws::lemma_other_label("wpa="@, lines[3], 0);
    laws::lemma_other_label("wpa="@, lines[4], 0);
    laws::lemma_other_label("wpa="@, lines[5], 0);
    laws::lemma_other_label("wpa="@, lines[6], 0);
    laws::lemma_other_label("wpa="@, lines[7], 1);
    laws::lemma_other_label("wpa="@, lines[8], 0);
    laws::lemma_other_label("wpa="@, lines[9], 0);
    laws::lemma_other_label("wpa="@, lines[11], 3);
    laws::lemma_other_label("wpa="@, lines[12], 3);
    laws::lemma_other_label("wpa="@, lines[13], 0);
}

proof fn lemma_key_management_directive(config: ApConfigView)
    requires
        config.psk is Some,
    ensures
        laws::reads(config_gen::hostapd_lines(config), "wpa_key_mgmt="@, "WPA-PSK"@),
{
    let lines = config_gen::hostapd_lines(config);
    reveal_strlit("interface=");
    reveal_strlit("driver=nl80211");
    reveal_strlit("ssid=");
    reveal_strlit("hw_mode=g");
    reveal_strlit("channel=");
    reveal_strlit("country_code=");
    reveal_strlit("ieee80211n=1");
    reveal_strlit("wmm_enabled=1");
    reveal_strlit("auth_algs=1");
    reveal_strlit("wpa=2");
    reveal_strlit("wpa_key_mgmt=WPA-PSK");
    reveal_strlit("wpa_passphrase=");
    reveal_strlit("rsn_pairwise=CCMP");
    reveal_strlit("wpa_key_mgmt=");
    reveal_strlit("");
    reveal_strlit("WPA-PSK");
    assert("wpa_key_mgmt=WPA-PSK"@ =~= "wpa_key_mgmt="@ + "WPA-PSK"@);
    assert(lines[11] == "wpa_key_mgmt="@ + "WPA-PSK"@);
    laws::lemma_other_label("wpa_key_mgmt="@, lines[0], 0);
    laws::lemma_other_label("wpa_key_mgmt="@, lines[1], 0);
    laws::lemma_other_label("wpa_key_mgmt="@, lines[2], 0);
    laws::lemma_other_label("wpa_key_mgmt="@, lines[3], 0);
    laws::lemma_other_label("wpa_key_mgmt="@, lines[4], 0);
    laws::lemma_other_label("wpa_key_mgmt="@, lines[5], 0);
    laws::lemma_other_label("wpa_key_mgmt="@, lines[6], 0);
    laws::lemma_other_label("wpa_key_mgmt="@, lines[7], 1);
    laws::lemma_other_label("wpa_key_mgmt="@, lines[8], 0);
    laws::lemma_other_label("wpa_key_mgmt="@, lines[9], 0);
    laws::lemma_other_label("wpa_key_mgmt="@, lines[10], 3);
    laws::lemma_other_label("wpa_key_mgmt="@, lines[12], 4);
    laws::lemma_other_label("wpa_key_mgmt="@, lines[13], 0);
}

proof fn lemma_cipher_directive(config: ApConfigView)
    requires
        config.psk is Some,
    ensures
        laws::reads(config_gen::hostapd_lines(config), "rsn_pairwise="@, "CCMP"@),
{
    let lines = config_gen::hostapd_lines(config);
    reveal_strlit("interface=");
    reveal_strlit("driver=nl80211");
    reveal_strlit("ssid=");
    reveal_strlit("hw_mode=g");
    reveal_strlit("channel=");
    reveal_strlit("country_code=");
    reveal_strlit("ieee80211n=1");
    reveal_strlit("wmm_enabled=1");
    reveal_strlit("auth_algs=1");
    reveal_strlit("wpa=2");
    reveal_strlit("wpa_key_mgmt=WPA-PSK");
    reveal_strlit("wpa_passphrase=");
    reveal_strlit("rsn_pairwise=CCMP");
    reveal_strlit("rsn_pairwise=");
    reveal_strlit("");
    reveal_strlit("CCMP");
    assert("rsn_pairwise=CCMP"@ =~= "rsn_pairwise="@ + "CCMP"@);
    assert(lines[13] == "rsn_pairwise="@ + "CCMP"@);
    laws::lemma_other_label("rsn_pairwise="@, lines[0], 0);
    laws::lemma_other_label("rsn_pairwise="@, lines[1], 0);
    laws::lemma_other_label("rsn_pairwise="@, lines[2], 0);
    laws::lemma_other_label("rsn_pairwise="@, lines[3], 0);
    laws::lemma_other_label("rsn_pairwise="@, lines[4], 0);
    laws::lemma_other_label("rsn_pairwise="@, lines[5], 0);
    laws::lemma_other_label("rsn_pairwise="@, lines[6], 0);
    laws::lemma_other_label("rsn_pairwise="@, lines[7], 0);
    laws::lemma_other_label("rsn_pairwise="@, lines[8], 0);
    laws::lemma_other_label("rsn_pairwise="@, lines[9], 0);
    laws::lemma_other_label("rsn_pairwise="@, lines[10], 0);
    laws::lemma_other_label("rsn_pairwise="@, lines[11], 0);
    laws::lemma_other_label("rsn_pairwise="@, lines[12], 0);
}

proof fn lemma_dhcp_interface(config: ApConfigView)
    ensures
        laws::reads(config_gen::dnsmasq_lines(config), "interface="@, config.interface),
{
    let lines = config_gen::dnsmasq_lines(config);
    reveal_strlit("interface=");
    reveal_strlit("bind-interfaces");
    reveal_strlit("dhcp-range=");
    reveal_strlit("dhcp-option=3,");
    reveal_strlit("dhcp-option=6,");
    reveal_strlit("domain-needed");
    reveal_strlit("bogus-priv");
    assert(lines[0] == "interface="@ + config.interface);
    laws::lemma_other_label("interface="@, lines[1], 0);
    laws::lemma_other_label("interface="@, lines[2], 0);
    laws::lemma_other_label("interface="@, lines[3], 0);
    laws::lemma_other_label("interface="@, lines[4], 0);
    laws::lemma_other_label("interface="@, lines[5], 0);
    laws::lemma_other_label("interface="@, lines[6], 0);
}

proof fn lemma_dhcp_router(config: ApConfigView)
    ensures
        laws::reads(config_gen::dnsmasq_lines(config), "dhcp-option=3,"@, ipv4::dotted(config.address)),
{
    let lines = config_gen::dnsmasq_lines(config);
    reveal_strlit("interface=");
    reveal_strlit("bind-interfaces");
    reveal_strlit("dhcp-range=");
    reveal_strlit("dhcp-option=3,");
    reveal_strlit("dhcp-option=6,");
    reveal_strlit("domain-needed");
    reveal_strlit("bogus-priv");
    assert(lines[3] == "dhcp-option=3,"@ + ipv4::dotted(config.address));
    laws::lemma_other_label("dhcp-option=3,"@, lines[0], 0);
    laws::lemma_other_label("dhcp-option=3,"@, lines[1], 0);
    laws::lemma_other_label("dhcp-option=3,"@, lines[2], 5);
    laws::lemma_other_label("dhcp-option=3,"@, lines[4], 12);
    laws::lemma_other_label("dhcp-option=3,"@, lines[5], 1);
    laws::lemma_other_label("dhcp-option=3,"@, lines[6], 0);
}

proof fn lemma_dhcp_dns(config: ApConfigView)
    ensures
        laws::reads(config_gen::dnsmasq_lines(config), "dhcp-option=6,"@, ipv4::dotted(config.address)),
{
    let lines = config_gen::dnsmasq_lines(config);
    reveal_strlit("interface=");
    reveal_strlit("bind-interfaces");
    reveal_strlit("dhcp-range=");
    reveal_strlit("dhcp-option=3,");
    reveal_strlit("dhcp-option=6,");
    reveal_strlit("domain-needed");
    reveal_strlit("bogus-priv");
    assert(lines[4] == "dhcp-option=6,"@ + ipv4::dotted(config.address));
    laws::lemma_other_label("dhcp-option=6,"@, lines[0], 0);
    laws::lemma_other_label("dhcp-option=6,"@, lines[1], 0);
    laws::lemma_other_label("dhcp-option=6,"@, lines[2], 5);
    laws::lemma_other_label("dhcp-option=6,"@, lines[3], 12);
    laws::lemma_other_label("dhcp-option=6,"@, lines[5], 1);
    laws::lemma_other_label("dhcp-option=6,"@, lines[6], 0);
}

proof fn lemma_dhcp_range(config: ApConfigView)
    ensures
        laws::reads(config_gen::dnsmasq_lines(config), "dhcp-range="@, (ipv4::dotted(config.dhcp_range_start) + ","@ + ipv4::dotted(config.dhcp_range_end) + ","@ + ipv4::dotted(config.netmask) + ","@ + config.dhcp_lease_time)),
{
    let lines = config_gen::dnsmasq_lines(config);
    reveal_strlit("interface=");
    reveal_strlit("bind-interfaces");
    reveal_strlit("dhcp-range=");
    reveal_strlit("dhcp-option=3,");
    reveal_strlit("dhcp-option=6,");
    reveal_strlit("domain-needed");
    reveal_strlit("bogus-priv");
    assert(lines[2] =~= "dhcp-range="@ + (ipv4::dotted(config.dhcp_range_start) + ","@ + ipv4::dotted(config.dhcp_range_end) + ","@ + ipv4::dotted(config.netmask) + ","@ + config.dhcp_lease_time));
    assert(lines[2] == "dhcp-range="@ + (ipv4::dotted(config.dhcp_range_start) + ","@ + ipv4::dotted(config.dhcp_range_end) + ","@ + ipv4::dotted(config.netmask) + ","@ + config.dhcp_lease_time));
    laws::lemma_other_label("dhcp-range="@, lines[0], 0);
    laws::lemma_other_label("dhcp-range="@, lines[1], 0);
    laws::lemma_other_label("dhcp-range="@, lines[3], 5);
    laws::lemma_other_label("dhcp-range="@, lines[4], 5);
    laws::lemma_other_label("dhcp-range="@, lines[5], 1);
    laws::lemma_other_label("dhcp-range="@, lines[6], 0);
}

/// The hostapd configuration says each thing once, and what it says is what is configured: the
/// interface, the network's name, the channel and the country, on the 2.4 GHz band, and a
/// passphrase if and only if there is one.
pub proof fn hostapd_serves_what_is_configured(config: ApConfigView)
    ensures
        laws::reads(config_gen::hostapd_lines(config), "interface="@, config.interface),
        laws::reads(config_gen::hostapd_lines(config), "driver="@, "nl80211"@),
        laws::reads(config_gen::hostapd_lines(config), "ssid="@, config.ssid),
        laws::reads(config_gen::hostapd_lines(config), "hw_mode="@, "g"@),
        laws::reads(
            config_gen::hostapd_lines(config),
            "channel="@,
            text::decimal(config.channel as nat),
        ),
        laws::reads(config_gen::hostapd_lines(config), "country_code="@, config.country),
        config.psk matches Some(psk) ==> {
            &&& laws::reads(config_gen::hostapd_lines(config), "wpa="@, "2"@)
            &&& laws::reads(config_gen::hostapd_lines(config), "wpa_key_mgmt="@, "WPA-PSK"@)
            &&& laws::reads(config_gen::hostapd_lines(config), "wpa_passphrase="@, psk)
            &&& laws::reads(config_gen::hostapd_lines(config), "rsn_pairwise="@, "CCMP"@)
        },
        config.psk is None ==> laws::silent(config_gen::hostapd_lines(config), "wpa"@),
{
    lemma_interface_directive(config);
    lemma_driver_directive(config);
    lemma_ssid_directive(config);
    lemma_mode_directive(config);
    lemma_channel_directive(config);
    lemma_country_directive(config);
    if config.psk is Some {
        lemma_wpa_directive(config);
        lemma_key_management_directive(config);
        lemma_passphrase_directive(config);
        lemma_cipher_directive(config);
    } else {
        config_gen::open_network_has_no_wpa_directive(config);
        let lines = config_gen::hostapd_lines(config);
        assert forall|i: int| 0 <= i < lines.len() implies !text::has_prefix(
            #[trigger] lines[i],
            "wpa"@,
        ) by {
            assert(!config_gen::is_wpa_line(lines[i]));
        }
    }
}

/// What hostapd reads as its channel is the configured channel.
pub proof fn hostapd_reads_the_configured_channel(config: ApConfigView, value: Seq<char>)
    requires
        laws::reads(config_gen::hostapd_lines(config), "channel="@, value),
    ensures
        text::number_of(value, 255) == Some(config.channel as nat),
{
    lemma_channel_directive(config);
    laws::a_report_reads_one_way(
        config_gen::hostapd_lines(config),
        "channel="@,
        value,
        text::decimal(config.channel as nat),
    );
    text::lemma_number_round_trip(config.channel as nat, 255);
}

/// Two configurations that differ in anything that hostapd is told are told apart.
pub proof fn hostapd_tells_configurations_apart(a: ApConfigView, b: ApConfigView)
    requires
        a.interface != b.interface || a.ssid != b.ssid || a.channel != b.channel || a.country
            != b.country || a.psk != b.psk,
    ensures
        config_gen::hostapd_lines(a) != config_gen::hostapd_lines(b),
{
    let lines = config_gen::hostapd_lines(a);
    if lines == config_gen::hostapd_lines(b) {
        hostapd_serves_what_is_configured(a);
        hostapd_serves_what_is_configured(b);
        laws::a_report_reads_one_way(lines, "interface="@, a.interface, b.interface);
        laws::a_report_reads_one_way(lines, "ssid="@, a.ssid, b.ssid);
        laws::a_report_reads_one_way(lines, "country_code="@, a.country, b.country);
        hostapd_reads_the_configured_channel(a, text::decimal(b.channel as nat));
        hostapd_reads_the_configured_channel(b, text::decimal(b.channel as nat));
        config_gen::open_network_has_no_wpa_directive(a);
        config_gen::open_network_has_no_wpa_directive(b);
        if a.psk is Some && b.psk is Some {
            laws::a_report_reads_one_way(lines, "wpa_passphrase="@, a.psk->0, b.psk->0);
        }
    }
}

/// The dnsmasq configuration says each thing once, and what it says is what is configured: the
/// interface, the range it leases with its netmask and for how long, and this robot as router and
/// name server.
pub proof fn dnsmasq_leases_what_is_configured(config: ApConfigView)
    ensures
        laws::reads(config_gen::dnsmasq_lines(config), "interface="@, config.interface),
        laws::reads(
            config_gen::dnsmasq_lines(config),
            "dhcp-range="@,
            ipv4::dotted(config.dhcp_range_start) + ","@ + ipv4::dotted(config.dhcp_range_end) + ","@ + ipv4::dotted(config.netmask) + ","@ + config.dhcp_lease_time,
        ),
        laws::reads(
            config_gen::dnsmasq_lines(config),
            "dhcp-option=3,"@,
            ipv4::dotted(config.address),
        ),
        laws::reads(
            config_gen::dnsmasq_lines(config),
            "dhcp-option=6,"@,
            ipv4::dotted(config.address),
        ),
{
    lemma_dhcp_interface(config);
    lemma_dhcp_range(config);
    lemma_dhcp_router(config);
    lemma_dhcp_dns(config);
}

/// The keys of `fallback-ap.conf`.
pub open spec fn ap_keys() -> Seq<Seq<char>> {
    seq![
        "AP_SSID"@,
        "AP_SSID_SUFFIX"@,
        "AP_PSK"@,
        "AP_ADDRESS"@,
        "AP_NETMASK"@,
        "AP_NETMASK_CIDR"@,
        "AP_DHCP_RANGE_START"@,
        "AP_DHCP_RANGE_END"@,
        "AP_DHCP_LEASE_TIME"@,
        "AP_CHANNEL"@,
        "AP_COUNTRY"@,
    ]
}

/// What tells the keys apart: their lengths, and a character.
spec fn mark(key: Seq<char>) -> (nat, char) {
    (key.len(), key[4])
}

proof fn lemma_keys()
    ensures
        mark("AP_SSID"@) == (7nat, 'S'),
        mark("AP_SSID_SUFFIX"@) == (14nat, 'S'),
        mark("AP_PSK"@) == (6nat, 'S'),
        mark("AP_ADDRESS"@) == (10nat, 'D'),
        mark("AP_NETMASK"@) == (10nat, 'E'),
        mark("AP_NETMASK_CIDR"@) == (15nat, 'E'),
        mark("AP_DHCP_RANGE_START"@) == (19nat, 'H'),
        mark("AP_DHCP_RANGE_END"@) == (17nat, 'H'),
        mark("AP_DHCP_LEASE_TIME"@) == (18nat, 'H'),
        mark("AP_CHANNEL"@) == (10nat, 'H'),
        mark("AP_COUNTRY"@) == (10nat, 'O'),
        forall|i: int| 0 <= i < 11 ==> key_is_plain(#[trigger] ap_keys()[i]),
{
    reveal_strlit("AP_SSID");
    reveal_strlit("AP_SSID_SUFFIX");
    reveal_strlit("AP_PSK");
    reveal_strlit("AP_ADDRESS");
    reveal_strlit("AP_NETMASK");
    reveal_strlit("AP_NETMASK_CIDR");
    reveal_strlit("AP_DHCP_RANGE_START");
    reveal_strlit("AP_DHCP_RANGE_END");
    reveal_strlit("AP_DHCP_LEASE_TIME");
    reveal_strlit("AP_CHANNEL");
    reveal_strlit("AP_COUNTRY");
    let keys = ap_keys();
    assert(keys[0] == "AP_SSID"@ && key_is_plain("AP_SSID"@));
    assert(keys[1] == "AP_SSID_SUFFIX"@ && key_is_plain("AP_SSID_SUFFIX"@));
    assert(keys[2] == "AP_PSK"@ && key_is_plain("AP_PSK"@));
    assert(keys[3] == "AP_ADDRESS"@ && key_is_plain("AP_ADDRESS"@));
    assert(keys[4] == "AP_NETMASK"@ && key_is_plain("AP_NETMASK"@));
    assert(keys[5] == "AP_NETMASK_CIDR"@ && key_is_plain("AP_NETMASK_CIDR"@));
    assert(keys[6] == "AP_DHCP_RANGE_START"@ && key_is_plain("AP_DHCP_RANGE_START"@));
    assert(keys[7] == "AP_DHCP_RANGE_END"@ && key_is_plain("AP_DHCP_RANGE_END"@));
    assert(keys[8] == "AP_DHCP_LEASE_TIME"@ && key_is_plain("AP_DHCP_LEASE_TIME"@));
    assert(keys[9] == "AP_CHANNEL"@ && key_is_plain("AP_CHANNEL"@));
    assert(keys[10] == "AP_COUNTRY"@ && key_is_plain("AP_COUNTRY"@));
    assert forall|i: int| 0 <= i < 11 implies key_is_plain(#[trigger] keys[i]) by {
        assert(i == 0 || i == 1 || i == 2 || i == 3 || i == 4 || i == 5 || i == 6 || i == 7 || i == 8 || i == 9 || i == 10);
    }
}

/// A key that can be set and read.
pub open spec fn key_is_plain(key: Seq<char>) -> bool {
    &&& key.len() > 0
    &&& !text::is_whitespace(key[0])
    &&& forall|i: int| 0 <= i < key.len() ==> #[trigger] key[i] != '\n' && key[i] != '='
}

/// A value that reads as it is written.
pub open spec fn is_plain(value: Seq<char>) -> bool {
    &&& value.len() > 0
    &&& !value.contains('\n')
    &&& conf::unquoted(text::trimmed(value)) == value
}

/// `fallback-ap.conf` with `key` set to `value`.
pub open spec fn set(text: Seq<char>, key: Seq<char>, value: Seq<char>) -> Seq<char> {
    conf::with_key_set(Some(text), key, value)
}

/// Setting one key sets it, and leaves the others as they were.
proof fn lemma_set(text: Seq<char>, k: int, value: Seq<char>)
    requires
        0 <= k < 11,
        is_plain(value),
    ensures
        conf::value_of(set(text, ap_keys()[k], value), ap_keys()[k]) == Some(value),
        forall|j: int|
            0 <= j < 11 && mark(ap_keys()[j]) != mark(ap_keys()[k]) ==> conf::value_of(
                set(text, ap_keys()[k], value),
                #[trigger] ap_keys()[j],
            ) == conf::value_of(text, ap_keys()[j]),
{
    lemma_keys();
    let key = ap_keys()[k];
    assert(key_is_plain(key));
    assert(!key.contains('\n') && !key.contains('='));
    conf::set_key_reads_back(Some(text), key, value);
    assert forall|j: int| 0 <= j < 11 && mark(ap_keys()[j]) != mark(key) implies conf::value_of(
        set(text, key, value),
        #[trigger] ap_keys()[j],
    ) == conf::value_of(text, ap_keys()[j]) by {
        let other = ap_keys()[j];
        assert(key_is_plain(other));
        assert(!other.contains('='));
        conf::set_key_keeps_other_keys(Some(text), key, value, other);
    }
}

proof fn lemma_decimal_is_plain(n: nat)
    ensures
        is_plain(text::decimal(n)),
{
    let s = text::decimal(n);
    text::lemma_decimal_reads_back(n);
    assert(text::is_digit(s[0]));
    assert(text::is_digit(s[s.len() - 1]));
    assert(text::trim_start_of(s) == s);
    assert(text::trim_end_of(s) == s);
    assert forall|i: int| 0 <= i < s.len() implies s[i] != '\n' by {
        assert(text::is_digit(s[i]));
    }
}

proof fn lemma_dotted_is_plain(addr: Ipv4Addr)
    ensures
        is_plain(ipv4::dotted(addr)),
{
    let s = ipv4::dotted(addr);
    text::lemma_decimal_reads_back(addr.0 as nat);
    assert(s.len() > 0);
    assert forall|i: int| 0 <= i < s.len() implies (text::is_digit(#[trigger] s[i]) || s[i] == '.')
        by {
        laws::lemma_dotted_chars(addr, i);
    }
    assert(text::is_digit(s[0]) || s[0] == '.');
    assert(text::is_digit(s[s.len() - 1]) || s[s.len() - 1] == '.');
    assert(text::trim_start_of(s) == s);
    assert(text::trim_end_of(s) == s);
    assert forall|i: int| 0 <= i < s.len() implies s[i] != '\n' by {
        assert(text::is_digit(s[i]) || s[i] == '.');
    }
}

/// `AP_ADDRESS` sets the address of the access point, and nothing else.
pub proof fn the_address_is_set_by_its_key(
    text: Seq<char>,
    interface: Seq<char>,
    robot_id: Seq<char>,
    addr: Ipv4Addr,
)
    ensures
        config_gen::ap_config_of(set(text, "AP_ADDRESS"@, ipv4::dotted(addr)), interface, robot_id) == (ApConfigView {
            address: addr,
            ..config_gen::ap_config_of(text, interface, robot_id)
        }),
{
    lemma_keys();
    lemma_dotted_is_plain(addr);
    ipv4::written_address_reads_back(addr);
    lemma_set(text, 3, ipv4::dotted(addr));
    assert(ap_keys()[3] == "AP_ADDRESS"@);
    assert(ap_keys()[0] == "AP_SSID"@);
    assert(ap_keys()[1] == "AP_SSID_SUFFIX"@);
    assert(ap_keys()[2] == "AP_PSK"@);
    assert(ap_keys()[4] == "AP_NETMASK"@);
    assert(ap_keys()[5] == "AP_NETMASK_CIDR"@);
    assert(ap_keys()[6] == "AP_DHCP_RANGE_START"@);
    assert(ap_keys()[7] == "AP_DHCP_RANGE_END"@);
    assert(ap_keys()[8] == "AP_DHCP_LEASE_TIME"@);
    assert(ap_keys()[9] == "AP_CHANNEL"@);
    assert(ap_keys()[10] == "AP_COUNTRY"@);
}

/// `AP_NETMASK` sets the netmask, and nothing else.
pub proof fn the_netmask_is_set_by_its_key(
    text: Seq<char>,
    interface: Seq<char>,
    robot_id: Seq<char>,
    addr: Ipv4Addr,
)
    ensures
        config_gen::ap_config_of(set(text, "AP_NETMASK"@, ipv4::dotted(addr)), interface, robot_id) == (ApConfigView {
            netmask: addr,
            ..config_gen::ap_config_of(text, interface, robot_id)
        }),
{
    lemma_keys();
    lemma_dotted_is_plain(addr);
    ipv4::written_address_reads_back(addr);
    lemma_set(text, 4, ipv4::dotted(addr));
    assert(ap_keys()[4] == "AP_NETMASK"@);
    assert(ap_keys()[0] == "AP_SSID"@);
    assert(ap_keys()[1] == "AP_SSID_SUFFIX"@);
    assert(ap_keys()[2] == "AP_PSK"@);
    assert(ap_keys()[3] == "AP_ADDRESS"@);
    assert(ap_keys()[5] == "AP_NETMASK_CIDR"@);
    assert(ap_keys()[6] == "AP_DHCP_RANGE_START"@);
    assert(ap_keys()[7] == "AP_DHCP_RANGE_END"@);
    assert(ap_keys()[8] == "AP_DHCP_LEASE_TIME"@);
    assert(ap_keys()[9] == "AP_CHANNEL"@);
    assert(ap_keys()[10] == "AP_COUNTRY"@);
}

/// `AP_DHCP_RANGE_START` sets the first address that is leased, and nothing else.
pub proof fn the_range_start_is_set_by_its_key(
    text: Seq<char>,
    interface: Seq<char>,
    robot_id: Seq<char>,
    addr: Ipv4Addr,
)
    ensures
        config_gen::ap_config_of(set(text, "AP_DHCP_RANGE_START"@, ipv4::dotted(addr)), interface, robot_id) == (ApConfigView {
            dhcp_range_start: addr,
            ..config_gen::ap_config_of(text, interface, robot_id)
        }),
{
    lemma_keys();
    lemma_dotted_is_plain(addr);
    ipv4::written_address_reads_back(addr);
    lemma_set(text, 6, ipv4::dotted(addr));
    assert(ap_keys()[6] == "AP_DHCP_RANGE_START"@);
    assert(ap_keys()[0] == "AP_SSID"@);
    assert(ap_keys()[1] == "AP_SSID_SUFFIX"@);
    assert(ap_keys()[2] == "AP_PSK"@);
    assert(ap_keys()[3] == "AP_ADDRESS"@);
    assert(ap_keys()[4] == "AP_NETMASK"@);
    assert(ap_keys()[5] == "AP_NETMASK_CIDR"@);
    assert(ap_keys()[7] == "AP_DHCP_RANGE_END"@);
    assert(ap_keys()[8] == "AP_DHCP_LEASE_TIME"@);
    assert(ap_keys()[9] == "AP_CHANNEL"@);
    assert(ap_keys()[10] == "AP_COUNTRY"@);
}

/// `AP_DHCP_RANGE_END` sets the last address that is leased, and nothing else.
pub proof fn the_range_end_is_set_by_its_key(
    text: Seq<char>,
    interface: Seq<char>,
    robot_id: Seq<char>,
    addr: Ipv4Addr,
)
    ensures
        config_gen::ap_config_of(set(text, "AP_DHCP_RANGE_END"@, ipv4::dotted(addr)), interface, robot_id) == (ApConfigView {
            dhcp_range_end: addr,
            ..config_gen::ap_config_of(text, interface, robot_id)
        }),
{
    lemma_keys();
    lemma_dotted_is_plain(addr);
    ipv4::written_address_reads_back(addr);
    lemma_set(text, 7, ipv4::dotted(addr));
    assert(ap_keys()[7] == "AP_DHCP_RANGE_END"@);
    assert(ap_keys()[0] == "AP_SSID"@);
    assert(ap_keys()[1] == "AP_SSID_SUFFIX"@);
    assert(ap_keys()[2] == "AP_PSK"@);
    assert(ap_keys()[3] == "AP_ADDRESS"@);
    assert(ap_keys()[4] == "AP_NETMASK"@);
    assert(ap_keys()[5] == "AP_NETMASK_CIDR"@);
    assert(ap_keys()[6] == "AP_DHCP_RANGE_START"@);
    assert(ap_keys()[8] == "AP_DHCP_LEASE_TIME"@);
    assert(ap_keys()[9] == "AP_CHANNEL"@);
    assert(ap_keys()[10] == "AP_COUNTRY"@);
}

/// `AP_CHANNEL` sets the channel, and nothing else.
pub proof fn the_channel_is_set_by_its_key(
    text: Seq<char>,
    interface: Seq<char>,
    robot_id: Seq<char>,
    n: u8,
)
    requires
        1 <= n <= 14,
    ensures
        config_gen::ap_config_of(set(text, "AP_CHANNEL"@, text::decimal(n as nat)), interface, robot_id) == (ApConfigView {
            channel: n,
            ..config_gen::ap_config_of(text, interface, robot_id)
        }),
{
    lemma_keys();
    lemma_decimal_is_plain(n as nat);
    text::lemma_number_round_trip(n as nat, u16::MAX as nat);
    lemma_set(text, 9, text::decimal(n as nat));
    assert(ap_keys()[9] == "AP_CHANNEL"@);
    assert(ap_keys()[0] == "AP_SSID"@);
    assert(ap_keys()[1] == "AP_SSID_SUFFIX"@);
    assert(ap_keys()[2] == "AP_PSK"@);
    assert(ap_keys()[3] == "AP_ADDRESS"@);
    assert(ap_keys()[4] == "AP_NETMASK"@);
    assert(ap_keys()[5] == "AP_NETMASK_CIDR"@);
    assert(ap_keys()[6] == "AP_DHCP_RANGE_START"@);
    assert(ap_keys()[7] == "AP_DHCP_RANGE_END"@);
    assert(ap_keys()[8] == "AP_DHCP_LEASE_TIME"@);
    assert(ap_keys()[10] == "AP_COUNTRY"@);
}

/// `AP_NETMASK_CIDR` sets the width of the netmask, and nothing else.
pub proof fn the_netmask_width_is_set_by_its_key(
    text: Seq<char>,
    interface: Seq<char>,
    robot_id: Seq<char>,
    n: u8,
)
    requires
        1 <= n <= 32,
    ensures
        config_gen::ap_config_of(set(text, "AP_NETMASK_CIDR"@, text::decimal(n as nat)), interface, robot_id) == (ApConfigView {
            netmask_cidr: n,
            ..config_gen::ap_config_of(text, interface, robot_id)
        }),
{
    lemma_keys();
    lemma_decimal_is_plain(n as nat);
    text::lemma_number_round_trip(n as nat, u16::MAX as nat);
    lemma_set(text, 5, text::decimal(n as nat));
    assert(ap_keys()[5] == "AP_NETMASK_CIDR"@);
    assert(ap_keys()[0] == "AP_SSID"@);
    assert(ap_keys()[1] == "AP_SSID_SUFFIX"@);
    assert(ap_keys()[2] == "AP_PSK"@);
    assert(ap_keys()[3] == "AP_ADDRESS"@);
    assert(ap_keys()[4] == "AP_NETMASK"@);
    assert(ap_keys()[6] == "AP_DHCP_RANGE_START"@);
    assert(ap_keys()[7] == "AP_DHCP_RANGE_END"@);
    assert(ap_keys()[8] == "AP_DHCP_LEASE_TIME"@);
    assert(ap_keys()[9] == "AP_CHANNEL"@);
    assert(ap_keys()[10] == "AP_COUNTRY"@);
}

/// `AP_DHCP_LEASE_TIME` sets the lease time, and nothing else.
pub proof fn the_lease_time_is_set_by_its_key(
    text: Seq<char>,
    interface: Seq<char>,
    robot_id: Seq<char>,
    words: Seq<char>,
)
    requires
        is_plain(words),
        !text::has_control(words),
    ensures
        config_gen::ap_config_of(set(text, "AP_DHCP_LEASE_TIME"@, words), interface, robot_id) == (ApConfigView {
            dhcp_lease_time: words,
            ..config_gen::ap_config_of(text, interface, robot_id)
        }),
{
    lemma_keys();
    lemma_set(text, 8, words);
    assert(ap_keys()[8] == "AP_DHCP_LEASE_TIME"@);
    assert(ap_keys()[0] == "AP_SSID"@);
    assert(ap_keys()[1] == "AP_SSID_SUFFIX"@);
    assert(ap_keys()[2] == "AP_PSK"@);
    assert(ap_keys()[3] == "AP_ADDRESS"@);
    assert(ap_keys()[4] == "AP_NETMASK"@);
    assert(ap_keys()[5] == "AP_NETMASK_CIDR"@);
    assert(ap_keys()[6] == "AP_DHCP_RANGE_START"@);
    assert(ap_keys()[7] == "AP_DHCP_RANGE_END"@);
    assert(ap_keys()[9] == "AP_CHANNEL"@);
    assert(ap_keys()[10] == "AP_COUNTRY"@);
}

/// `AP_COUNTRY` sets the country, and nothing else.
pub proof fn the_country_is_set_by_its_key(
    text: Seq<char>,
    interface: Seq<char>,
    robot_id: Seq<char>,
    words: Seq<char>,
)
    requires
        is_plain(words),
        !text::has_control(words),
    ensures
        config_gen::ap_config_of(set(text, "AP_COUNTRY"@, words), interface, robot_id) == (ApConfigView {
            country: words,
            ..config_gen::ap_config_of(text, interface, robot_id)
        }),
{
    lemma_keys();
    lemma_set(text, 10, words);
    assert(ap_keys()[10] == "AP_COUNTRY"@);
    assert(ap_keys()[0] == "AP_SSID"@);
    assert(ap_keys()[1] == "AP_SSID_SUFFIX"@);
    assert(ap_keys()[2] == "AP_PSK"@);
    assert(ap_keys()[3] == "AP_ADDRESS"@);
    assert(ap_keys()[4] == "AP_NETMASK"@);
    assert(ap_keys()[5] == "AP_NETMASK_CIDR"@);
    assert(ap_keys()[6] == "AP_DHCP_RANGE_START"@);
    assert(ap_keys()[7] == "AP_DHCP_RANGE_END"@);
    assert(ap_keys()[8] == "AP_DHCP_LEASE_TIME"@);
    assert(ap_keys()[9] == "AP_CHANNEL"@);
}

/// `AP_PSK` sets the passphrase, and nothing else.
pub proof fn the_passphrase_is_set_by_its_key(
    text: Seq<char>,
    interface: Seq<char>,
    robot_id: Seq<char>,
    psk: Seq<char>,
)
    requires
        is_plain(psk),
        8 <= psk.len() <= 63,
        !text::has_control(psk),
    ensures
        config_gen::ap_config_of(set(text, "AP_PSK"@, psk), interface, robot_id) == (ApConfigView {
            psk: Some(psk),
            ..config_gen::ap_config_of(text, interface, robot_id)
        }),
{
    lemma_keys();
    lemma_set(text, 2, psk);
    assert(ap_keys()[2] == "AP_PSK"@);
    assert(ap_keys()[0] == "AP_SSID"@);
    assert(ap_keys()[1] == "AP_SSID_SUFFIX"@);
    assert(ap_keys()[3] == "AP_ADDRESS"@);
    assert(ap_keys()[4] == "AP_NETMASK"@);
    assert(ap_keys()[5] == "AP_NETMASK_CIDR"@);
    assert(ap_keys()[6] == "AP_DHCP_RANGE_START"@);
    assert(ap_keys()[7] == "AP_DHCP_RANGE_END"@);
    assert(ap_keys()[8] == "AP_DHCP_LEASE_TIME"@);
    assert(ap_keys()[9] == "AP_CHANNEL"@);
    assert(ap_keys()[10] == "AP_COUNTRY"@);
}

/// `AP_SSID` sets the name of the network, whatever the robot is called, and nothing else.
pub proof fn the_name_is_set_by_its_key(
    text: Seq<char>,
    interface: Seq<char>,
    robot_id: Seq<char>,
    ssid: Seq<char>,
)
    requires
        is_plain(ssid),
        !text::has_control(ssid),
        vstd::utf8::encode_utf8(ssid).len() <= 32,
    ensures
        config_gen::ap_config_of(set(text, "AP_SSID"@, ssid), interface, robot_id) == (ApConfigView {
            ssid: ssid,
            ..config_gen::ap_config_of(text, interface, robot_id)
        }),
{
    lemma_keys();
    lemma_set(text, 0, ssid);
    assert(ap_keys()[0] == "AP_SSID"@);
    assert(ap_keys()[1] == "AP_SSID_SUFFIX"@);
    assert(ap_keys()[2] == "AP_PSK"@);
    assert(ap_keys()[3] == "AP_ADDRESS"@);
    assert(ap_keys()[4] == "AP_NETMASK"@);
    assert(ap_keys()[5] == "AP_NETMASK_CIDR"@);
    assert(ap_keys()[6] == "AP_DHCP_RANGE_START"@);
    assert(ap_keys()[7] == "AP_DHCP_RANGE_END"@);
    assert(ap_keys()[8] == "AP_DHCP_LEASE_TIME"@);
    assert(ap_keys()[9] == "AP_CHANNEL"@);
    assert(ap_keys()[10] == "AP_COUNTRY"@);
}

/// Where no name is set, `AP_SSID_SUFFIX` is what follows the robot's ID in it.
pub proof fn the_name_is_derived_with_its_suffix(
    text: Seq<char>,
    robot_id: Seq<char>,
    suffix: Seq<char>,
)
    requires
        is_plain(suffix),
        !text::has_control(robot_id + suffix),
        vstd::utf8::encode_utf8(robot_id + suffix).len() <= 32,
        conf::value_of(text, "AP_SSID"@) is None || conf::value_of(text, "AP_SSID"@)->0.len() == 0,
    ensures
        config_gen::ssid_setting(set(text, "AP_SSID_SUFFIX"@, suffix), robot_id) == Ok::<
            Seq<char>,
            ApLoadErrorView,
        >(robot_id + suffix),
{
    lemma_keys();
    lemma_set(text, 1, suffix);
    assert(ap_keys()[1] == "AP_SSID_SUFFIX"@);
    assert(ap_keys()[0] == "AP_SSID"@);
}

/// The channel that `fallback-ap.conf` sets is the one that hostapd is told.
pub proof fn the_channel_that_is_set_is_served(
    text: Seq<char>,
    interface: Seq<char>,
    robot_id: Seq<char>,
    n: u8,
)
    requires
        1 <= n <= 14,
    ensures
        laws::reads(
            config_gen::hostapd_lines(
                config_gen::ap_config_of(
                    set(text, "AP_CHANNEL"@, text::decimal(n as nat)),
                    interface,
                    robot_id,
                ),
            ),
            "channel="@,
            text::decimal(n as nat),
        ),
{
    the_channel_is_set_by_its_key(text, interface, robot_id, n);
    lemma_channel_directive(
        config_gen::ap_config_of(
            set(text, "AP_CHANNEL"@, text::decimal(n as nat)),
            interface,
            robot_id,
        ),
    );
}

/// A configuration loads if and only if nothing that it sets is wrong: every address is one, every
/// number is in its range, and every word and name is allowed.
pub proof fn loading_fails_only_for_a_reason(text: Seq<char>, robot_id: Seq<char>)
    ensures
        config_gen::ap_fault(text, robot_id) is None <==> {
            &&& config_gen::ssid_setting(text, robot_id) is Ok
            &&& (conf::value_of(text, "AP_PSK"@) matches Some(psk) ==> psk.len() == 0
                || (8 <= psk.len() <= 63 && !text::has_control(psk)))
            &&& is_address(text, "AP_ADDRESS"@, "192.168.50.1"@)
            &&& is_address(text, "AP_NETMASK"@, "255.255.255.0"@)
            &&& is_address(text, "AP_DHCP_RANGE_START"@, "192.168.50.10"@)
            &&& is_address(text, "AP_DHCP_RANGE_END"@, "192.168.50.50"@)
            &&& is_number(text, "AP_NETMASK_CIDR"@, "24"@, 32)
            &&& is_number(text, "AP_CHANNEL"@, "6"@, 14)
            &&& is_words(text, "AP_DHCP_LEASE_TIME"@, "12h"@)
            &&& is_words(text, "AP_COUNTRY"@, "US"@)
        },
{
}

/// What `key` is set to, or the default where it is not set or empty.
pub open spec fn setting(text: Seq<char>, key: Seq<char>, default: Seq<char>) -> Seq<char> {
    match conf::value_of(text, key) {
        Some(value) => if value.len() == 0 {
            default
        } else {
            value
        },
        None => default,
    }
}

pub open spec fn is_address(text: Seq<char>, key: Seq<char>, default: Seq<char>) -> bool {
    ipv4::ipv4_of(setting(text, key, default)) is Some
}

pub open spec fn is_number(text: Seq<char>, key: Seq<char>, default: Seq<char>, max: nat) -> bool {
    text::number_of(setting(text, key, default), 65535) matches Some(n) && 1 <= n <= max
}

pub open spec fn is_words(text: Seq<char>, key: Seq<char>, default: Seq<char>) -> bool {
    let words = setting(text, key, default);
    words.len() > 0 && !text::has_control(words)
}

/// What is loaded is fit to be served: a valid name, a valid passphrase if any, a channel of the
/// 2.4 GHz band, a netmask of one to 32 bits, and words that stay on their line.
pub proof fn what_is_loaded_is_fit_to_be_served(
    text: Seq<char>,
    interface: Seq<char>,
    robot_id: Seq<char>,
)
    requires
        config_gen::ap_fault(text, robot_id) is None,
    ensures
        ({
            let config = config_gen::ap_config_of(text, interface, robot_id);
            &&& config.interface == interface
            &&& 1 <= config.channel <= 14
            &&& 1 <= config.netmask_cidr <= 32
            &&& config.ssid.len() > 0 && !text::has_control(config.ssid)
            &&& vstd::utf8::encode_utf8(config.ssid).len() <= 32
            &&& config.psk matches Some(psk) ==> 8 <= psk.len() <= 63 && !text::has_control(psk)
            &&& config.country.len() > 0 && !text::has_control(config.country)
            &&& config.dhcp_lease_time.len() > 0 && !text::has_control(config.dhcp_lease_time)
        }),
{
}

/// An error is about a setting that is wrong, and the name of the network comes first, then the
/// passphrase.
pub proof fn the_first_fault_is_reported(text: Seq<char>, robot_id: Seq<char>)
    ensures
        config_gen::ssid_setting(text, robot_id) matches Err(err) ==> config_gen::ap_fault(
            text,
            robot_id,
        ) == Some(err),
        config_gen::ap_fault(text, robot_id) matches Some(err) ==> (err.context is Some
            ==> config_gen::ssid_setting(text, robot_id) == Err::<Seq<char>, ApLoadErrorView>(err)),
        config_gen::ap_fault(text, robot_id) matches Some(err) ==> match err.source {
            ApErrorView::NotAnIpv4Address { field, value } => {
                &&& field == "AP_ADDRESS"@ || field == "AP_NETMASK"@ || field
                    == "AP_DHCP_RANGE_START"@ || field == "AP_DHCP_RANGE_END"@
                &&& ipv4::ipv4_of(value) is None
            },
            ApErrorView::NotANumber { field, value } => {
                &&& field == "AP_CHANNEL"@ || field == "AP_NETMASK_CIDR"@
                &&& text::number_of(value, 65535) is None
            },
            ApErrorView::ChannelOutOfRange { channel } => channel == 0 || channel > 14,
            ApErrorView::CidrOutOfRange { cidr } => cidr == 0 || cidr > 32,
            ApErrorView::PskLength { len } => len < 8 || len > 63,
            ApErrorView::SsidTooLong { ssid, len } => {
                &&& len == vstd::utf8::encode_utf8(ssid).len()
                &&& len > 32
            },
            _ => true,
        },
{
}

/// The name of the network is good if it may be one: the one that is set, or else the robot's ID
/// with its suffix, in full.
pub proof fn the_name_is_the_set_or_the_derived_one(text: Seq<char>, robot_id: Seq<char>)
    ensures
        ({
            let suffix = match conf::value_of(text, "AP_SSID_SUFFIX"@) {
                Some(suffix) => suffix,
                None => "-setup"@,
            };
            let name = setting(text, "AP_SSID"@, robot_id + suffix);
            if name.len() > 0 && !text::has_control(name) && vstd::utf8::encode_utf8(name).len()
                <= 32 {
                config_gen::ssid_setting(text, robot_id) == Ok::<Seq<char>, ApLoadErrorView>(name)
            } else {
                config_gen::ssid_setting(text, robot_id) is Err
            }
        }),
{
}

/// Every setting is read from its key, or is its documented default.
pub proof fn every_setting_is_read_or_is_its_default(
    text: Seq<char>,
    interface: Seq<char>,
    robot_id: Seq<char>,
)
    requires
        config_gen::ap_fault(text, robot_id) is None,
    ensures
        ({
            let config = config_gen::ap_config_of(text, interface, robot_id);
            let number = |key: Seq<char>, default: Seq<char>|
                text::number_of(setting(text, key, default), 65535);
            &&& Some(config.address) == ipv4::ipv4_of(setting(text, "AP_ADDRESS"@, "192.168.50.1"@))
            &&& Some(config.netmask) == ipv4::ipv4_of(setting(text, "AP_NETMASK"@, "255.255.255.0"@))
            &&& Some(config.dhcp_range_start) == ipv4::ipv4_of(
                setting(text, "AP_DHCP_RANGE_START"@, "192.168.50.10"@),
            )
            &&& Some(config.dhcp_range_end) == ipv4::ipv4_of(
                setting(text, "AP_DHCP_RANGE_END"@, "192.168.50.50"@),
            )
            &&& number("AP_CHANNEL"@, "6"@) matches Some(n) && n == config.channel
            &&& number("AP_NETMASK_CIDR"@, "24"@) matches Some(n) && n == config.netmask_cidr
            &&& config.dhcp_lease_time == setting(text, "AP_DHCP_LEASE_TIME"@, "12h"@)
            &&& config.country == setting(text, "AP_COUNTRY"@, "US"@)
            &&& config.psk == match conf::value_of(text, "AP_PSK"@) {
                Some(psk) => if psk.len() > 0 {
                    Some(psk)
                } else {
                    None
                },
                None => None,
            }
        }),
{
}

/// An error quotes the very value that is wrong: what its key is set to, or its default.
pub proof fn an_error_quotes_what_is_wrong(text: Seq<char>, robot_id: Seq<char>)
    ensures
        config_gen::ap_fault(text, robot_id) matches Some(err) ==> match err.source {
            ApErrorView::NotAnIpv4Address { field, value } => {
                ||| field == "AP_ADDRESS"@ && value == setting(text, field, "192.168.50.1"@)
                ||| field == "AP_NETMASK"@ && value == setting(text, field, "255.255.255.0"@)
                ||| field == "AP_DHCP_RANGE_START"@ && value == setting(text, field, "192.168.50.10"@)
                ||| field == "AP_DHCP_RANGE_END"@ && value == setting(text, field, "192.168.50.50"@)
            },
            ApErrorView::NotANumber { field, value } => {
                ||| field == "AP_CHANNEL"@ && value == setting(text, field, "6"@)
                ||| field == "AP_NETMASK_CIDR"@ && value == setting(text, field, "24"@)
            },
            ApErrorView::ChannelOutOfRange { channel } => text::number_of(
                setting(text, "AP_CHANNEL"@, "6"@),
                65535,
            ) == Some(channel as nat),
            ApErrorView::CidrOutOfRange { cidr } => text::number_of(
                setting(text, "AP_NETMASK_CIDR"@, "24"@),
                65535,
            ) == Some(cidr as nat),
            ApErrorView::PskLength { len } => conf::value_of(text, "AP_PSK"@) matches Some(psk)
                && len == psk.len(),
            ApErrorView::SsidTooLong { ssid, .. } => ssid == setting(
                text,
                "AP_SSID"@,
                robot_id + (match conf::value_of(text, "AP_SSID_SUFFIX"@) {
                    Some(suffix) => suffix,
                    None => "-setup"@,
                }),
            ),
            ApErrorView::ControlCharacter { field } => {
                ||| field == "AP_SSID"@
                ||| field == "AP_PSK"@ && (conf::value_of(text, field) matches Some(psk)
                    && text::has_control(psk))
                ||| field == "AP_DHCP_LEASE_TIME"@ && text::has_control(setting(text, field, "12h"@))
                ||| field == "AP_COUNTRY"@ && text::has_control(setting(text, field, "US"@))
            },
            _ => true,
        },
{
}

} // verus!
