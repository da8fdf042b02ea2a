use unifaas::instance::{callback_url, format_cmdline, lease_reusable_after_kill};
use unifaas::ipv4::ipv4_to_string;
use unifaas::text::{chars_of, replace_chars, string_from_chars, u32_to_decimal};
use unifaas::vmm::MachineError;

fn ip(a: u8, b: u8, c: u8, d: u8) -> u32 {
    ((a as u32) << 24) | ((b as u32) << 16) | ((c as u32) << 8) | (d as u32)
}

fn replace(s: &str, pat: &str, rep: &str) -> String {
    string_from_chars(&replace_chars(&chars_of(s), &chars_of(pat), &chars_of(rep)))
}

#[test]
fn decimal_rendering() {
    assert_eq!(u32_to_decimal(0), "0");
    assert_eq!(u32_to_decimal(7), "7");
    assert_eq!(u32_to_decimal(10), "10");
    assert_eq!(u32_to_decimal(4096), "4096");
    assert_eq!(u32_to_decimal(u32::MAX), "4294967295");
}

#[test]
fn chars_roundtrip() {
    assert_eq!(string_from_chars(&chars_of("héllo wörld")), "héllo wörld");
    assert_eq!(chars_of(""), Vec::<char>::new());
}

#[test]
fn replace_matches_str_replace() {
    let cases = [
        ("net.ip=%ip", "%ip", "10.0.0.2"),
        ("%ip%ip", "%ip", "x"),
        ("aaa", "aa", "b"),
        ("abcabc", "bc", ""),
        ("no placeholder", "%ip", "1"),
        ("%i", "%ip", "1"),
        ("", "%ip", "1"),
        ("%ipaddr=%ip", "%ip", "%ip%ip"),
    ];
    for (s, pat, rep) in cases {
        assert_eq!(replace(s, pat, rep), s.replace(pat, rep));
    }
    assert_eq!(replace("aaa", "aa", "b"), "ba");
}

#[test]
fn dotted_decimal() {
    assert_eq!(ipv4_to_string(0), "0.0.0.0");
    assert_eq!(ipv4_to_string(ip(10, 100, 0, 1)), "10.100.0.1");
    assert_eq!(ipv4_to_string(ip(255, 255, 255, 252)), "255.255.255.252");
    assert_eq!(ipv4_to_string(ip(172, 17, 0, 1)), "172.17.0.1");
    assert_eq!(ipv4_to_string(1), "0.0.0.1");
    assert_eq!(ipv4_to_string(0x0a64_ff02), "10.100.255.2");
    assert_eq!(ipv4_to_string(u32::MAX), "255.255.255.255");
}

#[test]
fn callback_address() {
    assert_eq!(callback_url(ip(10, 100, 0, 1), "abc-123"), "http://10.100.0.1:3000/ready/abc-123");
}

#[test]
fn kernel_cmdline_is_filled_in() {
    let cmdline = "net.ip=%ip net.gw=%gateway net.mask=%netmask callback.url=%callback";
    let s = format_cmdline(cmdline, "inst-1", ip(10, 100, 0, 2), ip(10, 100, 0, 1), ip(255, 255, 255, 252));
    assert_eq!(
        s,
        "net.ip=10.100.0.2 net.gw=10.100.0.1 net.mask=255.255.255.252 callback.url=http://10.100.0.1:3000/ready/inst-1"
    );
    // Placeholders may repeat, and text without them stays as it is.
    let s = format_cmdline("%ip %ip", "x", ip(1, 2, 3, 4), 0, 0);
    assert_eq!(s, "1.2.3.4 1.2.3.4");
    assert_eq!(format_cmdline("console=ttyS0", "x", 1, 2, 3), "console=ttyS0");
}

#[test]
fn lease_kept_after_failed_kill() {
    assert!(lease_reusable_after_kill(&Ok(())));
    assert!(lease_reusable_after_kill(&Err(MachineError::VmmExitedEarly)));
    assert!(!lease_reusable_after_kill(&Err(MachineError::VmmSpawnFailed)));
    assert!(!lease_reusable_after_kill(&Err(MachineError::InvalidConfig)));
}
