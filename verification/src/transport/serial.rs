//! # Serial port selection
//!
//! Serial settings shared with the control node, and the choice of the port
//! an ESP32 board is most likely connected to.

use vstd::prelude::*;

verus! {

/// Baud rate used on both the AI node and the control node.
pub const BAUD_RATE: u32 = 115_200;

/// USB details of a serial port, as reported by the operating system.
#[derive(Debug, Clone)]
pub struct UsbPortInfo {
    pub product: Option<String>,
    pub manufacturer: Option<String>,
}

/// A serial port available on this machine.
#[derive(Debug, Clone)]
pub struct PortInfo {
    pub port_name: String,
    /// `Some` for USB ports.
    pub usb: Option<UsbPortInfo>,
}

/// `needle` occurs as a contiguous part of `hay`.
pub open spec fn has_substring(hay: Seq<char>, needle: Seq<char>) -> bool {
    exists|i: int|
        0 <= i && i + needle.len() <= hay.len() && #[trigger] hay.subrange(i, i + needle.len())
            == needle
}

/// Calls `str::contains` with a string pattern, which holds exactly when
/// `needle` occurs in `hay`.
#[verifier::external_body]
fn str_contains(hay: &str, needle: &str) -> (b: bool)
    ensures
        b == has_substring(hay@, needle@),
{
    hay.contains(needle)
}

/// The text contains one of the names of USB-serial chips found on ESP32
/// boards: CP210, CH340, CH341, FTDI, "USB Serial", "USB-Serial".
pub open spec fn names_esp32_chip(t: Seq<char>) -> bool {
    ||| has_substring(t, "CP210"@)
    ||| has_substring(t, "CH340"@)
    ||| has_substring(t, "CH341"@)
    ||| has_substring(t, "FTDI"@)
    ||| has_substring(t, "USB Serial"@)
    ||| has_substring(t, "USB-Serial"@)
}

/// The text of an optional string; an absent one reads as empty.
pub open spec fn text_or_empty(o: Option<String>) -> Seq<char> {
    match o {
        Some(s) => s@,
        None => ""@,
    }
}

/// A USB port whose product or manufacturer names an ESP32 chip.
pub open spec fn is_esp32_port(p: PortInfo) -> bool {
    match p.usb {
        Some(u) => names_esp32_chip(text_or_empty(u.product)) || names_esp32_chip(
            text_or_empty(u.manufacturer),
        ),
        None => false,
    }
}

/// The names of the USB-serial chips found on ESP32 boards.
pub open spec fn esp32_chip_hints() -> Seq<Seq<char>> {
    seq!["CP210"@, "CH340"@, "CH341"@, "FTDI"@, "USB Serial"@, "USB-Serial"@]
}

/// A port is taken for an ESP32 board exactly when it is a USB port whose
/// product text or manufacturer text (absent text reads as empty) contains
/// one of the six chip names; the same names are tried in both fields.
pub proof fn lemma_esp32_port_hints(p: PortInfo)
    ensures
        is_esp32_port(p) <==> (p.usb matches Some(u) && exists|k: int|
            0 <= k < 6 && (has_substring(text_or_empty(u.product), #[trigger] esp32_chip_hints()[k])
                || has_substring(text_or_empty(u.manufacturer), esp32_chip_hints()[k]))),
{
    let h = esp32_chip_hints();
    assert(h.len() == 6);
    assert(h[0] == "CP210"@ && h[1] == "CH340"@ && h[2] == "CH341"@ && h[3] == "FTDI"@ && h[4]
        == "USB Serial"@ && h[5] == "USB-Serial"@);
    if let Some(u) = p.usb {
        let d = text_or_empty(u.product);
        let m = text_or_empty(u.manufacturer);
        if names_esp32_chip(d) || names_esp32_chip(m) {
            if has_substring(d, h[0]) || has_substring(m, h[0]) {
                assert(0 <= 0 < 6);
            } else if has_substring(d, h[1]) || has_substring(m, h[1]) {
                assert(0 <= 1 < 6);
            } else if has_substring(d, h[2]) || has_substring(m, h[2]) {
                assert(0 <= 2 < 6);
            } else if has_substring(d, h[3]) || has_substring(m, h[3]) {
                assert(0 <= 3 < 6);
            } else if has_substring(d, h[4]) || has_substring(m, h[4]) {
                assert(0 <= 4 < 6);
            } else {
                assert(has_substring(d, h[5]) || has_substring(m, h[5]));
            }
        }
    }
}

fn names_esp32_chip_exec(t: &str) -> (b: bool)
    ensures
        b == names_esp32_chip(t@),
{
    str_contains(t, "CP210") || str_contains(t, "CH340") || str_contains(t, "CH341")
        || str_contains(t, "FTDI") || str_contains(t, "USB Serial") || str_contains(
        t,
        "USB-Serial",
    )
}

fn is_esp32_port_exec(p: &PortInfo) -> (b: bool)
    ensures
        b == is_esp32_port(*p),
{
    match &p.usb {
        Some(u) => {
            let desc = match &u.product {
                Some(s) => s.as_str(),
                None => "",
            };
            let mfr = match &u.manufacturer {
                Some(s) => s.as_str(),
                None => "",
            };
            names_esp32_chip_exec(desc) || names_esp32_chip_exec(mfr)
        },
        None => false,
    }
}

/// Chooses the port to open: the first USB port whose product or
/// manufacturer names an ESP32 USB-serial chip, else the first port;
/// `None` when there are no ports.
pub fn choose_esp32_port(ports: &[PortInfo]) -> (r: Option<usize>)
    ensures
        r is None <==> ports@.len() == 0,
        r matches Some(i) ==> i < ports@.len(),
        (exists|j: int| 0 <= j < ports@.len() && is_esp32_port(#[trigger] ports@[j])) ==> (
        r matches Some(i) && is_esp32_port(ports@[i as int]) && forall|j: int|
            0 <= j < i ==> !is_esp32_port(#[trigger] ports@[j])),
        !(exists|j: int| 0 <= j < ports@.len() && is_esp32_port(#[trigger] ports@[j]))
            && ports@.len() > 0 ==> r == Some(0usize),
{
    let n = ports.len();
    let mut i: usize = 0;
    while i < n
        invariant
            n == ports@.len(),
            i <= n,
            forall|j: int| 0 <= j < i ==> !is_esp32_port(#[trigger] ports@[j]),
        decreases n - i,
    {
        if is_esp32_port_exec(&ports[i]) {
            return Some(i);
        }
        i = i + 1;
    }
    if n > 0 {
        Some(0)
    } else {
        None
    }
}

} // verus!
