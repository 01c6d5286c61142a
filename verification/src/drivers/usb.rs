//! The USB keyboard of the badge: its descriptors, and the report in
//! which L and R act as the arrow keys.
use vstd::prelude::*;
use crate::drivers::buttons::{Button, Buttons};

verus! {

/// HID usage of the right arrow key.
pub const KEY_RIGHT: u8 = 0x4f;

/// HID usage of the left arrow key.
pub const KEY_LEFT: u8 = 0x50;

/// Length of a keyboard report.
pub const REPORT_LEN: usize = 8;

/// The keyboard report for R and L held as given: the keys pressed are
/// listed from byte 2 on, right before left.
pub open spec fn report_of(right: bool, left: bool) -> Seq<u8> {
    let first: u8 = if right { KEY_RIGHT } else if left { KEY_LEFT } else { 0 };
    let second: u8 = if right && left { KEY_LEFT } else { 0 };
    seq![0u8, 0u8, first, second, 0u8, 0u8, 0u8, 0u8]
}

/// The keyboard report for the buttons held now.
pub fn keyboard_report(buttons: &Buttons) -> (r: [u8; 8])
    ensures
        r@ == report_of(buttons.state.0@[Button::R.spec_index()], buttons.state.0@[Button::L.spec_index()]),
{
    let mut report: [u8; 8] = [0u8; 8];
    let mut nextkc: usize = 2;
    if buttons.get(Button::R) {
        report[nextkc] = KEY_RIGHT;
        nextkc = nextkc + 1;
    }
    if buttons.get(Button::L) {
        report[nextkc] = KEY_LEFT;
    }
    assert(report@ =~= report_of(buttons.state.0@[Button::R.spec_index()], buttons.state.0@[Button::L.spec_index()]));
    report
}

/// The reply to a transfer on endpoint `endp`: the keyboard report on the
/// interrupt endpoint 1, an empty packet (`None`) on the others.
pub fn endpoint_reply(endp: u8, buttons: &Buttons) -> (r: Option<[u8; 8]>)
    ensures
        endp == 1 ==> (r matches Some(rep) && rep@ == report_of(
            buttons.state.0@[Button::R.spec_index()],
            buttons.state.0@[Button::L.spec_index()],
        )),
        endp != 1 ==> r is None,
{
    if endp == 1 {
        Some(keyboard_report(buttons))
    } else {
        None
    }
}

/// Length of the HID report descriptor that the configuration announces.
pub const KBD_DESC_LEN: usize = 69;

/// The device descriptor: USB 1.1, 8-byte control endpoint, vendor 0x1209,
/// product 0xd003, three strings, one configuration.
pub const DEVICE_DESCRIPTOR: [u8; 18] = [
    18, 1, 0x10, 0x01, 0x0, 0x0, 0x0, 0x08, 0x09, 0x12, 0x03, 0xd0, 0x02, 0x00, 1, 2, 3, 1,
];

/// The configuration descriptor: one HID keyboard interface with the
/// interrupt endpoint 1, polled every 10 ms.
pub const CONFIG_DESCRIPTOR: [u8; 34] = [
    9, 2, 0x22, 0x00, 0x01, 0x01, 0x00, 0x80, 0x64, 9, 4, 0, 0, 1, 0x03, 0x01, 0x01, 0, 9, 0x21, 0x10, 0x01,
    0x00, 0x01, 0x22, 69, 0x00, 7, 0x05, 0x81, 0x03, 0x08, 0x00, 10,
];

/// The supported language: US English.
pub const STR_LANG: [u16; 1] = [0x0409];

/// The manufacturer, "FS-EI", in UTF-16.
pub const STR_MANUF: [u16; 5] = [0x46, 0x53, 0x2d, 0x45, 0x49];

/// The product, "Card25", in UTF-16.
pub const STR_PROD: [u16; 6] = [0x43, 0x61, 0x72, 0x64, 0x32, 0x35];

/// The serial number, empty.
pub const STR_SERIAL: [u16; 0] = [];

/// The product string shown when the report descriptor has an unexpected
/// length, "E", in UTF-16.
pub const STR_ERR: [u16; 1] = [0x45];

/// The string descriptor of `s`: its length in bytes, the string type 3,
/// then each UTF-16 unit, low byte first.
pub open spec fn string_desc(s: Seq<u16>) -> Seq<u8> {
    seq![(2 * s.len() + 2) as u8, 3u8] + Seq::new(2 * s.len(), |i: int| if i % 2 == 0 {
        (s[i / 2] % 256) as u8
    } else {
        (s[i / 2] / 256) as u8
    })
}

/// The string descriptor of `s`.
pub fn make_string(s: &[u16]) -> (d: Vec<u8>)
    requires
        s@.len() <= 126,
    ensures
        d@ == string_desc(s@),
{
    let mut d: Vec<u8> = Vec::new();
    d.push((2 * s.len() + 2) as u8);
    d.push(3u8);
    let mut i: usize = 0;
    while i < s.len()
        invariant
            i <= s@.len() <= 126,
            d@.len() == 2 + 2 * i,
            d@[0] == (2 * s@.len() + 2) as u8,
            d@[1] == 3u8,
            forall|k: int| 0 <= k < 2 * i ==> #[trigger] d@[k + 2] == if k % 2 == 0 {
                (s@[k / 2] % 256) as u8
            } else {
                (s@[k / 2] / 256) as u8
            },
        decreases s@.len() - i,
    {
        let unit: u16 = s[i];
        d.push((unit % 256) as u8);
        d.push((unit / 256) as u8);
        i = i + 1;
    }
    assert forall|j: int| 2 <= j < d@.len() implies d@[j] == string_desc(s@)[j] by {
        let k = j - 2;
        assert(d@[k + 2] == if k % 2 == 0 {
            (s@[k / 2] % 256) as u8
        } else {
            (s@[k / 2] / 256) as u8
        });
    }
    assert(d@ =~= string_desc(s@));
    d
}

/// The descriptor requested by `w_value` (type in the high byte, index in
/// the low byte, language in the upper half), given the HID report
/// descriptor `report`; unknown requests get an empty reply. The product
/// string turns into "E" when the report descriptor does not have the
/// announced length.
pub open spec fn descriptor_for(w_value: u32, report: Seq<u8>) -> Seq<u8> {
    if w_value == 0x0000_0100 {
        DEVICE_DESCRIPTOR@
    } else if w_value == 0x0000_0200 {
        CONFIG_DESCRIPTOR@
    } else if w_value == 0x0000_2200 {
        report
    } else if w_value == 0x0000_0300 {
        string_desc(STR_LANG@)
    } else if w_value == 0x0409_0301 {
        string_desc(STR_MANUF@)
    } else if w_value == 0x0409_0302 {
        if report.len() != KBD_DESC_LEN { string_desc(STR_ERR@) } else { string_desc(STR_PROD@) }
    } else if w_value == 0x0409_0303 {
        string_desc(STR_SERIAL@)
    } else {
        Seq::empty()
    }
}

/// The bytes of an array.
fn array_bytes(a: &[u8]) -> (v: Vec<u8>)
    ensures
        v@ == a@,
{
    let mut v: Vec<u8> = Vec::new();
    let mut i: usize = 0;
    while i < a.len()
        invariant
            i <= a@.len(),
            v@ == a@.subrange(0, i as int),
        decreases a@.len() - i,
    {
        v.push(a[i]);
        i = i + 1;
        assert(v@ =~= a@.subrange(0, i as int));
    }
    assert(v@ =~= a@);
    v
}

/// The descriptor requested by `w_value`, given the HID report descriptor
/// `report`.
pub fn get_descriptor_info(w_value: u32, report: &[u8]) -> (d: Vec<u8>)
    ensures
        d@ == descriptor_for(w_value, report@),
{
    if w_value == 0x0000_0100 {
        array_bytes(&DEVICE_DESCRIPTOR)
    } else if w_value == 0x0000_0200 {
        array_bytes(&CONFIG_DESCRIPTOR)
    } else if w_value == 0x0000_2200 {
        array_bytes(report)
    } else if w_value == 0x0000_0300 {
        make_string(&STR_LANG)
    } else if w_value == 0x0409_0301 {
        make_string(&STR_MANUF)
    } else if w_value == 0x0409_0302 {
        if report.len() != KBD_DESC_LEN {
            make_string(&STR_ERR)
        } else {
            make_string(&STR_PROD)
        }
    } else if w_value == 0x0409_0303 {
        make_string(&STR_SERIAL)
    } else {
        Vec::new()
    }
}

} // verus!
