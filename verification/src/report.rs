//! HID mouse input reports: their wire layout, the per-tick decisions that
//! fill them, and the report descriptor that announces the layout to the
//! host.
use vstd::prelude::*;

verus! {

/// Report ID of the mouse input report.
pub const MOUSE_ID: u8 = 0x01;

/// Button bit of the left button in [`MouseReport::buttons`].
pub const BTN_LEFT: u8 = 0x01;

/// Button bit of the right button in [`MouseReport::buttons`].
pub const BTN_RIGHT: u8 = 0x02;

/// Number of bytes of a mouse input report on the wire (without the report
/// ID, which the HID service sends separately).
pub const REPORT_LEN: usize = 4;

/// HID mouse input report. The field order is the order of the fields
/// declared by the report descriptor.
#[derive(Clone, Copy, PartialEq, Eq, Structural, Debug)]
pub struct MouseReport {
    /// bit 0 = left click, bit 1 = right click, bit 2 = wheel click
    pub buttons: u8,
    pub dx: i8,
    pub dy: i8,
    pub wheel: i8,
}

/// The byte that carries a signed field: its two's complement.
pub open spec fn twos_complement(v: i8) -> u8 {
    if v < 0 {
        (v + 256) as u8
    } else {
        v as u8
    }
}

/// Wire form of a report: buttons, then dx, dy and wheel as two's
/// complement bytes.
pub open spec fn report_bytes(r: MouseReport) -> Seq<u8> {
    seq![r.buttons, twos_complement(r.dx), twos_complement(r.dy), twos_complement(r.wheel)]
}

/// Whether a report carries nothing: no button held and no movement.
pub open spec fn report_is_zero(r: MouseReport) -> bool {
    r.buttons == 0 && r.dx == 0 && r.dy == 0 && r.wheel == 0
}

fn signed_byte(v: i8) -> (b: u8)
    ensures
        b == twos_complement(v),
{
    let b: u8 = v as u8;
    assert(b as int == if v < 0 {
        v + 256
    } else {
        v as int
    }) by (bit_vector)
        requires
            b == v as u8,
    ;
    b
}

impl MouseReport {
    /// A report with no button held and no movement.
    pub fn zero() -> (r: MouseReport)
        ensures
            report_is_zero(r),
    {
        MouseReport { buttons: 0, dx: 0, dy: 0, wheel: 0 }
    }

    /// `true` when no button is held and nothing moves.
    pub fn is_zero(&self) -> (z: bool)
        ensures
            z == report_is_zero(*self),
    {
        self.buttons == 0 && self.dx == 0 && self.dy == 0 && self.wheel == 0
    }

    /// The report as sent over the air, in descriptor order.
    pub fn to_bytes(&self) -> (b: [u8; 4])
        ensures
            b@ == report_bytes(*self),
    {
        let b: [u8; 4] = [
            self.buttons,
            signed_byte(self.dx),
            signed_byte(self.dy),
            signed_byte(self.wheel),
        ];
        assert(b@ =~= report_bytes(*self));
        b
    }
}

impl Default for MouseReport {
    fn default() -> (r: MouseReport)
        ensures
            report_is_zero(r),
    {
        MouseReport::zero()
    }
}

/// The button byte with the left and right button bits set as held.
pub open spec fn button_bits(left: bool, right: bool) -> u8 {
    ((if left {
        BTN_LEFT
    } else {
        0
    }) + (if right {
        BTN_RIGHT
    } else {
        0
    })) as u8
}

/// The button byte for the debounced left and right buttons.
pub fn buttons_byte(left: bool, right: bool) -> (b: u8)
    ensures
        b == button_bits(left, right),
{
    assert(0u8 | 1u8 == 1u8) by (bit_vector);
    let mut b: u8 = 0;
    if left {
        b = b | BTN_LEFT;
    }
    if right {
        assert(b | 2u8 == b + 2u8) by (bit_vector)
            requires
                b == 0u8 || b == 1u8,
        ;
        b = b | BTN_RIGHT;
    }
    b
}

/// Wheel movement of one tick: `scroll_sign` for a scroll-up step, minus
/// `scroll_sign` for a scroll-down step (both cancel out).
pub open spec fn wheel_value(up_step: bool, down_step: bool, scroll_sign: i8) -> int {
    (if up_step {
        scroll_sign as int
    } else {
        0
    }) - (if down_step {
        scroll_sign as int
    } else {
        0
    })
}

/// Wheel movement of one tick. The wheel is relative, so it is non-zero
/// only on ticks that emit a step.
pub fn wheel_delta(up_step: bool, down_step: bool, scroll_sign: i8) -> (w: i8)
    requires
        !(down_step && !up_step && scroll_sign == i8::MIN),
    ensures
        w == wheel_value(up_step, down_step, scroll_sign),
{
    let mut wheel: i8 = 0;
    if up_step {
        wheel = wheel + scroll_sign;
    }
    if down_step {
        wheel = wheel - scroll_sign;
    }
    wheel
}

/// Whether a report must be sent: any report that moves or holds a button,
/// and every report whose buttons changed since the previous tick even if it
/// carries nothing (both press and release must reach the host for clicks
/// and drags to work).
pub open spec fn send_required(report: MouseReport, prev_buttons: u8) -> bool {
    !report_is_zero(report) || report.buttons != prev_buttons
}

/// Whether `report` is sent, given the buttons of the previous tick.
pub fn should_send(report: &MouseReport, prev_buttons: u8) -> (send: bool)
    ensures
        send == send_required(*report, prev_buttons),
{
    !report.is_zero() || report.buttons != prev_buttons
}

/// Per-tick send decision of the main loop: remembers the buttons of the
/// previous tick, whether or not a host was connected then.
pub struct ReportGate {
    prev_buttons: u8,
}

impl View for ReportGate {
    type V = u8;

    closed spec fn view(&self) -> u8 {
        self.prev_buttons
    }
}

impl ReportGate {
    /// No button held before the first tick.
    pub fn new() -> (g: ReportGate)
        ensures
            g@ == 0,
    {
        ReportGate { prev_buttons: 0 }
    }

    /// Decides whether this tick's `report` goes to the host: only while
    /// `connected`, and then by [`send_required`] against the previous
    /// tick's buttons. The buttons of `report` become the previous ones.
    pub fn step(&mut self, connected: bool, report: &MouseReport) -> (send: bool)
        ensures
            send == (connected && send_required(*report, old(self)@)),
            final(self)@ == report.buttons,
    {
        let send: bool = connected && should_send(report, self.prev_buttons);
        self.prev_buttons = report.buttons;
        send
    }
}

/// Each button bit of the button byte is set exactly when that button is
/// held, and no other bit is set.
pub proof fn lemma_button_bits(left: bool, right: bool)
    ensures
        (button_bits(left, right) & BTN_LEFT == BTN_LEFT) == left,
        (button_bits(left, right) & BTN_RIGHT == BTN_RIGHT) == right,
        button_bits(left, right) & !(BTN_LEFT | BTN_RIGHT) == 0,
        button_bits(left, right) == 0 <==> !left && !right,
{
    let b: u8 = button_bits(left, right);
    assert(b == 0 || b == 1 || b == 2 || b == 3);
    assert(b == 0 || b == 1 || b == 2 || b == 3 ==> ((b & 1u8 == 1u8) == (b == 1 || b == 3))
        && ((b & 2u8 == 2u8) == (b == 2 || b == 3)) && b & !(1u8 | 2u8) == 0) by (bit_vector);
}

/// A tick without steps leaves the wheel still; a single up step scrolls by
/// `scroll_sign`, a single down step by its opposite, and both together
/// cancel out.
pub proof fn lemma_wheel_steps(scroll_sign: i8)
    ensures
        wheel_value(false, false, scroll_sign) == 0,
        wheel_value(true, false, scroll_sign) == scroll_sign,
        wheel_value(false, true, scroll_sign) == -scroll_sign,
        wheel_value(true, true, scroll_sign) == 0,
{
}

/// A report carries nothing exactly when all of its wire bytes are zero.
pub proof fn lemma_zero_report_bytes(r: MouseReport)
    ensures
        report_is_zero(r) <==> report_bytes(r) == seq![0u8, 0u8, 0u8, 0u8],
{
    if report_bytes(r) == seq![0u8, 0u8, 0u8, 0u8] {
        assert(report_bytes(r)[0] == 0u8 && report_bytes(r)[1] == 0u8);
        assert(report_bytes(r)[2] == 0u8 && report_bytes(r)[3] == 0u8);
    }
    if report_is_zero(r) {
        assert(report_bytes(r) =~= seq![0u8, 0u8, 0u8, 0u8]);
    }
}

/// The wire form carries every field unchanged in descriptor order: byte 0
/// is the button byte as it is (each button bit in place), and bytes 1 to 3
/// are dx, dy and wheel in two's complement, so that reading a byte back as
/// a signed value gives the field again.
pub proof fn lemma_wire_layout(r: MouseReport)
    ensures
        report_bytes(r).len() == REPORT_LEN,
        report_bytes(r)[0] == r.buttons,
        (report_bytes(r)[0] & BTN_LEFT != 0) == (r.buttons & BTN_LEFT != 0),
        (report_bytes(r)[0] & BTN_RIGHT != 0) == (r.buttons & BTN_RIGHT != 0),
        report_bytes(r)[1] as int == if r.dx < 0 { r.dx + 256 } else { r.dx as int },
        report_bytes(r)[2] as int == if r.dy < 0 { r.dy + 256 } else { r.dy as int },
        report_bytes(r)[3] as int == if r.wheel < 0 { r.wheel + 256 } else { r.wheel as int },
        (if report_bytes(r)[1] >= 128 { report_bytes(r)[1] - 256 } else { report_bytes(r)[1] as int }) == r.dx,
        (if report_bytes(r)[2] >= 128 { report_bytes(r)[2] - 256 } else { report_bytes(r)[2] as int }) == r.dy,
        (if report_bytes(r)[3] >= 128 { report_bytes(r)[3] - 256 } else { report_bytes(r)[3] as int }) == r.wheel,
{
}

/// A button press or release is never lost, a report that moves is never
/// dropped, and only an idle tick with unchanged buttons produces no traffic.
pub proof fn lemma_send_rule(report: MouseReport, prev_buttons: u8)
    ensures
        report.buttons != prev_buttons ==> send_required(report, prev_buttons),
        report.dx != 0 || report.dy != 0 || report.wheel != 0 ==> send_required(
            report,
            prev_buttons,
        ),
        !send_required(report, prev_buttons) <==> (report_is_zero(report) && prev_buttons == 0),
{
}

// ---------------------------------------------------------------------------
// Report descriptor
// ---------------------------------------------------------------------------

/// Main item: Input.
pub const HID_INPUT: u8 = 0x80;
/// Main item: Collection.
pub const HID_COLLECTION: u8 = 0xa0;
/// Main item: End Collection.
pub const HID_END_COLLECTION: u8 = 0xc0;
/// Global item: Usage Page.
pub const HID_USAGE_PAGE: u8 = 0x04;
/// Global item: Logical Minimum.
pub const HID_LOGICAL_MINIMUM: u8 = 0x14;
/// Global item: Logical Maximum.
pub const HID_LOGICAL_MAXIMUM: u8 = 0x24;
/// Global item: Report Size (bits per field).
pub const HID_REPORT_SIZE: u8 = 0x74;
/// Global item: Report ID.
pub const HID_REPORT_ID: u8 = 0x84;
/// Global item: Report Count (number of fields).
pub const HID_REPORT_COUNT: u8 = 0x94;
/// Local item: Usage.
pub const HID_USAGE: u8 = 0x08;
/// Local item: Usage Minimum.
pub const HID_USAGE_MINIMUM: u8 = 0x18;
/// Local item: Usage Maximum.
pub const HID_USAGE_MAXIMUM: u8 = 0x28;

/// A short HID item: its tag byte (type and tag bits, size bits clear) and
/// its data bytes.
pub struct HidItem {
    pub tag: u8,
    pub data: Seq<u8>,
}

/// Encoding of a short item with at most two data bytes: the tag with the
/// data length in its two low bits, then the data.
pub open spec fn encode_item(item: HidItem) -> Seq<u8>
    recommends
        item.tag % 4 == 0,
        item.data.len() <= 2,
{
    seq![(item.tag + item.data.len()) as u8] + item.data
}

/// Encoding of a sequence of items, one after the other.
pub open spec fn encode_items(items: Seq<HidItem>) -> Seq<u8>
    decreases items.len(),
{
    if items.len() == 0 {
        Seq::empty()
    } else {
        encode_item(items[0]) + encode_items(items.subrange(1, items.len() as int))
    }
}

/// Decoding of a byte string into short items; `None` when an item's data
/// runs past the end.
pub open spec fn parse_items(bytes: Seq<u8>) -> Option<Seq<HidItem>>
    decreases bytes.len(),
{
    if bytes.len() == 0 {
        Some(Seq::empty())
    } else {
        let prefix: u8 = bytes[0];
        let code: u8 = prefix % 4;
        let size: int = if code == 3 {
            4
        } else {
            code as int
        };
        if 1 + size > bytes.len() {
            None
        } else {
            match parse_items(bytes.subrange(1 + size, bytes.len() as int)) {
                Some(rest) => Some(
                    seq![HidItem { tag: (prefix - code) as u8, data: bytes.subrange(1, 1 + size) }]
                        + rest,
                ),
                None => None,
            }
        }
    }
}

/// The items of the mouse report descriptor: a generic-desktop mouse with
/// three buttons (left, right, wheel) padded to a byte, then relative X, Y
/// and wheel bytes in -127..127.
pub open spec fn mouse_descriptor_items() -> Seq<HidItem> {
    seq![
        HidItem { tag: HID_USAGE_PAGE, data: seq![0x01u8] },  // Generic Desktop
        HidItem { tag: HID_USAGE, data: seq![0x02u8] },  // Mouse
        HidItem { tag: HID_COLLECTION, data: seq![0x01u8] },  // Application
        HidItem { tag: HID_USAGE, data: seq![0x01u8] },  // Pointer
        HidItem { tag: HID_COLLECTION, data: seq![0x00u8] },  // Physical
        HidItem { tag: HID_REPORT_ID, data: seq![MOUSE_ID] },
        HidItem { tag: HID_USAGE_PAGE, data: seq![0x09u8] },  // Buttons
        HidItem { tag: HID_USAGE_MINIMUM, data: seq![0x01u8] },
        HidItem { tag: HID_USAGE_MAXIMUM, data: seq![0x03u8] },
        HidItem { tag: HID_LOGICAL_MINIMUM, data: seq![0x00u8] },
        HidItem { tag: HID_LOGICAL_MAXIMUM, data: seq![0x01u8] },
        HidItem { tag: HID_REPORT_SIZE, data: seq![0x01u8] },
        HidItem { tag: HID_REPORT_COUNT, data: seq![0x03u8] },  // three buttons
        HidItem { tag: HID_INPUT, data: seq![0x02u8] },  // Data, Var, Abs
        HidItem { tag: HID_REPORT_SIZE, data: seq![0x05u8] },  // five bits of padding
        HidItem { tag: HID_REPORT_COUNT, data: seq![0x01u8] },
        HidItem { tag: HID_INPUT, data: seq![0x03u8] },  // Const, Var, Abs
        HidItem { tag: HID_USAGE_PAGE, data: seq![0x01u8] },  // Generic Desktop
        HidItem { tag: HID_USAGE, data: seq![0x30u8] },  // X
        HidItem { tag: HID_USAGE, data: seq![0x31u8] },  // Y
        HidItem { tag: HID_USAGE, data: seq![0x38u8] },  // Wheel
        HidItem { tag: HID_LOGICAL_MINIMUM, data: seq![0x81u8] },  // -127
        HidItem { tag: HID_LOGICAL_MAXIMUM, data: seq![0x7fu8] },  // 127
        HidItem { tag: HID_REPORT_SIZE, data: seq![0x08u8] },
        HidItem { tag: HID_REPORT_COUNT, data: seq![0x03u8] },
        HidItem { tag: HID_INPUT, data: seq![0x06u8] },  // Data, Var, Rel
        HidItem { tag: HID_END_COLLECTION, data: Seq::empty() },  // Physical
        HidItem { tag: HID_END_COLLECTION, data: Seq::empty() },  // Application
    ]
}

/// The bytes of the mouse report descriptor.
pub open spec fn mouse_descriptor_bytes() -> Seq<u8> {
    seq![
        0x05u8, 0x01, 0x09, 0x02, 0xa1, 0x01, 0x09, 0x01, 0xa1, 0x00, 0x85, 0x01,
        0x05, 0x09, 0x19, 0x01, 0x29, 0x03, 0x15, 0x00, 0x25, 0x01, 0x75, 0x01,
        0x95, 0x03, 0x81, 0x02, 0x75, 0x05, 0x95, 0x01, 0x81, 0x03, 0x05, 0x01,
        0x09, 0x30, 0x09, 0x31, 0x09, 0x38, 0x15, 0x81, 0x25, 0x7f, 0x75, 0x08,
        0x95, 0x03, 0x81, 0x06, 0xc0, 0xc0,
    ]
}

/// The report descriptor of the mouse, handed to the HID service.
pub fn report_descriptor() -> (d: Vec<u8>)
    ensures
        d@ == mouse_descriptor_bytes(),
{
    let d: Vec<u8> = vec![
        0x05u8, 0x01, 0x09, 0x02, 0xa1, 0x01, 0x09, 0x01, 0xa1, 0x00, 0x85, 0x01,
        0x05, 0x09, 0x19, 0x01, 0x29, 0x03, 0x15, 0x00, 0x25, 0x01, 0x75, 0x01,
        0x95, 0x03, 0x81, 0x02, 0x75, 0x05, 0x95, 0x01, 0x81, 0x03, 0x05, 0x01,
        0x09, 0x30, 0x09, 0x31, 0x09, 0x38, 0x15, 0x81, 0x25, 0x7f, 0x75, 0x08,
        0x95, 0x03, 0x81, 0x06, 0xc0, 0xc0,
    ];
    assert(d@ =~= mouse_descriptor_bytes());
    d
}

/// The descriptor bytes are exactly the encoding of the descriptor items.
#[verifier::rlimit(100)]
pub proof fn lemma_descriptor_encodes_items()
    ensures
        mouse_descriptor_bytes() == encode_items(mouse_descriptor_items()),
{
    reveal_with_fuel(encode_items, 29);
    assert(mouse_descriptor_bytes() =~= encode_items(mouse_descriptor_items()));
}

/// An item that has a short encoding of at most two data bytes.
pub open spec fn item_encodable(item: HidItem) -> bool {
    item.tag % 4 == 0 && item.data.len() <= 2
}

/// Decoding undoes encoding: any sequence of encodable items is read back
/// from its bytes unchanged.
pub proof fn lemma_parse_encode_roundtrip(items: Seq<HidItem>)
    requires
        forall|i: int| 0 <= i < items.len() ==> #[trigger] item_encodable(items[i]),
    ensures
        parse_items(encode_items(items)) == Some(items),
    decreases items.len(),
{
    if items.len() > 0 {
        let first = items[0];
        let rest = items.subrange(1, items.len() as int);
        assert(item_encodable(first));
        assert forall|i: int| 0 <= i < rest.len() implies #[trigger] item_encodable(rest[i]) by {
            assert(rest[i] == items[i + 1]);
            assert(item_encodable(items[i + 1]));
        }
        lemma_parse_encode_roundtrip(rest);
        let bytes = encode_items(items);
        let head = encode_item(first);
        assert(bytes == head + encode_items(rest));
        let len: int = first.data.len() as int;
        assert(bytes[0] == (first.tag + len) as u8);
        assert((first.tag + len) % 4 == len);
        assert(bytes.subrange(1, 1 + len) =~= first.data);
        assert(bytes.subrange(1 + len, bytes.len() as int) =~= encode_items(rest));
        let decoded = HidItem { tag: (bytes[0] - len) as u8, data: bytes.subrange(1, 1 + len) };
        assert(decoded == first);
        assert(seq![decoded] + rest =~= items);
    }
}

/// The descriptor bytes decode into the descriptor items.
pub proof fn lemma_descriptor_decodes()
    ensures
        parse_items(mouse_descriptor_bytes()) == Some(mouse_descriptor_items()),
{
    lemma_descriptor_encodes_items();
    let items = mouse_descriptor_items();
    assert forall|i: int| 0 <= i < items.len() implies #[trigger] item_encodable(items[i]) by {
    }
    lemma_parse_encode_roundtrip(items);
}

/// The state of the global items while a descriptor is read.
pub struct HidGlobals {
    pub report_id: int,
    pub size: int,
    pub count: int,
    pub logical_min: int,
    pub logical_max: int,
}

/// An input field group declared by a descriptor: `count` fields of `size`
/// bits each, in report `report_id`, with the given main-item flags and
/// logical range.
pub struct InputFields {
    pub report_id: int,
    pub size: int,
    pub count: int,
    pub flags: int,
    pub logical_min: int,
    pub logical_max: int,
}

/// Unsigned value of one-byte item data (zero when there is none).
pub open spec fn item_unsigned(data: Seq<u8>) -> int {
    if data.len() == 0 {
        0
    } else {
        data[0] as int
    }
}

/// Signed value of one-byte item data (zero when there is none).
pub open spec fn item_signed(data: Seq<u8>) -> int {
    if data.len() == 0 {
        0
    } else if data[0] >= 128 {
        data[0] - 256
    } else {
        data[0] as int
    }
}

/// The input field groups that `items` declare, in report order, starting
/// from the global state `g`.
pub open spec fn input_fields(items: Seq<HidItem>, g: HidGlobals) -> Seq<InputFields>
    decreases items.len(),
{
    if items.len() == 0 {
        Seq::empty()
    } else {
        let it = items[0];
        let rest = items.subrange(1, items.len() as int);
        if it.tag == HID_INPUT {
            seq![
                InputFields {
                    report_id: g.report_id,
                    size: g.size,
                    count: g.count,
                    flags: item_unsigned(it.data),
                    logical_min: g.logical_min,
                    logical_max: g.logical_max,
                },
            ] + input_fields(rest, g)
        } else if it.tag == HID_REPORT_ID {
            input_fields(rest, HidGlobals { report_id: item_unsigned(it.data), ..g })
        } else if it.tag == HID_REPORT_SIZE {
            input_fields(rest, HidGlobals { size: item_unsigned(it.data), ..g })
        } else if it.tag == HID_REPORT_COUNT {
            input_fields(rest, HidGlobals { count: item_unsigned(it.data), ..g })
        } else if it.tag == HID_LOGICAL_MINIMUM {
            input_fields(rest, HidGlobals { logical_min: item_signed(it.data), ..g })
        } else if it.tag == HID_LOGICAL_MAXIMUM {
            input_fields(rest, HidGlobals { logical_max: item_signed(it.data), ..g })
        } else {
            input_fields(rest, g)
        }
    }
}

/// Global state at the start of a descriptor.
pub open spec fn initial_globals() -> HidGlobals {
    HidGlobals { report_id: 0, size: 0, count: 0, logical_min: 0, logical_max: 0 }
}

/// Total number of bits of an input report made of `fields`.
pub open spec fn report_bits(fields: Seq<InputFields>) -> int
    decreases fields.len(),
{
    if fields.len() == 0 {
        0
    } else {
        fields.last().size * fields.last().count + report_bits(fields.drop_last())
    }
}

proof fn lemma_report_bits_three(a: InputFields, b: InputFields, c: InputFields)
    ensures
        report_bits(seq![a, b, c]) == a.size * a.count + b.size * b.count + c.size * c.count,
{
    let s = seq![a, b, c];
    assert(s.drop_last() =~= seq![a, b]);
    assert(s.drop_last().drop_last() =~= seq![a]);
    assert(s.drop_last().drop_last().drop_last() =~= Seq::<InputFields>::empty());
    reveal_with_fuel(report_bits, 4);
}

/// The field groups of the mouse report: buttons, padding and the three
/// axes.
pub open spec fn mouse_input_fields() -> Seq<InputFields> {
    seq![
        InputFields {
            report_id: MOUSE_ID as int,
            size: 1,
            count: 3,
            flags: 0x02,
            logical_min: 0,
            logical_max: 1,
        },
        InputFields {
            report_id: MOUSE_ID as int,
            size: 5,
            count: 1,
            flags: 0x03,
            logical_min: 0,
            logical_max: 1,
        },
        InputFields {
            report_id: MOUSE_ID as int,
            size: 8,
            count: 3,
            flags: 0x06,
            logical_min: -127,
            logical_max: 127,
        },
    ]
}

#[verifier::rlimit(100)]
proof fn lemma_descriptor_input_fields()
    ensures
        input_fields(mouse_descriptor_items(), initial_globals()) == mouse_input_fields(),
{
    reveal_with_fuel(input_fields, 29);
    assert(input_fields(mouse_descriptor_items(), initial_globals()) =~= mouse_input_fields());
}

/// The layout the descriptor announces is the layout of
/// [`MouseReport::to_bytes`]: in report `MOUSE_ID`, three one-bit buttons
/// and five bits of constant padding (byte 0: `buttons`), then three signed
/// relative 8-bit fields X, Y and wheel in -127..127 (bytes 1 to 3: `dx`,
/// `dy`, `wheel`); `REPORT_LEN` bytes in all.
pub proof fn lemma_descriptor_matches_report()
    ensures
        input_fields(mouse_descriptor_items(), initial_globals()) == mouse_input_fields(),
        report_bits(input_fields(mouse_descriptor_items(), initial_globals())) == 8 * REPORT_LEN,
        forall|r: MouseReport| #[trigger] report_bytes(r).len() == REPORT_LEN,
{
    lemma_descriptor_input_fields();
    let f = mouse_input_fields();
    lemma_report_bits_three(f[0], f[1], f[2]);
    assert(f =~= seq![f[0], f[1], f[2]]);
    let s0: int = f[0].size;
    let c0: int = f[0].count;
    let s1: int = f[1].size;
    let c1: int = f[1].count;
    let s2: int = f[2].size;
    let c2: int = f[2].count;
    assert(s0 * c0 + s1 * c1 + s2 * c2 == 32) by (nonlinear_arith)
        requires
            s0 == 1 && c0 == 3 && s1 == 5 && c1 == 1 && s2 == 8 && c2 == 3,
    ;
}

} // verus!
