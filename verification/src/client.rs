//! The client: what it knows, and what it asks of the transport step by step.
//!
//! The client does no input or output of its own. An operation starts with a call of
//! the method that names it, which hands back the first `Step`. Whoever holds the
//! socket performs the step, reports what happened with `resume`, and goes on with the
//! step that `resume` hands back until that step is `Done` or `Failed`.

use crate::color::{Brightness, Color};
use crate::device::{
    get_group, get_label, get_location, read_device_address, read_group, read_label,
    read_location, spec_get_device_address, spec_query_device, spec_read_device_address,
    spec_read_group, spec_read_label, spec_read_location, Device, DeviceAddress, DeviceView,
    SocketEndpoint,
};
use crate::error::Error;
use crate::light::{
    get_state, read_reply, read_state, set_color, set_power, spec_get_state, spec_read_reply,
    spec_read_state, spec_set_color, spec_set_power,
};
use crate::protocol::header::{DeviceMessageType, MessageType};
use crate::protocol::message::{Hsbk, Power};
use crate::protocol::packet::{Packet, PacketView};
use crate::text::{spec_trim_trailing_null, trim_end_nulls};
use vstd::prelude::*;

verus! {

/// A duration in milliseconds as a `u32`: nothing below zero, nothing above the
/// largest `u32`.
pub open spec fn spec_to_millis(duration: int) -> u32 {
    if duration <= 0 {
        0
    } else if duration >= 0xffff_ffff {
        0xffff_ffff
    } else {
        duration as u32
    }
}

/// The duration in milliseconds that goes on the wire for a duration of `duration`
/// milliseconds.
pub fn to_millis(duration: i64) -> (millis: u32)
    ensures
        millis == spec_to_millis(duration as int),
        duration <= 0 ==> millis == 0,
        duration >= u32::MAX ==> millis == u32::MAX,
{
    if duration < 0 {
        0u32
    } else if duration > 0xffff_ffff {
        u32::MAX
    } else {
        duration as u32
    }
}

/// The text without the null characters at its end.
pub fn trim_trailing_null(s: String) -> (trimmed: String)
    ensures
        trimmed@ == spec_trim_trailing_null(s@),
{
    trim_end_nulls(s.as_str())
}

/// The sequence number `steps` requests after `sequence`: the counter has eight bits
/// and starts over after 255.
pub open spec fn spec_advance(sequence: u8, steps: nat) -> u8 {
    ((sequence + steps) % 256) as u8
}

/// Advancing the counter step by step is advancing it by the sum of the steps, and
/// after 256 requests the counter is where it was.
pub proof fn lemma_sequence_wraps(sequence: u8, a: nat, b: nat)
    ensures
        spec_advance(spec_advance(sequence, a), b) == spec_advance(sequence, a + b),
        spec_advance(sequence, 256) == sequence,
        spec_advance(sequence, 0) == sequence,
{
    assert(((sequence + a) % 256 + b) % 256 == (sequence + a + b) % 256);
}

/// The counter after `count` requests, one after the other.
pub open spec fn spec_after_requests(sequence: u8, count: nat) -> u8
    decreases count,
{
    if count == 0 {
        sequence
    } else {
        spec_after_requests(spec_advance(sequence, 1), (count - 1) as nat)
    }
}

/// The sequence numbers of `count` requests, one after the other, the first of them
/// under `sequence`.
pub open spec fn spec_numbers(sequence: u8, count: nat) -> Seq<u8>
    decreases count,
{
    if count == 0 {
        Seq::empty()
    } else {
        seq![sequence] + spec_numbers(spec_advance(sequence, 1), (count - 1) as nat)
    }
}

/// Of requests that follow one another, the one after `k` others goes out under the
/// number `k` steps on, counted round the 256 numbers, and after `count` of them the
/// counter is `count` steps on.
pub proof fn lemma_counter_after_requests(sequence: u8, count: nat)
    ensures
        spec_after_requests(sequence, count) == spec_advance(sequence, count),
        spec_numbers(sequence, count).len() == count,
        forall|k: int|
            0 <= k < count ==> #[trigger] spec_numbers(sequence, count)[k] == spec_advance(
                sequence,
                k as nat,
            ),
    decreases count,
{
    if count > 0 {
        let next = spec_advance(sequence, 1);
        lemma_counter_after_requests(next, (count - 1) as nat);
        lemma_sequence_wraps(sequence, 1, (count - 1) as nat);
        assert forall|k: int| 0 <= k < count implies #[trigger] spec_numbers(sequence, count)[k]
            == spec_advance(sequence, k as nat) by {
            if k > 0 {
                assert(spec_numbers(sequence, count)[k] == spec_numbers(
                    next,
                    (count - 1) as nat,
                )[k - 1]);
                lemma_sequence_wraps(sequence, 1, (k - 1) as nat);
            }
        }
    }
}

/// After 256 requests the counter is where it was, and the 256 requests went out under
/// 256 different numbers.
pub proof fn lemma_counter_wraps(sequence: u8)
    ensures
        spec_after_requests(sequence, 256) == sequence,
        spec_numbers(sequence, 256).len() == 256,
        forall|j: int, k: int|
            0 <= j < k < 256 ==> spec_numbers(sequence, 256)[j] != spec_numbers(sequence, 256)[k],
{
    lemma_counter_after_requests(sequence, 256);
    lemma_sequence_wraps(sequence, 0, 0);
}

/// `rand::random` of the rand crate for a `u32`: some number. Nothing is promised of
/// it.
#[verifier::external_body]
fn random_source() -> u32 {
    rand::random::<u32>()
}

/// The views of the devices in a list.
pub open spec fn views(devices: Seq<Device>) -> Seq<DeviceView> {
    Seq::new(devices.len(), |i: int| devices[i]@)
}

/// Whether nothing occurs twice.
pub open spec fn spec_unique<T>(items: Seq<T>) -> bool {
    forall|i: int, j: int| 0 <= i < j < items.len() ==> items[i] != items[j]
}

/// The list with `item` in it: as it was where it holds the item already, else with
/// the item at its end.
pub open spec fn spec_insert<T>(items: Seq<T>, item: T) -> Seq<T> {
    if items.contains(item) {
        items
    } else {
        items.push(item)
    }
}

/// A list in which nothing occurs twice stays one when an item is put into it, and
/// holds the item and what it held before, nothing else.
pub proof fn lemma_insert_keeps_unique<T>(items: Seq<T>, item: T)
    requires
        spec_unique(items),
    ensures
        spec_unique(spec_insert(items, item)),
        spec_insert(items, item).contains(item),
        forall|other: T|
            spec_insert(items, item).contains(other) <==> other == item || items.contains(other),
{
    let after = spec_insert(items, item);
    if items.contains(item) {
    } else {
        assert(after[items.len() as int] == item);
        assert forall|i: int, j: int| 0 <= i < j < after.len() implies after[i] != after[j] by {
            if j == items.len() {
                assert(items[i] == after[i]);
                assert(items.contains(items[i]));
            }
        }
        assert forall|other: T| after.contains(other) implies other == item || items.contains(
            other,
        ) by {
            let k = choose|k: int| 0 <= k < after.len() && after[k] == other;
            if k < items.len() {
                assert(items[k] == other);
            }
        }
        assert forall|other: T| other == item || items.contains(other) implies after.contains(
            other,
        ) by {
            if items.contains(other) {
                let k = choose|k: int| 0 <= k < items.len() && items[k] == other;
                assert(after[k] == other);
            }
        }
    }
}

/// What the client asks of whoever holds the socket.
#[derive(Debug)]
pub enum Step {
    /// Send the bytes to the endpoint, with broadcast off, and read nothing. Report
    /// `Event::Sent`.
    Send { to: SocketEndpoint, bytes: Vec<u8> },
    /// Send the bytes to the endpoint, with broadcast off, and read one datagram.
    /// Report it with `Event::Received`.
    Exchange { to: SocketEndpoint, bytes: Vec<u8> },
    /// Send the bytes to the endpoint, with broadcast on, and read one datagram.
    /// Report it with `Event::Received`, or `Event::TimedOut` where none came in time.
    Broadcast { to: SocketEndpoint, bytes: Vec<u8> },
    /// Read one more datagram. Report it with `Event::Received`, or `Event::TimedOut`
    /// where none came in time.
    Listen,
    /// The operation is done.
    Done(Outcome),
    /// The operation has failed. The client is ready for the next one.
    Failed(Error),
}

/// What an operation gives when it is done.
#[derive(Debug)]
pub enum Outcome {
    Nothing,
    Color(Color),
    Device(Device),
    Devices(Vec<Device>),
}

/// What happened to a step.
#[derive(Debug)]
pub enum Event {
    /// The bytes of a `Send` step have gone out.
    Sent,
    /// A datagram came from `from`.
    Received { from: SocketEndpoint, bytes: Vec<u8> },
    /// No datagram came in time.
    TimedOut,
    /// The transport could not do what the step asked.
    Failed,
}

/// Which of a device's three names is asked for.
#[derive(Debug, Clone, Copy, PartialEq, Eq, Structural)]
pub enum Stage {
    Label,
    Group,
    Location,
}

/// What the client waits for.
#[derive(Debug)]
enum Pending {
    Idle,
    Sending,
    Acknowledging,
    Color,
    Toggle { device: DeviceAddress, duration: u32 },
    Brightness { device: DeviceAddress, level: u16, duration: u32 },
    SwitchingOn { device: DeviceAddress, color: Hsbk, duration: u32 },
    Temperature { device: DeviceAddress, kelvin: u16, level: Option<u16>, duration: u32 },
    Collecting { found: Vec<DeviceAddress> },
    Finding {
        address: DeviceAddress,
        stage: Stage,
        label: String,
        group: String,
        queue: Vec<DeviceAddress>,
        next: usize,
        discovering: bool,
    },
}

/// A step as a value of the model.
#[verifier::ext_equal]
pub ghost enum StepView {
    Send { to: SocketEndpoint, bytes: Seq<u8> },
    Exchange { to: SocketEndpoint, bytes: Seq<u8> },
    Broadcast { to: SocketEndpoint, bytes: Seq<u8> },
    Listen,
    Done(OutcomeView),
    Failed(Error),
}

/// An outcome as a value of the model.
#[verifier::ext_equal]
pub ghost enum OutcomeView {
    Nothing,
    Color(Color),
    Device(DeviceView),
    Devices(Seq<DeviceView>),
}

/// An event as a value of the model.
#[verifier::ext_equal]
pub ghost enum EventView {
    Sent,
    Received { from: SocketEndpoint, bytes: Seq<u8> },
    TimedOut,
    Failed,
}

/// What the client waits for, as a value of the model.
#[verifier::ext_equal]
pub ghost enum PendingView {
    /// Nothing: no operation is under way.
    Idle,
    /// That a request to which no answer is asked has gone out.
    Sending,
    /// An answer whose contents do not matter.
    Acknowledging,
    /// The state of a light, to report its colour.
    Color,
    /// The state of a light, to switch it the other way.
    Toggle { device: DeviceAddress, duration: u32 },
    /// The state of a light, to set its brightness.
    Brightness { device: DeviceAddress, level: u16, duration: u32 },
    /// That the request to switch on has gone out, to send the colour after it.
    SwitchingOn { device: DeviceAddress, color: Hsbk, duration: u32 },
    /// The state of a light, to set its colour temperature, and its brightness too
    /// where `level` holds one.
    Temperature { device: DeviceAddress, kelvin: u16, level: Option<u16>, duration: u32 },
    /// Answers to the broadcast; `found` holds the addresses that came so far.
    Collecting { found: Seq<DeviceAddress> },
    /// One of the three names of the device at `address`. While discovering, the
    /// devices at `queue[next..]` follow.
    Finding {
        address: DeviceAddress,
        stage: Stage,
        label: Seq<char>,
        group: Seq<char>,
        queue: Seq<DeviceAddress>,
        next: nat,
        discovering: bool,
    },
}

impl View for Outcome {
    type V = OutcomeView;

    open spec fn view(&self) -> OutcomeView {
        match self {
            Outcome::Nothing => OutcomeView::Nothing,
            Outcome::Color(color) => OutcomeView::Color(*color),
            Outcome::Device(device) => OutcomeView::Device(device@),
            Outcome::Devices(devices) => OutcomeView::Devices(views(devices@)),
        }
    }
}

impl View for Step {
    type V = StepView;

    open spec fn view(&self) -> StepView {
        match self {
            Step::Send { to, bytes } => StepView::Send { to: *to, bytes: bytes@ },
            Step::Exchange { to, bytes } => StepView::Exchange { to: *to, bytes: bytes@ },
            Step::Broadcast { to, bytes } => StepView::Broadcast { to: *to, bytes: bytes@ },
            Step::Listen => StepView::Listen,
            Step::Done(outcome) => StepView::Done(outcome@),
            Step::Failed(error) => StepView::Failed(*error),
        }
    }
}

impl View for Event {
    type V = EventView;

    open spec fn view(&self) -> EventView {
        match self {
            Event::Sent => EventView::Sent,
            Event::Received { from, bytes } => EventView::Received { from: *from, bytes: bytes@ },
            Event::TimedOut => EventView::TimedOut,
            Event::Failed => EventView::Failed,
        }
    }
}

impl View for Pending {
    type V = PendingView;

    closed spec fn view(&self) -> PendingView {
        match self {
            Pending::Idle => PendingView::Idle,
            Pending::Sending => PendingView::Sending,
            Pending::Acknowledging => PendingView::Acknowledging,
            Pending::Color => PendingView::Color,
            Pending::Toggle { device, duration } => PendingView::Toggle {
                device: *device,
                duration: *duration,
            },
            Pending::Brightness { device, level, duration } => PendingView::Brightness {
                device: *device,
                level: *level,
                duration: *duration,
            },
            Pending::SwitchingOn { device, color, duration } => PendingView::SwitchingOn {
                device: *device,
                color: *color,
                duration: *duration,
            },
            Pending::Temperature { device, kelvin, level, duration } => PendingView::Temperature {
                device: *device,
                kelvin: *kelvin,
                level: *level,
                duration: *duration,
            },
            Pending::Collecting { found } => PendingView::Collecting { found: found@ },
            Pending::Finding {
                address,
                stage,
                label,
                group,
                queue,
                next,
                discovering,
            } => PendingView::Finding {
                address: *address,
                stage: *stage,
                label: label@,
                group: group@,
                queue: queue@,
                next: *next as nat,
                discovering: *discovering,
            },
        }
    }
}

/// The client as a value of the model.
#[verifier::ext_equal]
pub ghost struct ClientView {
    /// The identifier that every request carries.
    pub source: u32,
    /// The sequence number of the next request.
    pub sequence: u8,
    /// The devices that are known, each once, in the order in which they were found.
    pub devices: Seq<DeviceView>,
    pub pending: PendingView,
}

/// The request for one of the three names of a device.
pub open spec fn spec_ask_name(
    stage: Stage,
    address: DeviceAddress,
    source: u32,
    sequence: u8,
) -> PacketView {
    spec_query_device(
        MessageType::Device(
            match stage {
                Stage::Label => DeviceMessageType::GetLabel,
                Stage::Group => DeviceMessageType::GetGroup,
                Stage::Location => DeviceMessageType::GetLocation,
            },
        ),
        address.mac_address,
        source,
        sequence,
    )
}

/// What a datagram means as the answer to a request for one of the three names: the
/// name, without the null characters at its end.
pub open spec fn spec_read_name(stage: Stage, datagram: Seq<u8>) -> Result<Seq<char>, Error> {
    match stage {
        Stage::Label => match spec_read_label(datagram) {
            Ok(label) => Ok(spec_trim_trailing_null(label)),
            Err(error) => Err(error),
        },
        Stage::Group => match spec_read_group(datagram) {
            Ok(payload) => Ok(spec_trim_trailing_null(payload.label)),
            Err(error) => Err(error),
        },
        Stage::Location => match spec_read_location(datagram) {
            Ok(payload) => Ok(spec_trim_trailing_null(payload.label)),
            Err(error) => Err(error),
        },
    }
}

/// A name that a device reports has at most 32 bytes and does not end in a null
/// character.
pub proof fn lemma_names_fit(stage: Stage, datagram: Seq<u8>)
    ensures
        spec_read_name(stage, datagram) is Ok ==> ({
            let name = spec_read_name(stage, datagram)->Ok_0;
            &&& vstd::utf8::encode_utf8(name).len() <= 32
            &&& name.len() > 0 ==> name.last() != '\0'
        }),
{
    if spec_read_name(stage, datagram) is Ok {
        let padded: Seq<char> = match stage {
            Stage::Label => spec_read_label(datagram)->Ok_0,
            Stage::Group => spec_read_group(datagram)->Ok_0.label,
            Stage::Location => spec_read_location(datagram)->Ok_0.label,
        };
        let packet = PacketView::spec_from(datagram)->Ok_0;
        let payload = datagram.subrange(36, packet.frame.size as int);
        let text = match stage {
            Stage::Label => payload,
            _ => payload.subrange(16, 48),
        };
        assert(padded == vstd::utf8::decode_utf8(text));
        vstd::utf8::decode_utf8_encode_utf8(text);
        crate::text::lemma_trim_trailing_null(padded);
        crate::text::lemma_trim_is_no_longer(padded);
    }
}

impl ClientView {
    /// A client that knows no device and waits for nothing.
    pub open spec fn spec_new(source: u32) -> ClientView {
        ClientView { source, sequence: 0, devices: Seq::empty(), pending: PendingView::Idle }
    }

    /// The operation under way ends with `step`.
    pub open spec fn spec_stop(self, step: StepView) -> (ClientView, StepView) {
        (ClientView { pending: PendingView::Idle, ..self }, step)
    }

    /// The client with the sequence number of its next request taken, and waiting for
    /// `then`.
    pub open spec fn spec_taken(self, then: PendingView) -> ClientView {
        ClientView { sequence: spec_advance(self.sequence, 1), pending: then, ..self }
    }

    /// A request goes out to which no answer is asked.
    pub open spec fn spec_send(self, to: SocketEndpoint, packet: PacketView, then: PendingView) -> (
        ClientView,
        StepView,
    ) {
        (self.spec_taken(then), StepView::Send { to, bytes: packet.spec_bytes() })
    }

    /// A request goes out and one answer is awaited.
    pub open spec fn spec_exchange(
        self,
        to: SocketEndpoint,
        packet: PacketView,
        then: PendingView,
    ) -> (ClientView, StepView) {
        (self.spec_taken(then), StepView::Exchange { to, bytes: packet.spec_bytes() })
    }

    /// The request to switch a device, after which the client waits for `then`.
    pub open spec fn spec_switch(
        self,
        device: DeviceAddress,
        power: Power,
        duration: u32,
        then: PendingView,
    ) -> (ClientView, StepView) {
        self.spec_send(
            device.socket_address,
            spec_set_power(device, self.source, self.sequence, power, duration),
            then,
        )
    }

    /// The request to show a colour, whose answer ends the operation.
    pub open spec fn spec_show(self, device: DeviceAddress, color: Hsbk, duration: u32) -> (
        ClientView,
        StepView,
    ) {
        self.spec_exchange(
            device.socket_address,
            spec_set_color(device, self.source, self.sequence, color, duration),
            PendingView::Acknowledging,
        )
    }

    /// The request for the state of a light, after which the client waits for `then`.
    pub open spec fn spec_ask_state(self, device: DeviceAddress, then: PendingView) -> (
        ClientView,
        StepView,
    ) {
        self.spec_exchange(
            device.socket_address,
            spec_get_state(device, self.source, self.sequence),
            then,
        )
    }

    /// The request for one of the three names of the device at `address`.
    pub open spec fn spec_find(
        self,
        address: DeviceAddress,
        stage: Stage,
        label: Seq<char>,
        group: Seq<char>,
        queue: Seq<DeviceAddress>,
        next: nat,
        discovering: bool,
    ) -> (ClientView, StepView) {
        self.spec_exchange(
            address.socket_address,
            spec_ask_name(stage, address, self.source, self.sequence),
            PendingView::Finding { address, stage, label, group, queue, next, discovering },
        )
    }

    /// Discovery starts: the broadcast goes out and answers are collected.
    pub open spec fn spec_discover(self) -> (ClientView, StepView) {
        (
            self.spec_taken(PendingView::Collecting { found: Seq::empty() }),
            StepView::Broadcast {
                to: SocketEndpoint::spec_broadcast(),
                bytes: spec_get_device_address(self.source, self.sequence).spec_bytes(),
            },
        )
    }

    /// The three names of the device at `address` are asked for, the label first.
    pub open spec fn spec_find_device(self, address: DeviceAddress) -> (ClientView, StepView) {
        self.spec_find(address, Stage::Label, Seq::empty(), Seq::empty(), Seq::empty(), 0, false)
    }

    /// The colour of a light is asked for.
    pub open spec fn spec_get_color(self, device: DeviceAddress) -> (ClientView, StepView) {
        self.spec_ask_state(device, PendingView::Color)
    }

    /// A light is switched on over `duration` milliseconds.
    pub open spec fn spec_transition_on(self, device: DeviceAddress, duration: int) -> (
        ClientView,
        StepView,
    ) {
        self.spec_switch(device, Power::On(0xffff), spec_to_millis(duration), PendingView::Sending)
    }

    /// A light is switched off over `duration` milliseconds.
    pub open spec fn spec_transition_off(self, device: DeviceAddress, duration: int) -> (
        ClientView,
        StepView,
    ) {
        self.spec_switch(device, Power::Off, spec_to_millis(duration), PendingView::Sending)
    }

    /// A light is switched the other way: its state is asked for first.
    pub open spec fn spec_transition_toggle(self, device: DeviceAddress, duration: int) -> (
        ClientView,
        StepView,
    ) {
        self.spec_ask_state(
            device,
            PendingView::Toggle { device, duration: spec_to_millis(duration) },
        )
    }

    /// A light is made as bright as asked: switched off where it is to be dark, and
    /// else asked for its state first.
    pub open spec fn spec_transition_brightness(
        self,
        device: DeviceAddress,
        brightness: Brightness,
        duration: int,
    ) -> (ClientView, StepView) {
        match brightness {
            Brightness::Dark => self.spec_transition_off(device, duration),
            Brightness::Level(level) => self.spec_ask_state(
                device,
                PendingView::Brightness { device, level, duration: spec_to_millis(duration) },
            ),
        }
    }

    /// A light is given a colour; where the colour has no colour temperature the
    /// default goes with it.
    pub open spec fn spec_transition_color(self, device: DeviceAddress, color: Color, duration: int)
        -> (ClientView, StepView) {
        self.spec_show(device, color.spec_hsbk(), spec_to_millis(duration))
    }

    /// A light is given a colour temperature, and a brightness too where `level` holds
    /// one: its state is asked for first.
    pub open spec fn spec_transition_temperature(
        self,
        device: DeviceAddress,
        kelvin: u16,
        level: Option<u16>,
        duration: int,
    ) -> (ClientView, StepView) {
        self.spec_ask_state(
            device,
            PendingView::Temperature { device, kelvin, level, duration: spec_to_millis(duration) },
        )
    }

    /// What follows when the bytes of a request without answer have gone out.
    pub open spec fn spec_sent(self) -> (ClientView, StepView) {
        match self.pending {
            PendingView::Sending => self.spec_stop(StepView::Done(OutcomeView::Nothing)),
            PendingView::SwitchingOn { device, color, duration } => self.spec_show(
                device,
                color,
                duration,
            ),
            _ => self.spec_stop(StepView::Failed(Error::NotWaiting)),
        }
    }

    /// What follows when no datagram came in time: while answers to the broadcast are
    /// collected there are no more of them, and the devices found are asked for their
    /// names, the first one first; at any other time the operation has failed.
    pub open spec fn spec_timed_out(self) -> (ClientView, StepView) {
        match self.pending {
            PendingView::Collecting { found } => if found.len() == 0 {
                self.spec_stop(StepView::Done(OutcomeView::Devices(self.devices)))
            } else {
                self.spec_find(found[0], Stage::Label, Seq::empty(), Seq::empty(), found, 1, true)
            },
            _ => self.spec_stop(StepView::Failed(Error::Io)),
        }
    }

    /// What follows the state of a light, by what the client asked it for.
    pub open spec fn spec_state_known(self, state: crate::protocol::message::LightState) -> (
        ClientView,
        StepView,
    ) {
        match self.pending {
            PendingView::Color => self.spec_stop(
                StepView::Done(OutcomeView::Color(Color::spec_of_hsbk(state.color))),
            ),
            PendingView::Toggle { device, duration } => self.spec_switch(
                device,
                if state.spec_power() is Off {
                    Power::On(0xffff)
                } else {
                    Power::Off
                },
                duration,
                PendingView::Sending,
            ),
            PendingView::Brightness { device, level, duration } => {
                let color = Hsbk { brightness: level, ..state.color };
                if state.spec_power() is Off {
                    self.spec_switch(
                        device,
                        Power::On(0xffff),
                        0,
                        PendingView::SwitchingOn { device, color, duration },
                    )
                } else {
                    self.spec_show(device, color, duration)
                }
            },
            PendingView::Temperature { device, kelvin, level, duration } => self.spec_show(
                device,
                Hsbk {
                    hue: 0,
                    saturation: 0,
                    brightness: match level {
                        Some(level) => level,
                        None => state.color.brightness,
                    },
                    kelvin,
                },
                duration,
            ),
            _ => self.spec_stop(StepView::Failed(Error::NotWaiting)),
        }
    }

    /// What follows one of the three names of a device: the next name is asked for, and
    /// after the last the device is known. Then a single device is handed out, and a
    /// discovery goes on with the next device or ends with all that are known.
    pub open spec fn spec_name_known(self, name: Seq<char>) -> (ClientView, StepView) {
        match self.pending {
            PendingView::Finding { address, stage, label, group, queue, next, discovering } => {
                match stage {
                    Stage::Label => self.spec_find(
                        address,
                        Stage::Group,
                        name,
                        group,
                        queue,
                        next,
                        discovering,
                    ),
                    Stage::Group => self.spec_find(
                        address,
                        Stage::Location,
                        label,
                        name,
                        queue,
                        next,
                        discovering,
                    ),
                    Stage::Location => {
                        let device = DeviceView { address, label, group, location: name };
                        let known = ClientView {
                            devices: spec_insert(self.devices, device),
                            ..self
                        };
                        if !discovering {
                            known.spec_stop(StepView::Done(OutcomeView::Device(device)))
                        } else if next < queue.len() {
                            known.spec_find(
                                queue[next as int],
                                Stage::Label,
                                Seq::empty(),
                                Seq::empty(),
                                queue,
                                next + 1,
                                true,
                            )
                        } else {
                            known.spec_stop(StepView::Done(OutcomeView::Devices(known.devices)))
                        }
                    },
                }
            },
            _ => self.spec_stop(StepView::Failed(Error::NotWaiting)),
        }
    }

    /// What follows a datagram from `from`, by what the client waits for. A datagram
    /// that is not the awaited answer fails the operation.
    pub open spec fn spec_received(self, from: SocketEndpoint, bytes: Seq<u8>) -> (
        ClientView,
        StepView,
    ) {
        match self.pending {
            PendingView::Acknowledging => match spec_read_reply(bytes) {
                Ok(_) => self.spec_stop(StepView::Done(OutcomeView::Nothing)),
                Err(error) => self.spec_stop(StepView::Failed(error)),
            },
            PendingView::Color
            | PendingView::Toggle { .. }
            | PendingView::Brightness { .. }
            | PendingView::Temperature { .. } => match spec_read_state(bytes) {
                Ok(state) => self.spec_state_known(state),
                Err(error) => self.spec_stop(StepView::Failed(error)),
            },
            PendingView::Collecting { found } => match spec_read_device_address(bytes, from) {
                Ok(address) => (
                    ClientView {
                        pending: PendingView::Collecting { found: spec_insert(found, address) },
                        ..self
                    },
                    StepView::Listen,
                ),
                Err(error) => self.spec_stop(StepView::Failed(error)),
            },
            PendingView::Finding { stage, .. } => match spec_read_name(stage, bytes) {
                Ok(name) => self.spec_name_known(name),
                Err(error) => self.spec_stop(StepView::Failed(error)),
            },
            _ => self.spec_stop(StepView::Failed(Error::NotWaiting)),
        }
    }

    /// What follows an event. While no operation is under way, none is awaited; a
    /// failure of the transport fails the operation.
    pub open spec fn spec_resume(self, event: EventView) -> (ClientView, StepView) {
        if self.pending is Idle {
            self.spec_stop(StepView::Failed(Error::NotWaiting))
        } else {
            match event {
                EventView::Failed => self.spec_stop(StepView::Failed(Error::Io)),
                EventView::Sent => self.spec_sent(),
                EventView::TimedOut => self.spec_timed_out(),
                EventView::Received { from, bytes } => self.spec_received(from, bytes),
            }
        }
    }
}

/// Whether `bytes` are the bytes of a well-formed, addressable packet from `source`
/// under `sequence`, which is read back from them.
#[verifier::opaque]
pub open spec fn spec_is_request(bytes: Seq<u8>, source: u32, sequence: u8) -> bool {
    match PacketView::spec_from(bytes) {
        Ok(packet) => {
            &&& packet.wf()
            &&& packet.spec_bytes() == bytes
            &&& packet.frame.addressable
            &&& packet.frame.source == source
            &&& packet.frame_address.sequence == sequence
        },
        Err(_) => false,
    }
}

/// The bytes that a step sends, where it sends any.
pub open spec fn spec_step_bytes(step: StepView) -> Option<Seq<u8>> {
    match step {
        StepView::Send { bytes, .. } => Some(bytes),
        StepView::Exchange { bytes, .. } => Some(bytes),
        StepView::Broadcast { bytes, .. } => Some(bytes),
        _ => None,
    }
}

/// Whether `after` and `step` follow `before` as they should: the identifier stays,
/// and a step that sends bytes sends a request under the sequence number that was
/// next and moves the counter on by one, while any other step leaves the counter
/// alone.
pub open spec fn spec_takes_one_number(before: ClientView, after: ClientView, step: StepView)
    -> bool {
    &&& after.source == before.source
    &&& match spec_step_bytes(step) {
        Some(bytes) => spec_is_request(bytes, before.source, before.sequence) && after.sequence
            == spec_advance(before.sequence, 1),
        None => after.sequence == before.sequence,
    }
}

/// The bytes of a built packet whose message is well formed are a request from the
/// builder's source under the builder's sequence number.
pub proof fn lemma_built_packet_is_request(builder: crate::protocol::packet::PacketBuilderView)
    requires
        builder.message.wf(),
        builder.message.spec_bytes().len() <= crate::protocol::message::MAX_PAYLOAD_LEN,
    ensures
        spec_is_request(builder.spec_build().spec_bytes(), builder.source, builder.sequence),
{
    reveal(spec_is_request);
    let packet = builder.spec_build();
    crate::protocol::packet::lemma_packet_round_trip(packet, Seq::empty());
    assert(packet.spec_bytes() + Seq::<u8>::empty() =~= packet.spec_bytes());
}

/// Every request that starts an operation takes one sequence number.
pub proof fn lemma_operations_take_one_number(
    client: ClientView,
    device: DeviceAddress,
    brightness: Brightness,
    color: Color,
    kelvin: u16,
    level: Option<u16>,
    duration: int,
)
    ensures
        spec_takes_one_number(client, client.spec_discover().0, client.spec_discover().1),
        spec_takes_one_number(
            client,
            client.spec_find_device(device).0,
            client.spec_find_device(device).1,
        ),
        spec_takes_one_number(
            client,
            client.spec_get_color(device).0,
            client.spec_get_color(device).1,
        ),
        spec_takes_one_number(
            client,
            client.spec_transition_on(device, duration).0,
            client.spec_transition_on(device, duration).1,
        ),
        spec_takes_one_number(
            client,
            client.spec_transition_off(device, duration).0,
            client.spec_transition_off(device, duration).1,
        ),
        spec_takes_one_number(
            client,
            client.spec_transition_toggle(device, duration).0,
            client.spec_transition_toggle(device, duration).1,
        ),
        spec_takes_one_number(
            client,
            client.spec_transition_brightness(device, brightness, duration).0,
            client.spec_transition_brightness(device, brightness, duration).1,
        ),
        spec_takes_one_number(
            client,
            client.spec_transition_color(device, color, duration).0,
            client.spec_transition_color(device, color, duration).1,
        ),
        spec_takes_one_number(
            client,
            client.spec_transition_temperature(device, kelvin, level, duration).0,
            client.spec_transition_temperature(device, kelvin, level, duration).1,
        ),
{
    let millis = spec_to_millis(duration);
    lemma_requests(client, device, Power::On(0xffff), color.spec_hsbk(), millis, Stage::Label);
    lemma_requests(client, device, Power::Off, color.spec_hsbk(), millis, Stage::Label);
}

/// The requests that the client sends are requests from its source under the sequence
/// number that is next.
pub proof fn lemma_requests(
    client: ClientView,
    device: DeviceAddress,
    power: Power,
    color: Hsbk,
    duration: u32,
    stage: Stage,
)
    requires
        power.wf(),
    ensures
        spec_is_request(
            spec_get_device_address(client.source, client.sequence).spec_bytes(),
            client.source,
            client.sequence,
        ),
        spec_is_request(
            spec_get_state(device, client.source, client.sequence).spec_bytes(),
            client.source,
            client.sequence,
        ),
        spec_is_request(
            spec_set_power(device, client.source, client.sequence, power, duration).spec_bytes(),
            client.source,
            client.sequence,
        ),
        spec_is_request(
            spec_set_color(device, client.source, client.sequence, color, duration).spec_bytes(),
            client.source,
            client.sequence,
        ),
        spec_is_request(
            spec_ask_name(stage, device, client.source, client.sequence).spec_bytes(),
            client.source,
            client.sequence,
        ),
{
    let source = client.source;
    let sequence = client.sequence;
    let new = |message: crate::protocol::message::MessageView|
        crate::protocol::packet::PacketBuilderView::spec_new(message);
    lemma_built_packet_is_request(
        crate::protocol::packet::PacketBuilderView {
            source,
            sequence,
            res_required: true,
            ..new(
                crate::protocol::message::MessageView::Empty(
                    MessageType::Device(DeviceMessageType::GetService),
                ),
            )
        },
    );
    lemma_built_packet_is_request(
        crate::protocol::packet::PacketBuilderView {
            source,
            sequence,
            res_required: true,
            ..crate::light::spec_to_device(
                crate::protocol::message::MessageView::Empty(
                    MessageType::Light(crate::protocol::header::LightMessageType::Get),
                ),
                device,
            )
        },
    );
    let switch = crate::protocol::message::MessageView::SetPower(
        crate::protocol::message::SetPowerPayload { power, duration },
    );
    crate::protocol::message::lemma_set_power_round_trip(
        crate::protocol::message::SetPowerPayload { power, duration },
    );
    lemma_built_packet_is_request(
        crate::protocol::packet::PacketBuilderView {
            source,
            sequence,
            ..crate::light::spec_to_device(switch, device)
        },
    );
    let show = crate::protocol::message::MessageView::SetColor(
        crate::protocol::message::SetColorPayload { color, duration },
    );
    crate::protocol::message::lemma_set_color_round_trip(
        crate::protocol::message::SetColorPayload { color, duration },
    );
    lemma_built_packet_is_request(
        crate::protocol::packet::PacketBuilderView {
            source,
            sequence,
            res_required: true,
            ..crate::light::spec_to_device(show, device)
        },
    );
    let kind = MessageType::Device(
        match stage {
            Stage::Label => DeviceMessageType::GetLabel,
            Stage::Group => DeviceMessageType::GetGroup,
            Stage::Location => DeviceMessageType::GetLocation,
        },
    );
    lemma_built_packet_is_request(
        crate::protocol::packet::PacketBuilderView {
            source,
            sequence,
            res_required: true,
            target: device.mac_address,
            tagged: false,
            ..new(crate::protocol::message::MessageView::Empty(kind))
        },
    );
}

/// Whatever the client waits for and whatever is reported to it, the step that follows
/// takes one sequence number where it sends a request and none where it does not:
/// between two requests of a client the counter moves by exactly one.
pub proof fn lemma_resume_takes_one_number(client: ClientView, event: EventView)
    ensures
        spec_takes_one_number(client, client.spec_resume(event).0, client.spec_resume(event).1),
{
    let (after, step) = client.spec_resume(event);
    match spec_step_bytes(step) {
        None => {},
        Some(bytes) => {
            match client.pending {
                PendingView::SwitchingOn { device, color, duration } => {
                    lemma_requests(client, device, Power::Off, color, duration, Stage::Label);
                },
                PendingView::Toggle { device, duration } => {
                    lemma_requests(
                        client,
                        device,
                        Power::Off,
                        Hsbk { hue: 0, saturation: 0, brightness: 0, kelvin: 0 },
                        duration,
                        Stage::Label,
                    );
                    lemma_requests(
                        client,
                        device,
                        Power::On(0xffff),
                        Hsbk { hue: 0, saturation: 0, brightness: 0, kelvin: 0 },
                        duration,
                        Stage::Label,
                    );
                },
                PendingView::Brightness { device, level, duration } => {
                    let state = spec_read_state(event->bytes)->Ok_0;
                    lemma_requests(
                        client,
                        device,
                        Power::On(0xffff),
                        Hsbk { brightness: level, ..state.color },
                        0,
                        Stage::Label,
                    );
                    lemma_requests(
                        client,
                        device,
                        Power::On(0xffff),
                        Hsbk { brightness: level, ..state.color },
                        duration,
                        Stage::Label,
                    );
                },
                PendingView::Temperature { device, kelvin, level, duration } => {
                    let state = spec_read_state(event->bytes)->Ok_0;
                    lemma_requests(
                        client,
                        device,
                        Power::Off,
                        Hsbk {
                            hue: 0,
                            saturation: 0,
                            brightness: match level {
                                Some(level) => level,
                                None => state.color.brightness,
                            },
                            kelvin,
                        },
                        duration,
                        Stage::Label,
                    );
                },
                PendingView::Collecting { found } => {
                    lemma_requests(
                        client,
                        found[0],
                        Power::Off,
                        Hsbk { hue: 0, saturation: 0, brightness: 0, kelvin: 0 },
                        0,
                        Stage::Label,
                    );
                },
                PendingView::Finding { address, stage, queue, next, .. } => {
                    let color = Hsbk { hue: 0, saturation: 0, brightness: 0, kelvin: 0 };
                    lemma_requests(client, address, Power::Off, color, 0, Stage::Group);
                    lemma_requests(client, address, Power::Off, color, 0, Stage::Location);
                    if next < queue.len() {
                        lemma_requests(
                            client,
                            queue[next as int],
                            Power::Off,
                            color,
                            0,
                            Stage::Label,
                        );
                    }
                },
                _ => {},
            }
        },
    }
}

/// An operation that is done or has failed leaves the client waiting for nothing, and
/// no event makes the client forget a device: what was known before is known after,
/// in the same order, and at most one device has joined.
pub proof fn lemma_resume_keeps_devices(client: ClientView, event: EventView)
    ensures
        client.spec_resume(event).1 is Done || client.spec_resume(event).1 is Failed
            ==> client.spec_resume(event).0.pending is Idle,
        client.spec_resume(event).0.devices.len() <= client.devices.len() + 1,
        client.spec_resume(event).0.devices.subrange(0, client.devices.len() as int)
            == client.devices,
        client.spec_resume(event).1 is Failed ==> client.spec_resume(event).0.devices
            == client.devices,
{
    let after = client.spec_resume(event).0;
    assert(after.devices.subrange(0, client.devices.len() as int) =~= client.devices);
}

/// The client: its identifier, its sequence counter, the devices it knows and what it
/// waits for.
#[derive(Debug)]
pub struct Client {
    source: u32,
    sequence: u8,
    devices: Vec<Device>,
    pending: Pending,
}

impl View for Client {
    type V = ClientView;

    closed spec fn view(&self) -> ClientView {
        ClientView {
            source: self.source,
            sequence: self.sequence,
            devices: views(self.devices@),
            pending: self.pending@,
        }
    }
}

/// Puts `address` into `found` unless it is there.
fn insert_address(found: &mut Vec<DeviceAddress>, address: DeviceAddress)
    ensures
        final(found)@ == spec_insert(old(found)@, address),
{
    let mut i: usize = 0;
    while i < found.len()
        invariant
            i <= found@.len(),
            found@ == old(found)@,
            forall|k: int| 0 <= k < i ==> found@[k] != address,
        decreases found@.len() - i,
    {
        if found[i].same(&address) {
            assert(found@.contains(address));
            return ;
        }
        i = i + 1;
    }
    assert(!found@.contains(address));
    found.push(address);
}

impl Client {
    /// No device is known twice.
    #[verifier::type_invariant]
    spec fn well_formed(self) -> bool {
        spec_unique(views(self.devices@))
    }

    /// A client with an identifier chosen at random.
    pub fn new() -> (client: Client)
        ensures
            client@ == ClientView::spec_new(client@.source),
    {
        Client::with_source(random_source())
    }

    /// A client with the given identifier.
    pub fn with_source(source: u32) -> (client: Client)
        ensures
            client@ == ClientView::spec_new(source),
    {
        let client = Client { source, sequence: 0, devices: Vec::new(), pending: Pending::Idle };
        assert(views(client.devices@) =~= Seq::empty());
        client
    }

    /// The identifier that every request of this client carries.
    pub fn source(&self) -> (source: u32)
        ensures
            source == self@.source,
    {
        self.source
    }

    /// Whether no operation is under way.
    pub fn is_idle(&self) -> (idle: bool)
        ensures
            idle == (self@.pending is Idle),
    {
        match self.pending {
            Pending::Idle => true,
            _ => false,
        }
    }

    /// Forgets every device.
    pub fn forget_devices(&mut self)
        ensures
            final(self)@ == (ClientView { devices: Seq::empty(), ..old(self)@ }),
    {
        self.devices = Vec::new();
        assert(views(self.devices@) =~= Seq::empty());
    }

    /// The devices that are known, each once.
    pub fn get_devices(&self) -> (devices: &Vec<Device>)
        ensures
            views(devices@) == self@.devices,
            spec_unique(self@.devices),
    {
        proof {
            use_type_invariant(self);
        }
        &self.devices
    }

    /// The sequence number for the next request; the counter moves on by one and
    /// starts over after 255.
    pub fn sequence(&mut self) -> (sequence: u8)
        ensures
            sequence == old(self)@.sequence,
            final(self)@ == (ClientView {
                sequence: spec_advance(old(self)@.sequence, 1),
                ..old(self)@
            }),
    {
        proof {
            use_type_invariant(&*self);
        }
        let sequence: u8 = self.sequence;
        self.sequence = if sequence == 255 {
            0
        } else {
            sequence + 1
        };
        sequence
    }

    /// Copies of the devices that are known.
    fn snapshot(&self) -> (devices: Vec<Device>)
        ensures
            views(devices@) == self@.devices,
    {
        let mut devices: Vec<Device> = Vec::new();
        let mut i: usize = 0;
        while i < self.devices.len()
            invariant
                i <= self.devices@.len(),
                devices@.len() == i,
                forall|k: int| 0 <= k < i ==> devices@[k]@ == self.devices@[k]@,
            decreases self.devices@.len() - i,
        {
            devices.push(self.devices[i].clone());
            i = i + 1;
        }
        assert(views(devices@) =~= views(self.devices@));
        devices
    }

    /// Puts a device among those that are known, unless it is there.
    fn remember(&mut self, device: Device)
        ensures
            final(self)@ == (ClientView {
                devices: spec_insert(old(self)@.devices, device@),
                ..old(self)@
            }),
            final(self).pending == old(self).pending,
    {
        proof {
            use_type_invariant(&*self);
            lemma_insert_keeps_unique(views(self.devices@), device@);
        }
        let ghost before = views(self.devices@);
        let mut i: usize = 0;
        while i < self.devices.len()
            invariant
                i <= self.devices@.len(),
                before == views(self.devices@),
                forall|k: int| 0 <= k < i ==> before[k] != device@,
            decreases self.devices@.len() - i,
        {
            if self.devices[i].same(&device) {
                assert(before[i as int] == device@);
                assert(before.contains(device@));
                return ;
            }
            i = i + 1;
        }
        assert(!before.contains(device@));
        let ghost view = device@;
        let mut devices: Vec<Device> = Vec::new();
        core::mem::swap(&mut devices, &mut self.devices);
        devices.push(device);
        assert(views(devices@) =~= before.push(view));
        self.devices = devices;
    }

    /// Ends the operation under way with `step`.
    fn stop(&mut self, step: Step) -> (out: Step)
        ensures
            (final(self)@, out@) == old(self)@.spec_stop(step@),
    {
        proof {
            use_type_invariant(&*self);
        }
        self.pending = Pending::Idle;
        step
    }

    /// Sends a request to which no answer is asked.
    fn send(&mut self, to: SocketEndpoint, packet: Packet, then: Pending) -> (step: Step)
        ensures
            (final(self)@, step@) == (
                ClientView { pending: then@, ..old(self)@ },
                StepView::Send { to, bytes: packet@.spec_bytes() },
            ),
    {
        proof {
            use_type_invariant(&*self);
        }
        self.pending = then;
        Step::Send { to, bytes: packet.as_bytes() }
    }

    /// Sends a request and awaits one answer.
    fn exchange(&mut self, to: SocketEndpoint, packet: Packet, then: Pending) -> (step: Step)
        ensures
            (final(self)@, step@) == (
                ClientView { pending: then@, ..old(self)@ },
                StepView::Exchange { to, bytes: packet@.spec_bytes() },
            ),
    {
        proof {
            use_type_invariant(&*self);
        }
        self.pending = then;
        Step::Exchange { to, bytes: packet.as_bytes() }
    }

    /// Asks a device to switch.
    fn switch(
        &mut self,
        device: DeviceAddress,
        power: Power,
        duration: u32,
        then: Pending,
    ) -> (step: Step)
        ensures
            (final(self)@, step@) == old(self)@.spec_switch(device, power, duration, then@),
    {
        let sequence = self.sequence();
        let packet = set_power(&device, self.source, sequence, power, duration);
        self.send(device.socket_address(), packet, then)
    }

    /// Asks a device to show a colour.
    fn show(&mut self, device: DeviceAddress, color: Hsbk, duration: u32) -> (step: Step)
        ensures
            (final(self)@, step@) == old(self)@.spec_show(device, color, duration),
    {
        let sequence = self.sequence();
        let packet = set_color(&device, self.source, sequence, color, duration);
        self.exchange(device.socket_address(), packet, Pending::Acknowledging)
    }

    /// Asks a light for its state.
    fn ask_state(&mut self, device: DeviceAddress, then: Pending) -> (step: Step)
        ensures
            (final(self)@, step@) == old(self)@.spec_ask_state(device, then@),
    {
        let sequence = self.sequence();
        let packet = get_state(&device, self.source, sequence);
        self.exchange(device.socket_address(), packet, then)
    }

    /// Asks a device for one of its three names.
    fn find(
        &mut self,
        address: DeviceAddress,
        stage: Stage,
        label: String,
        group: String,
        queue: Vec<DeviceAddress>,
        next: usize,
        discovering: bool,
    ) -> (step: Step)
        ensures
            (final(self)@, step@) == old(self)@.spec_find(
                address,
                stage,
                label@,
                group@,
                queue@,
                next as nat,
                discovering,
            ),
    {
        let sequence = self.sequence();
        let packet = match stage {
            Stage::Label => get_label(&address, self.source, sequence),
            Stage::Group => get_group(&address, self.source, sequence),
            Stage::Location => get_location(&address, self.source, sequence),
        };
        self.exchange(
            address.socket_address(),
            packet,
            Pending::Finding { address, stage, label, group, queue, next, discovering },
        )
    }

    /// Starts a discovery: every device on the network is asked for its service, each
    /// one that answers is asked for its label, group and location, and all join the
    /// devices that are known. The outcome is a copy of all devices that are known.
    pub fn discover(&mut self) -> (step: Step)
        ensures
            (final(self)@, step@) == old(self)@.spec_discover(),
    {
        let sequence = self.sequence();
        let packet = crate::device::get_device_address(self.source, sequence);
        proof {
            use_type_invariant(&*self);
        }
        self.pending = Pending::Collecting { found: Vec::new() };
        Step::Broadcast { to: SocketEndpoint::broadcast(), bytes: packet.as_bytes() }
    }

    /// Asks the device at an address for its label, group and location. The outcome is
    /// the device, which joins the devices that are known.
    pub fn find_device(&mut self, device_address: DeviceAddress) -> (step: Step)
        ensures
            (final(self)@, step@) == old(self)@.spec_find_device(device_address),
    {
        self.find(
            device_address,
            Stage::Label,
            String::new(),
            String::new(),
            Vec::new(),
            0,
            false,
        )
    }

    /// Asks a light for its colour. The outcome is the colour, with the colour
    /// temperature that the light reports.
    pub fn get_color(&mut self, device: &Device) -> (step: Step)
        ensures
            (final(self)@, step@) == old(self)@.spec_get_color(device@.address),
    {
        self.ask_state(device.address(), Pending::Color)
    }

    /// Switches a light on over `duration` milliseconds.
    pub fn transition_on(&mut self, device: &Device, duration: i64) -> (step: Step)
        ensures
            (final(self)@, step@) == old(self)@.spec_transition_on(
                device@.address,
                duration as int,
            ),
    {
        self.switch(device.address(), Power::On(0xffff), to_millis(duration), Pending::Sending)
    }

    /// Switches a light on at once.
    pub fn turn_on(&mut self, device: &Device) -> (step: Step)
        ensures
            (final(self)@, step@) == old(self)@.spec_transition_on(device@.address, 0),
    {
        self.transition_on(device, 0)
    }

    /// Switches a light off over `duration` milliseconds.
    pub fn transition_off(&mut self, device: &Device, duration: i64) -> (step: Step)
        ensures
            (final(self)@, step@) == old(self)@.spec_transition_off(
                device@.address,
                duration as int,
            ),
    {
        self.switch(device.address(), Power::Off, to_millis(duration), Pending::Sending)
    }

    /// Switches a light off at once.
    pub fn turn_off(&mut self, device: &Device) -> (step: Step)
        ensures
            (final(self)@, step@) == old(self)@.spec_transition_off(device@.address, 0),
    {
        self.transition_off(device, 0)
    }

    /// Switches a light the other way over `duration` milliseconds: on where it
    /// reports to be off, off where it reports any level above zero.
    pub fn transition_toggle(&mut self, device: &Device, duration: i64) -> (step: Step)
        ensures
            (final(self)@, step@) == old(self)@.spec_transition_toggle(
                device@.address,
                duration as int,
            ),
    {
        let address = device.address();
        self.ask_state(address, Pending::Toggle { device: address, duration: to_millis(duration) })
    }

    /// Switches a light the other way at once.
    pub fn toggle_power(&mut self, device: &Device) -> (step: Step)
        ensures
            (final(self)@, step@) == old(self)@.spec_transition_toggle(device@.address, 0),
    {
        self.transition_toggle(device, 0)
    }

    /// Makes a light as bright as asked over `duration` milliseconds. A light that is
    /// to be dark is switched off. Any other is asked for its state, switched on at
    /// once where it is off, and sent its own colour with the new brightness.
    pub fn transition_brightness(&mut self, device: &Device, brightness: Brightness, duration: i64)
        -> (step: Step)
        ensures
            (final(self)@, step@) == old(self)@.spec_transition_brightness(
                device@.address,
                brightness,
                duration as int,
            ),
    {
        match brightness {
            Brightness::Dark => self.transition_off(device, duration),
            Brightness::Level(level) => {
                let address = device.address();
                self.ask_state(
                    address,
                    Pending::Brightness { device: address, level, duration: to_millis(duration) },
                )
            },
        }
    }

    /// Makes a light as bright as asked at once.
    pub fn set_brightness(&mut self, device: &Device, brightness: Brightness) -> (step: Step)
        ensures
            (final(self)@, step@) == old(self)@.spec_transition_brightness(
                device@.address,
                brightness,
                0,
            ),
    {
        self.transition_brightness(device, brightness, 0)
    }

    /// Gives a light a colour over `duration` milliseconds.
    pub fn transition_color(&mut self, device: &Device, color: Color, duration: i64) -> (step: Step)
        ensures
            (final(self)@, step@) == old(self)@.spec_transition_color(
                device@.address,
                color,
                duration as int,
            ),
    {
        self.show(device.address(), Hsbk::from(color), to_millis(duration))
    }

    /// Gives a light a colour at once.
    pub fn set_color(&mut self, device: &Device, color: Color) -> (step: Step)
        ensures
            (final(self)@, step@) == old(self)@.spec_transition_color(device@.address, color, 0),
    {
        self.transition_color(device, color, 0)
    }

    /// Gives a light a colour temperature over `duration` milliseconds: the light is
    /// asked for its state and sent its own brightness with hue and saturation zero and
    /// the new temperature.
    pub fn transition_temperature(
        &mut self,
        device: &Device,
        temperature: u16,
        duration: i64,
    ) -> (step: Step)
        ensures
            (final(self)@, step@) == old(self)@.spec_transition_temperature(
                device@.address,
                temperature,
                None,
                duration as int,
            ),
    {
        let address = device.address();
        self.ask_state(
            address,
            Pending::Temperature {
                device: address,
                kelvin: temperature,
                level: None,
                duration: to_millis(duration),
            },
        )
    }

    /// Gives a light a colour temperature at once.
    pub fn set_temperature(&mut self, device: &Device, temperature: u16) -> (step: Step)
        ensures
            (final(self)@, step@) == old(self)@.spec_transition_temperature(
                device@.address,
                temperature,
                None,
                0,
            ),
    {
        self.transition_temperature(device, temperature, 0)
    }

    /// Gives a light a colour temperature and a brightness over `duration`
    /// milliseconds, in one request after its state is known. A light that is to be
    /// dark gets brightness zero.
    pub fn transition_temperature_brightness(
        &mut self,
        device: &Device,
        temperature: u16,
        brightness: Brightness,
        duration: i64,
    ) -> (step: Step)
        ensures
            (final(self)@, step@) == old(self)@.spec_transition_temperature(
                device@.address,
                temperature,
                Some(brightness.spec_level()),
                duration as int,
            ),
    {
        let address = device.address();
        self.ask_state(
            address,
            Pending::Temperature {
                device: address,
                kelvin: temperature,
                level: Some(brightness.level()),
                duration: to_millis(duration),
            },
        )
    }

    /// Gives a light a colour temperature and a brightness at once.
    pub fn set_temperature_brightness(
        &mut self,
        device: &Device,
        temperature: u16,
        brightness: Brightness,
    ) -> (step: Step)
        ensures
            (final(self)@, step@) == old(self)@.spec_transition_temperature(
                device@.address,
                temperature,
                Some(brightness.spec_level()),
                0,
            ),
    {
        self.transition_temperature_brightness(device, temperature, brightness, 0)
    }

    /// Goes on after the bytes of a request without answer have gone out.
    fn sent(&mut self, pending: Pending) -> (step: Step)
        requires
            old(self).pending@ is Idle,
        ensures
            (final(self)@, step@) == (ClientView { pending: pending@, ..old(self)@ }).spec_sent(),
    {
        match pending {
            Pending::Sending => self.stop(Step::Done(Outcome::Nothing)),
            Pending::SwitchingOn { device, color, duration } => self.show(device, color, duration),
            _ => self.stop(Step::Failed(Error::NotWaiting)),
        }
    }

    /// Goes on after no datagram came in time.
    fn timed_out(&mut self, pending: Pending) -> (step: Step)
        requires
            old(self).pending@ is Idle,
        ensures
            (final(self)@, step@) == (ClientView {
                pending: pending@,
                ..old(self)@
            }).spec_timed_out(),
    {
        match pending {
            Pending::Collecting { found } => {
                if found.len() == 0 {
                    let devices = self.snapshot();
                    self.stop(Step::Done(Outcome::Devices(devices)))
                } else {
                    let first = found[0];
                    self.find(first, Stage::Label, String::new(), String::new(), found, 1, true)
                }
            },
            _ => self.stop(Step::Failed(Error::Io)),
        }
    }

    /// Goes on after the state of a light is known.
    fn state_known(&mut self, pending: Pending, color: Hsbk, power: Power) -> (step: Step)
        requires
            old(self).pending@ is Idle,
        ensures
            forall|state: crate::protocol::message::LightState|
                state.color == color && state.spec_power() == power ==> (final(self)@, step@) == (
                    ClientView { pending: pending@, ..old(self)@ }).spec_state_known(state),
    {
        match pending {
            Pending::Color => self.stop(Step::Done(Outcome::Color(Color::from(color)))),
            Pending::Toggle { device, duration } => {
                let next = match power {
                    Power::Off => Power::On(0xffff),
                    Power::On(_) => Power::Off,
                };
                self.switch(device, next, duration, Pending::Sending)
            },
            Pending::Brightness { device, level, duration } => {
                let color = color.with_brightness(level);
                match power {
                    Power::Off => self.switch(
                        device,
                        Power::On(0xffff),
                        0,
                        Pending::SwitchingOn { device, color, duration },
                    ),
                    Power::On(_) => self.show(device, color, duration),
                }
            },
            Pending::Temperature { device, kelvin, level, duration } => {
                let color = color.with_hue(0).with_saturation(0).with_kelvin(kelvin);
                let color = match level {
                    Some(level) => color.with_brightness(level),
                    None => color,
                };
                self.show(device, color, duration)
            },
            _ => self.stop(Step::Failed(Error::NotWaiting)),
        }
    }

    /// Goes on after one of the three names of a device is known.
    fn name_known(&mut self, pending: Pending, name: String) -> (step: Step)
        requires
            old(self).pending@ is Idle,
        ensures
            (final(self)@, step@) == (ClientView {
                pending: pending@,
                ..old(self)@
            }).spec_name_known(name@),
    {
        match pending {
            Pending::Finding { address, stage, label, group, queue, next, discovering } => {
                match stage {
                    Stage::Label => self.find(
                        address,
                        Stage::Group,
                        name,
                        group,
                        queue,
                        next,
                        discovering,
                    ),
                    Stage::Group => self.find(
                        address,
                        Stage::Location,
                        label,
                        name,
                        queue,
                        next,
                        discovering,
                    ),
                    Stage::Location => {
                        let device = Device::new(address, label, group, name);
                        self.remember(device.clone());
                        if !discovering {
                            self.stop(Step::Done(Outcome::Device(device)))
                        } else if next < queue.len() {
                            let following = queue[next];
                            self.find(
                                following,
                                Stage::Label,
                                String::new(),
                                String::new(),
                                queue,
                                next + 1,
                                true,
                            )
                        } else {
                            let devices = self.snapshot();
                            self.stop(Step::Done(Outcome::Devices(devices)))
                        }
                    },
                }
            },
            _ => self.stop(Step::Failed(Error::NotWaiting)),
        }
    }

    /// Goes on after a datagram came.
    fn received(&mut self, pending: Pending, from: SocketEndpoint, bytes: Vec<u8>) -> (step: Step)
        requires
            old(self).pending@ is Idle,
        ensures
            (final(self)@, step@) == (ClientView { pending: pending@, ..old(self)@ }).spec_received(
                from,
                bytes@,
            ),
    {
        match pending {
            Pending::Acknowledging => match read_reply(bytes.as_slice()) {
                Ok(_) => self.stop(Step::Done(Outcome::Nothing)),
                Err(error) => self.stop(Step::Failed(error)),
            },
            Pending::Color
            | Pending::Toggle { .. }
            | Pending::Brightness { .. }
            | Pending::Temperature { .. } => match read_state(bytes.as_slice()) {
                Ok(state) => {
                    let color = state.color();
                    let power = state.power();
                    self.state_known(pending, color, power)
                },
                Err(error) => self.stop(Step::Failed(error)),
            },
            Pending::Collecting { found } => match read_device_address(bytes.as_slice(), from) {
                Ok(address) => {
                    let mut found = found;
                    insert_address(&mut found, address);
                    proof {
                        use_type_invariant(&*self);
                    }
                    self.pending = Pending::Collecting { found };
                    Step::Listen
                },
                Err(error) => self.stop(Step::Failed(error)),
            },
            Pending::Finding { address, stage, label, group, queue, next, discovering } => {
                let name = match stage {
                    Stage::Label => match read_label(bytes.as_slice()) {
                        Ok(payload) => Ok(trim_trailing_null(payload.label)),
                        Err(error) => Err(error),
                    },
                    Stage::Group => match read_group(bytes.as_slice()) {
                        Ok(payload) => Ok(trim_trailing_null(payload.label)),
                        Err(error) => Err(error),
                    },
                    Stage::Location => match read_location(bytes.as_slice()) {
                        Ok(payload) => Ok(trim_trailing_null(payload.label)),
                        Err(error) => Err(error),
                    },
                };
                match name {
                    Ok(name) => self.name_known(
                        Pending::Finding { address, stage, label, group, queue, next, discovering },
                        name,
                    ),
                    Err(error) => self.stop(Step::Failed(error)),
                }
            },
            _ => self.stop(Step::Failed(Error::NotWaiting)),
        }
    }

    /// Goes on after an event: hands back the next step of the operation under way.
    /// While no operation is under way the step is a failure and nothing changes.
    pub fn resume(&mut self, event: Event) -> (step: Step)
        ensures
            (final(self)@, step@) == old(self)@.spec_resume(event@),
    {
        proof {
            use_type_invariant(&*self);
        }
        let mut pending = Pending::Idle;
        core::mem::swap(&mut pending, &mut self.pending);
        match pending {
            Pending::Idle => Step::Failed(Error::NotWaiting),
            _ => match event {
                Event::Failed => Step::Failed(Error::Io),
                Event::Sent => self.sent(pending),
                Event::TimedOut => self.timed_out(pending),
                Event::Received { from, bytes } => self.received(pending, from, bytes),
            },
        }
    }
}

} // verus!
