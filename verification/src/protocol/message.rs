//! Messages and the layout of their payloads.

use crate::error::DecodeError;
use crate::protocol::header::{DeviceMessageType, LightMessageType, MessageType};
use crate::text::string_from_utf8;
use crate::wire::{
    copy_range, from_le16, from_le32, from_le64, get_u16, get_u32, get_u64, le16, le32, le64,
    lemma_le32_round_trip, lemma_le64_round_trip, put_bytes, put_u16, put_u32, put_u64,
    put_zeros, zeros,
};
use vstd::prelude::*;
use vstd::slice::slice_to_vec;
use vstd::utf8::{
    decode_utf8, decode_utf8_encode_utf8, encode_utf8, encode_utf8_decode_utf8,
    encode_utf8_valid_utf8, valid_utf8,
};

verus! {

/// The most bytes a payload can have in a packet whose length fits its size field.
pub const MAX_PAYLOAD_LEN: usize = 65499;

/// The outcome of a decoder, with the decoded value taken by its view.
pub open spec fn decoded<T: View, E>(outcome: Result<T, E>) -> Result<T::V, E> {
    match outcome {
        Ok(value) => Ok(value@),
        Err(error) => Err(error),
    }
}

/// What the bytes of a label mean: the text they encode, if they encode any.
pub open spec fn spec_label_from(bytes: Seq<u8>) -> Result<Seq<char>, DecodeError> {
    if valid_utf8(bytes) {
        Ok(decode_utf8(bytes))
    } else {
        Err(DecodeError::InvalidText)
    }
}

/// Reads `bytes[from..to]` as text. Null padding is kept.
pub fn label_from(bytes: &[u8], from: usize, to: usize) -> (label: Result<String, DecodeError>)
    requires
        from <= to <= bytes@.len(),
    ensures
        decoded(label) == spec_label_from(bytes@.subrange(from as int, to as int)),
{
    let raw = copy_range(bytes, from, to);
    match string_from_utf8(raw) {
        Some(label) => {
            proof {
                encode_utf8_decode_utf8(label@);
            }
            Ok(label)
        },
        None => Err(DecodeError::InvalidText),
    }
}

/// Appends the bytes of `label` to `out`.
pub fn put_label(out: &mut Vec<u8>, label: &String)
    ensures
        final(out)@ == old(out)@ + encode_utf8(label@),
{
    put_bytes(out, label.as_str().as_bytes());
}

/// A label is read back from its bytes as it was.
pub proof fn lemma_label_round_trip(label: Seq<char>)
    ensures
        spec_label_from(encode_utf8(label)) == Ok::<Seq<char>, DecodeError>(label),
{
    encode_utf8_valid_utf8(label);
    encode_utf8_decode_utf8(label);
}

/// Whether a light is on, and how far.
#[derive(Debug, Copy, Clone, PartialEq, Eq, Structural, Hash)]
pub enum Power {
    Off,
    /// On, with the level that the device reports or is asked for. Devices name 0xffff,
    /// but other levels above zero are seen too.
    On(u16),
}

impl Power {
    /// `On` never carries the level that means off.
    pub open spec fn wf(self) -> bool {
        self != Power::On(0)
    }

    /// The level on the wire: zero for off.
    pub open spec fn spec_level(self) -> u16 {
        match self {
            Power::Off => 0,
            Power::On(level) => level,
        }
    }

    /// What a level on the wire means: zero is off, every other level is on.
    pub open spec fn spec_from_level(level: u16) -> Power {
        if level == 0 {
            Power::Off
        } else {
            Power::On(level)
        }
    }

    pub fn level(&self) -> (level: u16)
        ensures
            level == self.spec_level(),
    {
        match self {
            Power::Off => 0,
            Power::On(level) => *level,
        }
    }

    pub fn from_level(level: u16) -> (power: Power)
        ensures
            power == Power::spec_from_level(level),
            power.wf(),
            power is Off <==> level == 0,
    {
        match level {
            0 => Power::Off,
            n => Power::On(n),
        }
    }
}

/// A level is read as on exactly when it is not zero, and a well-formed power is found
/// again from its level.
pub proof fn lemma_power_levels(level: u16, power: Power)
    ensures
        Power::spec_from_level(level).wf(),
        Power::spec_from_level(level).spec_level() == level,
        level != 0 <==> Power::spec_from_level(level) == Power::On(level),
        power.wf() ==> Power::spec_from_level(power.spec_level()) == power,
{
}

/// A colour as devices hold it: hue, saturation, brightness and colour temperature.
#[derive(Debug, Copy, Clone, PartialEq, Eq, Structural, Hash)]
pub struct Hsbk {
    pub hue: u16,
    pub saturation: u16,
    pub brightness: u16,
    pub kelvin: u16,
}

impl Hsbk {
    /// The eight bytes of the colour: the four fields in order.
    pub open spec fn spec_bytes(self) -> Seq<u8> {
        le16(self.hue) + le16(self.saturation) + le16(self.brightness) + le16(self.kelvin)
    }

    /// What eight bytes mean as a colour.
    pub open spec fn spec_from(bytes: Seq<u8>) -> Result<Hsbk, DecodeError> {
        if bytes.len() != 8 {
            Err(DecodeError::PayloadSize)
        } else {
            Ok(
                Hsbk {
                    hue: from_le16(bytes.subrange(0, 2)),
                    saturation: from_le16(bytes.subrange(2, 4)),
                    brightness: from_le16(bytes.subrange(4, 6)),
                    kelvin: from_le16(bytes.subrange(6, 8)),
                },
            )
        }
    }

    pub fn new(hue: u16, saturation: u16, brightness: u16, kelvin: u16) -> (hsbk: Hsbk)
        ensures
            hsbk == (Hsbk { hue, saturation, brightness, kelvin }),
    {
        Hsbk { hue, saturation, brightness, kelvin }
    }

    pub fn hue(&self) -> (hue: u16)
        ensures
            hue == self.hue,
    {
        self.hue
    }

    pub fn saturation(&self) -> (saturation: u16)
        ensures
            saturation == self.saturation,
    {
        self.saturation
    }

    pub fn brightness(&self) -> (brightness: u16)
        ensures
            brightness == self.brightness,
    {
        self.brightness
    }

    pub fn kelvin(&self) -> (kelvin: u16)
        ensures
            kelvin == self.kelvin,
    {
        self.kelvin
    }

    pub fn with_hue(&self, hue: u16) -> (hsbk: Hsbk)
        ensures
            hsbk == (Hsbk { hue, ..*self }),
    {
        Hsbk { hue, saturation: self.saturation, brightness: self.brightness, kelvin: self.kelvin }
    }

    pub fn with_saturation(&self, saturation: u16) -> (hsbk: Hsbk)
        ensures
            hsbk == (Hsbk { saturation, ..*self }),
    {
        Hsbk { hue: self.hue, saturation, brightness: self.brightness, kelvin: self.kelvin }
    }

    pub fn with_brightness(&self, brightness: u16) -> (hsbk: Hsbk)
        ensures
            hsbk == (Hsbk { brightness, ..*self }),
    {
        Hsbk { hue: self.hue, saturation: self.saturation, brightness, kelvin: self.kelvin }
    }

    pub fn with_kelvin(&self, kelvin: u16) -> (hsbk: Hsbk)
        ensures
            hsbk == (Hsbk { kelvin, ..*self }),
    {
        Hsbk { hue: self.hue, saturation: self.saturation, brightness: self.brightness, kelvin }
    }

    pub fn as_bytes(&self) -> (bytes: Vec<u8>)
        ensures
            bytes@ == self.spec_bytes(),
    {
        let mut bytes: Vec<u8> = Vec::new();
        put_u16(&mut bytes, self.hue);
        put_u16(&mut bytes, self.saturation);
        put_u16(&mut bytes, self.brightness);
        put_u16(&mut bytes, self.kelvin);
        assert(bytes@ =~= self.spec_bytes());
        bytes
    }

    /// Reads a colour from exactly eight bytes.
    pub fn from_bytes(bytes: &[u8]) -> (hsbk: Result<Hsbk, DecodeError>)
        ensures
            hsbk == Hsbk::spec_from(bytes@),
    {
        if bytes.len() != 8 {
            return Err(DecodeError::PayloadSize);
        }
        Ok(
            Hsbk {
                hue: get_u16(bytes, 0),
                saturation: get_u16(bytes, 2),
                brightness: get_u16(bytes, 4),
                kelvin: get_u16(bytes, 6),
            },
        )
    }
}

/// A colour takes eight bytes and is read back from them as it was.
pub proof fn lemma_hsbk_round_trip(hsbk: Hsbk)
    ensures
        hsbk.spec_bytes().len() == 8,
        Hsbk::spec_from(hsbk.spec_bytes()) == Ok::<Hsbk, DecodeError>(hsbk),
{
    let b = hsbk.spec_bytes();
    assert(b.subrange(0, 2) =~= le16(hsbk.hue));
    assert(b.subrange(2, 4) =~= le16(hsbk.saturation));
    assert(b.subrange(4, 6) =~= le16(hsbk.brightness));
    assert(b.subrange(6, 8) =~= le16(hsbk.kelvin));
}

/// The payload of a StateService message.
#[derive(Debug, Copy, Clone, PartialEq, Eq, Structural, Hash)]
pub struct StateServicePayload {
    pub service: u8,
    pub port: u16,
}

impl StateServicePayload {
    /// The five bytes of the payload: the service, then the port in four bytes.
    pub open spec fn spec_bytes(self) -> Seq<u8> {
        seq![self.service] + le32(self.port as u32)
    }

    /// What five bytes mean as a service announcement.
    pub open spec fn spec_from(bytes: Seq<u8>) -> Result<StateServicePayload, DecodeError> {
        let port = from_le32(bytes.subrange(1, 5));
        if bytes.len() != 5 {
            Err(DecodeError::PayloadSize)
        } else if port > 0xffff {
            Err(DecodeError::PortOutOfRange)
        } else {
            Ok(StateServicePayload { service: bytes[0], port: port as u16 })
        }
    }

    pub fn port(&self) -> (port: u16)
        ensures
            port == self.port,
    {
        self.port
    }

    pub fn as_bytes(&self) -> (bytes: Vec<u8>)
        ensures
            bytes@ == self.spec_bytes(),
    {
        let mut bytes: Vec<u8> = Vec::new();
        bytes.push(self.service);
        put_u32(&mut bytes, self.port as u32);
        bytes
    }

    pub fn from_bytes(bytes: &[u8]) -> (payload: Result<StateServicePayload, DecodeError>)
        ensures
            payload == StateServicePayload::spec_from(bytes@),
    {
        if bytes.len() != 5 {
            return Err(DecodeError::PayloadSize);
        }
        let service: u8 = bytes[0];
        let port: u32 = get_u32(bytes, 1);
        if port > 0xffff {
            return Err(DecodeError::PortOutOfRange);
        }
        Ok(StateServicePayload { service, port: port as u16 })
    }
}

/// A service announcement takes five bytes and is read back from them as it was.
pub proof fn lemma_state_service_round_trip(payload: StateServicePayload)
    ensures
        payload.spec_bytes().len() == 5,
        StateServicePayload::spec_from(payload.spec_bytes()) == Ok::<
            StateServicePayload,
            DecodeError,
        >(payload),
{
    let b = payload.spec_bytes();
    assert(b.subrange(1, 5) =~= le32(payload.port as u32));
    lemma_le32_round_trip(payload.port as u32);
}

/// The payload of a StateLabel message.
#[derive(Debug, Clone)]
pub struct StateLabelPayload {
    /// The label as it came, null padding included.
    pub label: String,
}

impl View for StateLabelPayload {
    type V = Seq<char>;

    open spec fn view(&self) -> Seq<char> {
        self.label@
    }
}

impl StateLabelPayload {
    /// The label fills its 32 bytes.
    pub open spec fn wf(label: Seq<char>) -> bool {
        encode_utf8(label).len() == 32
    }

    /// The bytes of the payload: those of the label.
    pub open spec fn spec_bytes(label: Seq<char>) -> Seq<u8> {
        encode_utf8(label)
    }

    /// What 32 bytes mean as a label.
    pub open spec fn spec_from(bytes: Seq<u8>) -> Result<Seq<char>, DecodeError> {
        if bytes.len() != 32 {
            Err(DecodeError::PayloadSize)
        } else {
            spec_label_from(bytes)
        }
    }

    pub fn as_bytes(&self) -> (bytes: Vec<u8>)
        ensures
            bytes@ == StateLabelPayload::spec_bytes(self@),
    {
        let mut bytes: Vec<u8> = Vec::new();
        put_label(&mut bytes, &self.label);
        bytes
    }

    pub fn from_bytes(bytes: &[u8]) -> (payload: Result<StateLabelPayload, DecodeError>)
        ensures
            decoded(payload) == StateLabelPayload::spec_from(bytes@),
            payload is Ok ==> StateLabelPayload::wf(payload->Ok_0@),
    {
        if bytes.len() != 32 {
            return Err(DecodeError::PayloadSize);
        }
        assert(bytes@.subrange(0, 32) =~= bytes@);
        match label_from(bytes, 0, 32) {
            Ok(label) => {
                proof {
                    decode_utf8_encode_utf8(bytes@);
                }
                Ok(StateLabelPayload { label })
            },
            Err(error) => Err(error),
        }
    }
}

/// A sixteen-byte identifier with its label and the time of its last change: what a
/// StateLocation or a StateGroup message carries.
pub ghost struct Labelled {
    pub id: Seq<u8>,
    pub label: Seq<char>,
    pub updated_at: u64,
}

impl Labelled {
    /// The identifier has sixteen bytes and the label fills its 32.
    pub open spec fn wf(self) -> bool {
        self.id.len() == 16 && encode_utf8(self.label).len() == 32
    }

    /// The 56 bytes of the payload: identifier, label, time.
    pub open spec fn spec_bytes(self) -> Seq<u8> {
        self.id + encode_utf8(self.label) + le64(self.updated_at)
    }

    /// What 56 bytes mean as an identifier with its label.
    pub open spec fn spec_from(bytes: Seq<u8>) -> Result<Labelled, DecodeError> {
        if bytes.len() != 56 {
            Err(DecodeError::PayloadSize)
        } else {
            match spec_label_from(bytes.subrange(16, 48)) {
                Ok(label) => Ok(
                    Labelled {
                        id: bytes.subrange(0, 16),
                        label,
                        updated_at: from_le64(bytes.subrange(48, 56)),
                    },
                ),
                Err(error) => Err(error),
            }
        }
    }
}

/// An identifier with its label is read back from its bytes as it was.
pub proof fn lemma_labelled_round_trip(labelled: Labelled)
    requires
        labelled.wf(),
    ensures
        labelled.spec_bytes().len() == 56,
        Labelled::spec_from(labelled.spec_bytes()) == Ok::<Labelled, DecodeError>(labelled),
{
    let b = labelled.spec_bytes();
    lemma_le64_round_trip(labelled.updated_at);
    lemma_label_round_trip(labelled.label);
    assert(b.subrange(0, 16) =~= labelled.id);
    assert(b.subrange(16, 48) =~= encode_utf8(labelled.label));
    assert(b.subrange(48, 56) =~= le64(labelled.updated_at));
}

/// Copies sixteen bytes that start at `at`.
fn id_from(bytes: &[u8], at: usize) -> (id: [u8; 16])
    requires
        at + 16 <= bytes@.len(),
    ensures
        id@ == bytes@.subrange(at as int, at + 16),
{
    assert(bytes@.len() == bytes.len());
    let id: [u8; 16] = [
        bytes[at],
        bytes[at + 1],
        bytes[at + 2],
        bytes[at + 3],
        bytes[at + 4],
        bytes[at + 5],
        bytes[at + 6],
        bytes[at + 7],
        bytes[at + 8],
        bytes[at + 9],
        bytes[at + 10],
        bytes[at + 11],
        bytes[at + 12],
        bytes[at + 13],
        bytes[at + 14],
        bytes[at + 15],
    ];
    assert(id@ =~= bytes@.subrange(at as int, at + 16));
    id
}

/// Appends the sixteen bytes of `id` to `out`.
fn put_id(out: &mut Vec<u8>, id: &[u8; 16])
    ensures
        final(out)@ == old(out)@ + id@,
{
    let mut i: usize = 0;
    while i < 16
        invariant
            i <= 16,
            out@ == old(out)@ + id@.subrange(0, i as int),
        decreases 16 - i,
    {
        out.push(id[i]);
        i = i + 1;
        assert(out@ =~= old(out)@ + id@.subrange(0, i as int));
    }
    assert(id@.subrange(0, 16) =~= id@);
}

/// The payload of a StateLocation message.
#[derive(Debug, Clone)]
pub struct StateLocationPayload {
    pub location: [u8; 16],
    /// The label as it came, null padding included.
    pub label: String,
    pub updated_at: u64,
}

impl View for StateLocationPayload {
    type V = Labelled;

    open spec fn view(&self) -> Labelled {
        Labelled { id: self.location@, label: self.label@, updated_at: self.updated_at }
    }
}

impl StateLocationPayload {
    pub fn as_bytes(&self) -> (bytes: Vec<u8>)
        ensures
            bytes@ == self@.spec_bytes(),
    {
        let mut bytes: Vec<u8> = Vec::new();
        put_id(&mut bytes, &self.location);
        put_label(&mut bytes, &self.label);
        put_u64(&mut bytes, self.updated_at);
        assert(bytes@ =~= self@.spec_bytes());
        bytes
    }

    pub fn from_bytes(bytes: &[u8]) -> (payload: Result<StateLocationPayload, DecodeError>)
        ensures
            decoded(payload) == Labelled::spec_from(bytes@),
            payload is Ok ==> payload->Ok_0@.wf(),
    {
        if bytes.len() != 56 {
            return Err(DecodeError::PayloadSize);
        }
        let location = id_from(bytes, 0);
        match label_from(bytes, 16, 48) {
            Ok(label) => {
                proof {
                    decode_utf8_encode_utf8(bytes@.subrange(16, 48));
                }
                Ok(StateLocationPayload { location, label, updated_at: get_u64(bytes, 48) })
            },
            Err(error) => Err(error),
        }
    }
}

/// The payload of a StateGroup message.
#[derive(Debug, Clone)]
pub struct StateGroupPayload {
    pub group: [u8; 16],
    /// The label as it came, null padding included.
    pub label: String,
    pub updated_at: u64,
}

impl View for StateGroupPayload {
    type V = Labelled;

    open spec fn view(&self) -> Labelled {
        Labelled { id: self.group@, label: self.label@, updated_at: self.updated_at }
    }
}

impl StateGroupPayload {
    pub fn as_bytes(&self) -> (bytes: Vec<u8>)
        ensures
            bytes@ == self@.spec_bytes(),
    {
        let mut bytes: Vec<u8> = Vec::new();
        put_id(&mut bytes, &self.group);
        put_label(&mut bytes, &self.label);
        put_u64(&mut bytes, self.updated_at);
        assert(bytes@ =~= self@.spec_bytes());
        bytes
    }

    pub fn from_bytes(bytes: &[u8]) -> (payload: Result<StateGroupPayload, DecodeError>)
        ensures
            decoded(payload) == Labelled::spec_from(bytes@),
            payload is Ok ==> payload->Ok_0@.wf(),
    {
        if bytes.len() != 56 {
            return Err(DecodeError::PayloadSize);
        }
        let group = id_from(bytes, 0);
        match label_from(bytes, 16, 48) {
            Ok(label) => {
                proof {
                    decode_utf8_encode_utf8(bytes@.subrange(16, 48));
                }
                Ok(StateGroupPayload { group, label, updated_at: get_u64(bytes, 48) })
            },
            Err(error) => Err(error),
        }
    }
}

/// What a light reports of itself, as a value of the model.
pub ghost struct LightState {
    pub color: Hsbk,
    pub power: u16,
    pub label: Seq<char>,
}

impl LightState {
    /// The label fills its 32 bytes.
    pub open spec fn wf(self) -> bool {
        encode_utf8(self.label).len() == 32
    }

    /// The 52 bytes of the payload: colour, two zero bytes, power level, label, eight
    /// zero bytes.
    pub open spec fn spec_bytes(self) -> Seq<u8> {
        self.color.spec_bytes() + zeros(2) + le16(self.power) + encode_utf8(self.label) + zeros(8)
    }

    /// What 52 bytes mean as the state of a light. Bytes 8, 9 and 44 to 51 are not
    /// looked at.
    pub open spec fn spec_from(bytes: Seq<u8>) -> Result<LightState, DecodeError> {
        if bytes.len() != 52 {
            Err(DecodeError::PayloadSize)
        } else {
            match spec_label_from(bytes.subrange(12, 44)) {
                Ok(label) => Ok(
                    LightState {
                        color: Hsbk::spec_from(bytes.subrange(0, 8))->Ok_0,
                        power: from_le16(bytes.subrange(10, 12)),
                        label,
                    },
                ),
                Err(error) => Err(error),
            }
        }
    }

    /// Whether the light is on.
    pub open spec fn spec_power(self) -> Power {
        Power::spec_from_level(self.power)
    }
}

/// The state of a light is read back from its bytes as it was.
pub proof fn lemma_light_state_round_trip(state: LightState)
    requires
        state.wf(),
    ensures
        state.spec_bytes().len() == 52,
        LightState::spec_from(state.spec_bytes()) == Ok::<LightState, DecodeError>(state),
{
    let b = state.spec_bytes();
    lemma_hsbk_round_trip(state.color);
    lemma_label_round_trip(state.label);
    assert(b.subrange(0, 8) =~= state.color.spec_bytes());
    assert(b.subrange(10, 12) =~= le16(state.power));
    assert(b.subrange(12, 44) =~= encode_utf8(state.label));
}

/// The payload of a light's State message.
#[derive(Debug, Clone)]
pub struct StatePayload {
    pub color: Hsbk,
    pub power: u16,
    /// The label as it came, null padding included.
    pub label: String,
}

impl View for StatePayload {
    type V = LightState;

    open spec fn view(&self) -> LightState {
        LightState { color: self.color, power: self.power, label: self.label@ }
    }
}

impl StatePayload {
    pub fn color(&self) -> (color: Hsbk)
        ensures
            color == self.color,
    {
        self.color
    }

    /// Whether the light is on: every level but zero means on.
    pub fn power(&self) -> (power: Power)
        ensures
            power == self@.spec_power(),
            power.wf(),
    {
        Power::from_level(self.power)
    }

    pub fn as_bytes(&self) -> (bytes: Vec<u8>)
        ensures
            bytes@ == self@.spec_bytes(),
    {
        let mut bytes: Vec<u8> = self.color.as_bytes();
        put_zeros(&mut bytes, 2);
        put_u16(&mut bytes, self.power);
        put_label(&mut bytes, &self.label);
        put_zeros(&mut bytes, 8);
        bytes
    }

    pub fn from_bytes(bytes: &[u8]) -> (payload: Result<StatePayload, DecodeError>)
        ensures
            decoded(payload) == LightState::spec_from(bytes@),
            payload is Ok ==> payload->Ok_0@.wf(),
    {
        if bytes.len() != 52 {
            return Err(DecodeError::PayloadSize);
        }
        let color = Hsbk {
            hue: get_u16(bytes, 0),
            saturation: get_u16(bytes, 2),
            brightness: get_u16(bytes, 4),
            kelvin: get_u16(bytes, 6),
        };
        proof {
            let head = bytes@.subrange(0, 8);
            assert(head.subrange(0, 2) =~= bytes@.subrange(0, 2));
            assert(head.subrange(2, 4) =~= bytes@.subrange(2, 4));
            assert(head.subrange(4, 6) =~= bytes@.subrange(4, 6));
            assert(head.subrange(6, 8) =~= bytes@.subrange(6, 8));
        }
        let power: u16 = get_u16(bytes, 10);
        match label_from(bytes, 12, 44) {
            Ok(label) => {
                proof {
                    decode_utf8_encode_utf8(bytes@.subrange(12, 44));
                }
                Ok(StatePayload { color, power, label })
            },
            Err(error) => Err(error),
        }
    }
}

/// The payload of a SetColor message.
#[derive(Debug, Copy, Clone, PartialEq, Eq, Structural, Hash)]
pub struct SetColorPayload {
    pub color: Hsbk,
    /// Duration of the transition in milliseconds.
    pub duration: u32,
}

impl SetColorPayload {
    /// The thirteen bytes of the payload: a zero byte, the colour, the duration.
    pub open spec fn spec_bytes(self) -> Seq<u8> {
        zeros(1) + self.color.spec_bytes() + le32(self.duration)
    }

    /// What thirteen bytes mean as a request for a colour. The first byte is not looked
    /// at.
    pub open spec fn spec_from(bytes: Seq<u8>) -> Result<SetColorPayload, DecodeError> {
        if bytes.len() != 13 {
            Err(DecodeError::PayloadSize)
        } else {
            Ok(
                SetColorPayload {
                    color: Hsbk::spec_from(bytes.subrange(1, 9))->Ok_0,
                    duration: from_le32(bytes.subrange(9, 13)),
                },
            )
        }
    }

    pub fn new(color: Hsbk, duration: u32) -> (payload: SetColorPayload)
        ensures
            payload == (SetColorPayload { color, duration }),
    {
        SetColorPayload { color, duration }
    }

    pub fn as_bytes(&self) -> (bytes: Vec<u8>)
        ensures
            bytes@ == self.spec_bytes(),
    {
        let mut bytes: Vec<u8> = Vec::new();
        put_zeros(&mut bytes, 1);
        put_u16(&mut bytes, self.color.hue);
        put_u16(&mut bytes, self.color.saturation);
        put_u16(&mut bytes, self.color.brightness);
        put_u16(&mut bytes, self.color.kelvin);
        put_u32(&mut bytes, self.duration);
        assert(bytes@ =~= self.spec_bytes());
        bytes
    }

    pub fn from_bytes(bytes: &[u8]) -> (payload: Result<SetColorPayload, DecodeError>)
        ensures
            payload == SetColorPayload::spec_from(bytes@),
    {
        if bytes.len() != 13 {
            return Err(DecodeError::PayloadSize);
        }
        let color = Hsbk {
            hue: get_u16(bytes, 1),
            saturation: get_u16(bytes, 3),
            brightness: get_u16(bytes, 5),
            kelvin: get_u16(bytes, 7),
        };
        proof {
            let head = bytes@.subrange(1, 9);
            assert(head.subrange(0, 2) =~= bytes@.subrange(1, 3));
            assert(head.subrange(2, 4) =~= bytes@.subrange(3, 5));
            assert(head.subrange(4, 6) =~= bytes@.subrange(5, 7));
            assert(head.subrange(6, 8) =~= bytes@.subrange(7, 9));
        }
        Ok(SetColorPayload { color, duration: get_u32(bytes, 9) })
    }
}

/// A request for a colour takes thirteen bytes and is read back from them as it was.
pub proof fn lemma_set_color_round_trip(payload: SetColorPayload)
    ensures
        payload.spec_bytes().len() == 13,
        SetColorPayload::spec_from(payload.spec_bytes()) == Ok::<SetColorPayload, DecodeError>(
            payload,
        ),
{
    let b = payload.spec_bytes();
    lemma_hsbk_round_trip(payload.color);
    lemma_le32_round_trip(payload.duration);
    assert(b.subrange(1, 9) =~= payload.color.spec_bytes());
    assert(b.subrange(9, 13) =~= le32(payload.duration));
}

/// The payload of a light's SetPower message.
#[derive(Debug, Copy, Clone, PartialEq, Eq, Structural, Hash)]
pub struct SetPowerPayload {
    pub power: Power,
    /// Duration of the transition in milliseconds.
    pub duration: u32,
}

impl SetPowerPayload {
    pub open spec fn wf(self) -> bool {
        self.power.wf()
    }

    /// The six bytes of the payload: the level, the duration.
    pub open spec fn spec_bytes(self) -> Seq<u8> {
        le16(self.power.spec_level()) + le32(self.duration)
    }

    /// What six bytes mean as a request to switch.
    pub open spec fn spec_from(bytes: Seq<u8>) -> Result<SetPowerPayload, DecodeError> {
        if bytes.len() != 6 {
            Err(DecodeError::PayloadSize)
        } else {
            Ok(
                SetPowerPayload {
                    power: Power::spec_from_level(from_le16(bytes.subrange(0, 2))),
                    duration: from_le32(bytes.subrange(2, 6)),
                },
            )
        }
    }

    pub fn new(power: Power, duration: u32) -> (payload: SetPowerPayload)
        ensures
            payload == (SetPowerPayload { power, duration }),
    {
        SetPowerPayload { power, duration }
    }

    pub fn as_bytes(&self) -> (bytes: Vec<u8>)
        ensures
            bytes@ == self.spec_bytes(),
    {
        let mut bytes: Vec<u8> = Vec::new();
        put_u16(&mut bytes, self.power.level());
        put_u32(&mut bytes, self.duration);
        bytes
    }

    pub fn from_bytes(bytes: &[u8]) -> (payload: Result<SetPowerPayload, DecodeError>)
        ensures
            payload == SetPowerPayload::spec_from(bytes@),
            payload is Ok ==> payload->Ok_0.wf(),
    {
        if bytes.len() != 6 {
            return Err(DecodeError::PayloadSize);
        }
        Ok(
            SetPowerPayload {
                power: Power::from_level(get_u16(bytes, 0)),
                duration: get_u32(bytes, 2),
            },
        )
    }
}

/// A well-formed request to switch takes six bytes and is read back from them as it was.
pub proof fn lemma_set_power_round_trip(payload: SetPowerPayload)
    requires
        payload.wf(),
    ensures
        payload.spec_bytes().len() == 6,
        SetPowerPayload::spec_from(payload.spec_bytes()) == Ok::<SetPowerPayload, DecodeError>(
            payload,
        ),
{
    let b = payload.spec_bytes();
    lemma_le32_round_trip(payload.duration);
    assert(b.subrange(0, 2) =~= le16(payload.power.spec_level()));
    assert(b.subrange(2, 6) =~= le32(payload.duration));
}

/// A message: its kind and what it carries.
#[derive(Debug, Clone)]
pub enum Message {
    /// A message of the given kind without a payload.
    Empty(MessageType),
    /// A message of a kind whose payload this library does not take apart.
    Bytes(MessageType, Vec<u8>),
    StateService(StateServicePayload),
    StateLabel(StateLabelPayload),
    StateGroup(StateGroupPayload),
    StateLocation(StateLocationPayload),
    State(StatePayload),
    SetColor(SetColorPayload),
    SetPower(SetPowerPayload),
}

/// A message as a value of the model.
pub ghost enum MessageView {
    Empty(MessageType),
    Bytes(MessageType, Seq<u8>),
    StateService(StateServicePayload),
    StateLabel(Seq<char>),
    StateGroup(Labelled),
    StateLocation(Labelled),
    State(LightState),
    SetColor(SetColorPayload),
    SetPower(SetPowerPayload),
}

impl View for Message {
    type V = MessageView;

    open spec fn view(&self) -> MessageView {
        match self {
            Message::Empty(message_type) => MessageView::Empty(*message_type),
            Message::Bytes(message_type, bytes) => MessageView::Bytes(*message_type, bytes@),
            Message::StateService(payload) => MessageView::StateService(*payload),
            Message::StateLabel(payload) => MessageView::StateLabel(payload@),
            Message::StateGroup(payload) => MessageView::StateGroup(payload@),
            Message::StateLocation(payload) => MessageView::StateLocation(payload@),
            Message::State(payload) => MessageView::State(payload@),
            Message::SetColor(payload) => MessageView::SetColor(*payload),
            Message::SetPower(payload) => MessageView::SetPower(*payload),
        }
    }
}

/// Whether messages of this kind have a payload that is taken apart.
pub open spec fn is_typed(message_type: MessageType) -> bool {
    ||| message_type == MessageType::Device(DeviceMessageType::StateService)
    ||| message_type == MessageType::Device(DeviceMessageType::StateLabel)
    ||| message_type == MessageType::Device(DeviceMessageType::StateGroup)
    ||| message_type == MessageType::Device(DeviceMessageType::StateLocation)
    ||| message_type == MessageType::Light(LightMessageType::State)
    ||| message_type == MessageType::Light(LightMessageType::SetColor)
    ||| message_type == MessageType::Light(LightMessageType::SetPower)
}

/// The length that the payload of a kind with a fixed layout has to have; none for the
/// other kinds.
pub open spec fn spec_layout_len(message_type: MessageType) -> Option<nat> {
    if message_type == MessageType::Device(DeviceMessageType::StateService) {
        Some(5)
    } else if message_type == MessageType::Device(DeviceMessageType::StateLabel) {
        Some(32)
    } else if message_type == MessageType::Device(DeviceMessageType::StateGroup) {
        Some(56)
    } else if message_type == MessageType::Device(DeviceMessageType::StateLocation) {
        Some(56)
    } else if message_type == MessageType::Light(LightMessageType::State) {
        Some(52)
    } else if message_type == MessageType::Light(LightMessageType::SetColor) {
        Some(13)
    } else if message_type == MessageType::Light(LightMessageType::SetPower) {
        Some(6)
    } else {
        None
    }
}

impl MessageView {
    /// The kind of the message.
    pub open spec fn spec_message_type(self) -> MessageType {
        match self {
            MessageView::Empty(message_type) => message_type,
            MessageView::Bytes(message_type, _) => message_type,
            MessageView::StateService(_) => MessageType::Device(DeviceMessageType::StateService),
            MessageView::StateLabel(_) => MessageType::Device(DeviceMessageType::StateLabel),
            MessageView::StateGroup(_) => MessageType::Device(DeviceMessageType::StateGroup),
            MessageView::StateLocation(_) => MessageType::Device(DeviceMessageType::StateLocation),
            MessageView::State(_) => MessageType::Light(LightMessageType::State),
            MessageView::SetColor(_) => MessageType::Light(LightMessageType::SetColor),
            MessageView::SetPower(_) => MessageType::Light(LightMessageType::SetPower),
        }
    }

    /// The payload of the message on the wire.
    pub open spec fn spec_bytes(self) -> Seq<u8> {
        match self {
            MessageView::Empty(_) => Seq::empty(),
            MessageView::Bytes(_, bytes) => bytes,
            MessageView::StateService(payload) => payload.spec_bytes(),
            MessageView::StateLabel(label) => StateLabelPayload::spec_bytes(label),
            MessageView::StateGroup(payload) => payload.spec_bytes(),
            MessageView::StateLocation(payload) => payload.spec_bytes(),
            MessageView::State(payload) => payload.spec_bytes(),
            MessageView::SetColor(payload) => payload.spec_bytes(),
            MessageView::SetPower(payload) => payload.spec_bytes(),
        }
    }

    /// A message is well formed when it is what reading its own bytes gives: its kind is
    /// well formed; a message without payload and opaque bytes are not of a kind that is
    /// taken apart, and opaque bytes are not empty; a payload that is taken apart has
    /// its fixed length.
    pub open spec fn wf(self) -> bool {
        match self {
            MessageView::Empty(message_type) => message_type.wf() && !is_typed(message_type),
            MessageView::Bytes(message_type, bytes) => message_type.wf() && bytes.len() > 0
                && !is_typed(message_type),
            MessageView::StateService(_) => true,
            MessageView::StateLabel(label) => StateLabelPayload::wf(label),
            MessageView::StateGroup(payload) => payload.wf(),
            MessageView::StateLocation(payload) => payload.wf(),
            MessageView::State(payload) => payload.wf(),
            MessageView::SetColor(_) => true,
            MessageView::SetPower(payload) => payload.wf(),
        }
    }

    /// What the payload of a message of the given kind means. The payload of a kind with
    /// a fixed layout is taken apart, and has to have the length of that layout. Of any
    /// other kind an empty payload is a message without one, and a payload that is not
    /// empty is kept as bytes.
    pub open spec fn spec_from(message_type: MessageType, bytes: Seq<u8>) -> Result<
        MessageView,
        DecodeError,
    > {
        if message_type == MessageType::Device(DeviceMessageType::StateService) {
            match StateServicePayload::spec_from(bytes) {
                Ok(payload) => Ok(MessageView::StateService(payload)),
                Err(error) => Err(error),
            }
        } else if message_type == MessageType::Device(DeviceMessageType::StateLabel) {
            match StateLabelPayload::spec_from(bytes) {
                Ok(payload) => Ok(MessageView::StateLabel(payload)),
                Err(error) => Err(error),
            }
        } else if message_type == MessageType::Device(DeviceMessageType::StateGroup) {
            match Labelled::spec_from(bytes) {
                Ok(payload) => Ok(MessageView::StateGroup(payload)),
                Err(error) => Err(error),
            }
        } else if message_type == MessageType::Device(DeviceMessageType::StateLocation) {
            match Labelled::spec_from(bytes) {
                Ok(payload) => Ok(MessageView::StateLocation(payload)),
                Err(error) => Err(error),
            }
        } else if message_type == MessageType::Light(LightMessageType::State) {
            match LightState::spec_from(bytes) {
                Ok(payload) => Ok(MessageView::State(payload)),
                Err(error) => Err(error),
            }
        } else if message_type == MessageType::Light(LightMessageType::SetColor) {
            match SetColorPayload::spec_from(bytes) {
                Ok(payload) => Ok(MessageView::SetColor(payload)),
                Err(error) => Err(error),
            }
        } else if message_type == MessageType::Light(LightMessageType::SetPower) {
            match SetPowerPayload::spec_from(bytes) {
                Ok(payload) => Ok(MessageView::SetPower(payload)),
                Err(error) => Err(error),
            }
        } else if bytes.len() == 0 {
            Ok(MessageView::Empty(message_type))
        } else {
            Ok(MessageView::Bytes(message_type, bytes))
        }
    }
}

impl Message {
    /// Reads the payload of a message of the given kind.
    pub fn from(message_type: MessageType, bytes: &[u8]) -> (message: Result<Message, DecodeError>)
        ensures
            decoded(message) == MessageView::spec_from(message_type, bytes@),
            message is Ok ==> message->Ok_0@.spec_message_type() == message_type,
            message is Ok && message_type.wf() ==> message->Ok_0@.wf(),
            message is Ok ==> message->Ok_0@.spec_bytes().len() == bytes@.len(),
            spec_layout_len(message_type) is Some && bytes@.len() != spec_layout_len(
                message_type,
            )->0 ==> message is Err && message->Err_0 == DecodeError::PayloadSize,
            spec_layout_len(message_type) is None ==> message is Ok,
    {
        match message_type {
            MessageType::Device(DeviceMessageType::StateService) => {
                match StateServicePayload::from_bytes(bytes) {
                    Ok(payload) => {
                        proof {
                            lemma_state_service_round_trip(payload);
                        }
                        Ok(Message::StateService(payload))
                    },
                    Err(error) => Err(error),
                }
            },
            MessageType::Device(DeviceMessageType::StateLabel) => {
                match StateLabelPayload::from_bytes(bytes) {
                    Ok(payload) => Ok(Message::StateLabel(payload)),
                    Err(error) => Err(error),
                }
            },
            MessageType::Device(DeviceMessageType::StateLocation) => {
                match StateLocationPayload::from_bytes(bytes) {
                    Ok(payload) => {
                        proof {
                            lemma_labelled_round_trip(payload@);
                        }
                        Ok(Message::StateLocation(payload))
                    },
                    Err(error) => Err(error),
                }
            },
            MessageType::Device(DeviceMessageType::StateGroup) => {
                match StateGroupPayload::from_bytes(bytes) {
                    Ok(payload) => {
                        proof {
                            lemma_labelled_round_trip(payload@);
                        }
                        Ok(Message::StateGroup(payload))
                    },
                    Err(error) => Err(error),
                }
            },
            MessageType::Light(LightMessageType::State) => {
                match StatePayload::from_bytes(bytes) {
                    Ok(payload) => {
                        proof {
                            lemma_light_state_round_trip(payload@);
                        }
                        Ok(Message::State(payload))
                    },
                    Err(error) => Err(error),
                }
            },
            MessageType::Light(LightMessageType::SetColor) => {
                match SetColorPayload::from_bytes(bytes) {
                    Ok(payload) => {
                        proof {
                            lemma_set_color_round_trip(payload);
                        }
                        Ok(Message::SetColor(payload))
                    },
                    Err(error) => Err(error),
                }
            },
            MessageType::Light(LightMessageType::SetPower) => {
                match SetPowerPayload::from_bytes(bytes) {
                    Ok(payload) => {
                        proof {
                            lemma_set_power_round_trip(payload);
                        }
                        Ok(Message::SetPower(payload))
                    },
                    Err(error) => Err(error),
                }
            },
            _ => {
                if bytes.len() == 0 {
                    Ok(Message::Empty(message_type))
                } else {
                    Ok(Message::Bytes(message_type, slice_to_vec(bytes)))
                }
            },
        }
    }

    /// The kind of the message.
    pub fn message_type(&self) -> (message_type: MessageType)
        ensures
            message_type == self@.spec_message_type(),
    {
        match self {
            Message::Empty(message_type) => *message_type,
            Message::Bytes(message_type, _) => *message_type,
            Message::StateService(_) => MessageType::Device(DeviceMessageType::StateService),
            Message::StateLabel(_) => MessageType::Device(DeviceMessageType::StateLabel),
            Message::StateLocation(_) => MessageType::Device(DeviceMessageType::StateLocation),
            Message::StateGroup(_) => MessageType::Device(DeviceMessageType::StateGroup),
            Message::State(_) => MessageType::Light(LightMessageType::State),
            Message::SetColor(_) => MessageType::Light(LightMessageType::SetColor),
            Message::SetPower(_) => MessageType::Light(LightMessageType::SetPower),
        }
    }

    /// The payload of the message on the wire.
    pub fn as_bytes(&self) -> (bytes: Vec<u8>)
        ensures
            bytes@ == self@.spec_bytes(),
    {
        match self {
            Message::Empty(_) => Vec::new(),
            Message::Bytes(_, bytes) => slice_to_vec(bytes.as_slice()),
            Message::StateService(payload) => payload.as_bytes(),
            Message::StateLabel(payload) => payload.as_bytes(),
            Message::StateGroup(payload) => payload.as_bytes(),
            Message::StateLocation(payload) => payload.as_bytes(),
            Message::State(payload) => payload.as_bytes(),
            Message::SetColor(payload) => payload.as_bytes(),
            Message::SetPower(payload) => payload.as_bytes(),
        }
    }

    /// The number of bytes that `as_bytes` gives.
    pub fn payload_len(&self) -> (len: usize)
        ensures
            len == self@.spec_bytes().len(),
    {
        match self {
            Message::Empty(_) => 0,
            Message::Bytes(_, bytes) => bytes.len(),
            _ => self.as_bytes().len(),
        }
    }
}

/// The payload of a kind with a fixed layout is read only where it has the length of
/// that layout, an empty payload too; every payload of another kind is read, as a
/// message without payload where it is empty and as bytes where it is not.
pub proof fn lemma_layout_is_strict(message_type: MessageType, bytes: Seq<u8>)
    ensures
        is_typed(message_type) <==> spec_layout_len(message_type) is Some,
        is_typed(message_type) && bytes.len() != spec_layout_len(message_type)->0
            ==> MessageView::spec_from(message_type, bytes) == Err::<MessageView, DecodeError>(
            DecodeError::PayloadSize,
        ),
        is_typed(message_type) && MessageView::spec_from(message_type, bytes) is Ok ==> !(
        MessageView::spec_from(message_type, bytes)->Ok_0 is Empty) && !(MessageView::spec_from(
            message_type,
            bytes,
        )->Ok_0 is Bytes),
        !is_typed(message_type) ==> MessageView::spec_from(message_type, bytes) == Ok::<
            MessageView,
            DecodeError,
        >(
            if bytes.len() == 0 {
                MessageView::Empty(message_type)
            } else {
                MessageView::Bytes(message_type, bytes)
            },
        ),
{
}

/// A well-formed message is read back from its kind and its payload as it was, and the
/// payload of a message whose layout is fixed has the length of that layout.
pub proof fn lemma_message_round_trip(message: MessageView)
    requires
        message.wf(),
    ensures
        MessageView::spec_from(message.spec_message_type(), message.spec_bytes()) == Ok::<
            MessageView,
            DecodeError,
        >(message),
        message.spec_message_type().wf(),
        !(message is Empty) && !(message is Bytes) ==> 5 <= message.spec_bytes().len() <= 56,
{
    match message {
        MessageView::Empty(_) => {},
        MessageView::Bytes(_, _) => {},
        MessageView::StateService(payload) => {
            lemma_state_service_round_trip(payload);
        },
        MessageView::StateLabel(label) => {
            lemma_label_round_trip(label);
        },
        MessageView::StateGroup(payload) => {
            lemma_labelled_round_trip(payload);
        },
        MessageView::StateLocation(payload) => {
            lemma_labelled_round_trip(payload);
        },
        MessageView::State(payload) => {
            lemma_light_state_round_trip(payload);
        },
        MessageView::SetColor(payload) => {
            lemma_set_color_round_trip(payload);
        },
        MessageView::SetPower(payload) => {
            lemma_set_power_round_trip(payload);
        },
    }
}

} // verus!
