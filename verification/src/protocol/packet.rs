//! Whole packets: the header sections and the message together.

use crate::error::DecodeError;
use crate::protocol::header::{
    lemma_broadcast_is_zero, lemma_frame_address_reserved, lemma_frame_address_round_trip,
    lemma_frame_protocol_field,
    lemma_frame_round_trip, lemma_protocol_header_reserved, lemma_protocol_header_round_trip,
    DeviceMessageType, Frame, FrameAddress, LightMessageType, MacAddress, MessageType,
    ProtocolHeader, HEADER_LEN,
};
use crate::protocol::message::{
    decoded, lemma_message_round_trip, Message, MessageView, MAX_PAYLOAD_LEN,
};
use crate::wire::{from_le16, put_bytes, zeros};
use vstd::prelude::*;
use vstd::slice::slice_subrange;

verus! {

/// A packet: the three header sections and the message.
#[derive(Debug, Clone)]
pub struct Packet {
    pub frame: Frame,
    pub frame_address: FrameAddress,
    pub protocol_header: ProtocolHeader,
    pub message: Message,
}

/// A packet as a value of the model.
pub ghost struct PacketView {
    pub frame: Frame,
    pub frame_address: FrameAddress,
    pub protocol_header: ProtocolHeader,
    pub message: MessageView,
}

impl View for Packet {
    type V = PacketView;

    open spec fn view(&self) -> PacketView {
        PacketView {
            frame: self.frame,
            frame_address: self.frame_address,
            protocol_header: self.protocol_header,
            message: self.message@,
        }
    }
}

impl PacketView {
    /// A packet is well formed when its message is, its size field holds its length in
    /// bytes, and its protocol header names the kind of its message.
    pub open spec fn wf(self) -> bool {
        &&& self.message.wf()
        &&& self.frame.size == HEADER_LEN + self.message.spec_bytes().len()
        &&& self.protocol_header.message_type == self.message.spec_message_type()
    }

    /// The bytes of the packet: frame, frame address, a protocol header with the kind of
    /// the message, and the payload.
    pub open spec fn spec_bytes(self) -> Seq<u8> {
        self.frame.spec_bytes() + self.frame_address.spec_bytes() + (ProtocolHeader {
            message_type: self.message.spec_message_type(),
        }).spec_bytes() + self.message.spec_bytes()
    }

    /// What a buffer means as a packet. The buffer holds at least the header, the frame
    /// is sound, the size field covers the header and does not reach past the buffer,
    /// and the bytes from the header's end to the announced size are the payload. Bytes
    /// after the announced size are not looked at.
    pub open spec fn spec_from(bytes: Seq<u8>) -> Result<PacketView, DecodeError> {
        if bytes.len() < HEADER_LEN {
            Err(DecodeError::Truncated)
        } else {
            match Frame::spec_from(bytes.subrange(0, 8)) {
                Err(error) => Err(error),
                Ok(frame) => {
                    if frame.size < HEADER_LEN {
                        Err(DecodeError::BadSize)
                    } else if frame.size > bytes.len() {
                        Err(DecodeError::Truncated)
                    } else {
                        let frame_address = FrameAddress::spec_from(bytes.subrange(8, 24))->Ok_0;
                        let protocol_header = ProtocolHeader::spec_from(
                            bytes.subrange(24, 36),
                        )->Ok_0;
                        match MessageView::spec_from(
                            protocol_header.message_type,
                            bytes.subrange(36, frame.size as int),
                        ) {
                            Err(error) => Err(error),
                            Ok(message) => Ok(
                                PacketView { frame, frame_address, protocol_header, message },
                            ),
                        }
                    }
                },
            }
        }
    }
}

impl Packet {
    /// The bytes of the packet as they go on the wire.
    pub fn as_bytes(&self) -> (bytes: Vec<u8>)
        ensures
            bytes@ == self@.spec_bytes(),
    {
        let mut bytes: Vec<u8> = self.frame.as_bytes();
        let frame_address = self.frame_address.as_bytes();
        put_bytes(&mut bytes, frame_address.as_slice());
        let protocol_header = ProtocolHeader { message_type: self.message.message_type() };
        put_bytes(&mut bytes, protocol_header.as_bytes().as_slice());
        let payload = self.message.as_bytes();
        put_bytes(&mut bytes, payload.as_slice());
        bytes
    }

    pub fn message(&self) -> (message: &Message)
        ensures
            message == self.message,
    {
        &self.message
    }

    /// Reads a packet from the start of a buffer.
    pub fn from(bytes: &[u8]) -> (packet: Result<Packet, DecodeError>)
        ensures
            decoded(packet) == PacketView::spec_from(bytes@),
            packet is Ok ==> packet->Ok_0@.wf(),
    {
        if bytes.len() < HEADER_LEN {
            return Err(DecodeError::Truncated);
        }
        let frame = match Frame::from(slice_subrange(bytes, 0, 8)) {
            Ok(frame) => frame,
            Err(error) => {
                return Err(error);
            },
        };
        let size: usize = frame.size as usize;
        if size < HEADER_LEN {
            return Err(DecodeError::BadSize);
        }
        if size > bytes.len() {
            return Err(DecodeError::Truncated);
        }
        let frame_address = match FrameAddress::from(slice_subrange(bytes, 8, 24)) {
            Ok(frame_address) => frame_address,
            Err(error) => {
                return Err(error);
            },
        };
        let protocol_header = match ProtocolHeader::from(slice_subrange(bytes, 24, 36)) {
            Ok(protocol_header) => protocol_header,
            Err(error) => {
                return Err(error);
            },
        };
        match Message::from(protocol_header.message_type, slice_subrange(bytes, 36, size)) {
            Ok(message) => Ok(Packet { frame, frame_address, protocol_header, message }),
            Err(error) => Err(error),
        }
    }
}

/// The lengths of the four parts of an encoded packet, and where each part lies.
pub proof fn lemma_packet_layout(packet: PacketView)
    ensures
        packet.spec_bytes().len() == HEADER_LEN + packet.message.spec_bytes().len(),
        packet.spec_bytes().subrange(0, 8) == packet.frame.spec_bytes(),
        packet.spec_bytes().subrange(8, 24) == packet.frame_address.spec_bytes(),
        packet.spec_bytes().subrange(24, 36) == (ProtocolHeader {
            message_type: packet.message.spec_message_type(),
        }).spec_bytes(),
        packet.spec_bytes().subrange(36, packet.spec_bytes().len() as int)
            == packet.message.spec_bytes(),
{
    let b = packet.spec_bytes();
    let header = ProtocolHeader { message_type: packet.message.spec_message_type() };
    lemma_frame_round_trip(packet.frame);
    lemma_frame_address_round_trip(packet.frame_address);
    lemma_protocol_header_reserved(header);
    assert(b.subrange(0, 8) =~= packet.frame.spec_bytes());
    assert(b.subrange(8, 24) =~= packet.frame_address.spec_bytes());
    assert(b.subrange(24, 36) =~= header.spec_bytes());
    assert(b.subrange(36, b.len() as int) =~= packet.message.spec_bytes());
}

/// Reading the bytes of a well-formed packet gives the packet back, whatever follows
/// them in the buffer.
pub proof fn lemma_packet_round_trip(packet: PacketView, rest: Seq<u8>)
    requires
        packet.wf(),
    ensures
        PacketView::spec_from(packet.spec_bytes() + rest) == Ok::<PacketView, DecodeError>(packet),
{
    let b = packet.spec_bytes();
    let all = b + rest;
    lemma_packet_layout(packet);
    lemma_frame_round_trip(packet.frame);
    lemma_frame_address_round_trip(packet.frame_address);
    lemma_message_round_trip(packet.message);
    lemma_protocol_header_round_trip(packet.protocol_header);
    assert(all.subrange(0, 8) =~= b.subrange(0, 8));
    assert(all.subrange(8, 24) =~= b.subrange(8, 24));
    assert(all.subrange(24, 36) =~= b.subrange(24, 36));
    assert(all.subrange(36, packet.frame.size as int) =~= b.subrange(36, b.len() as int));
}

/// In the bytes of a well-formed packet the size field holds the number of those bytes.
pub proof fn lemma_packet_size_field(packet: PacketView)
    requires
        packet.wf(),
    ensures
        from_le16(packet.spec_bytes().subrange(0, 2)) == packet.spec_bytes().len(),
{
    let b = packet.spec_bytes();
    lemma_packet_layout(packet);
    lemma_frame_protocol_field(packet.frame);
    assert(b.subrange(0, 2) =~= b.subrange(0, 8).subrange(0, 2));
}

/// In the bytes of any packet the protocol field, bytes 2 and 3, holds 1024 in its low
/// twelve bits and zero in its two highest; bit 12 is the addressable flag and bit 13
/// the tagged flag.
pub proof fn lemma_packet_protocol_field(packet: PacketView)
    ensures
        from_le16(packet.spec_bytes().subrange(2, 4)) % 0x1000 == 1024,
        from_le16(packet.spec_bytes().subrange(2, 4)) / 0x4000 == 0,
        (from_le16(packet.spec_bytes().subrange(2, 4)) / 0x1000 % 2 == 1)
            == packet.frame.addressable,
        (from_le16(packet.spec_bytes().subrange(2, 4)) / 0x2000 % 2 == 1) == packet.frame.tagged,
{
    let b = packet.spec_bytes();
    lemma_packet_layout(packet);
    lemma_frame_protocol_field(packet.frame);
    assert(b.subrange(2, 4) =~= b.subrange(0, 8).subrange(2, 4));
}

/// In the bytes of any packet the target field, bytes 8 to 15, holds the target
/// address and then two zero bytes; the six bytes after it are zero too.
pub proof fn lemma_packet_target_field(packet: PacketView)
    ensures
        packet.spec_bytes().len() >= HEADER_LEN,
        packet.spec_bytes().subrange(8, 14) == packet.frame_address.target.spec_bytes(),
        forall|i: int| 14 <= i < 22 ==> packet.spec_bytes()[i] == 0,
        packet.spec_bytes()[23] == packet.frame_address.sequence,
{
    let b = packet.spec_bytes();
    lemma_packet_layout(packet);
    lemma_frame_address_reserved(packet.frame_address);
    let fa = packet.frame_address.spec_bytes();
    assert(b.subrange(8, 14) =~= b.subrange(8, 24).subrange(0, 6));
    assert forall|i: int| 14 <= i < 22 implies b[i] == 0 by {
        assert(b[i] == b.subrange(8, 24)[i - 8]);
    }
    assert(b[23] == b.subrange(8, 24)[15]);
}

/// In the bytes of any packet the protocol header, bytes 24 to 35, is zero in its
/// first eight bytes and in its last two, and holds the number of the message's kind
/// between them.
pub proof fn lemma_packet_protocol_header(packet: PacketView)
    ensures
        packet.spec_bytes().len() >= HEADER_LEN,
        forall|i: int| 24 <= i < 32 ==> packet.spec_bytes()[i] == 0,
        packet.spec_bytes()[34] == 0,
        packet.spec_bytes()[35] == 0,
        from_le16(packet.spec_bytes().subrange(32, 34))
            == packet.message.spec_message_type().spec_value(),
{
    let b = packet.spec_bytes();
    let header = ProtocolHeader { message_type: packet.message.spec_message_type() };
    lemma_packet_layout(packet);
    lemma_protocol_header_reserved(header);
    assert forall|i: int| 24 <= i < 32 implies b[i] == 0 by {
        assert(b[i] == b.subrange(24, 36)[i - 24]);
    }
    assert(b[34] == b.subrange(24, 36)[10]);
    assert(b[35] == b.subrange(24, 36)[11]);
    assert(b.subrange(32, 34) =~= b.subrange(24, 36).subrange(8, 10));
}

/// A packet in the making.
#[derive(Debug, Clone)]
pub struct PacketBuilder {
    pub tagged: bool,
    pub source: u32,
    pub target: MacAddress,
    pub res_required: bool,
    pub ack_required: bool,
    pub sequence: u8,
    pub message: Message,
}

/// A packet in the making, as a value of the model.
pub ghost struct PacketBuilderView {
    pub tagged: bool,
    pub source: u32,
    pub target: MacAddress,
    pub res_required: bool,
    pub ack_required: bool,
    pub sequence: u8,
    pub message: MessageView,
}

impl View for PacketBuilder {
    type V = PacketBuilderView;

    open spec fn view(&self) -> PacketBuilderView {
        PacketBuilderView {
            tagged: self.tagged,
            source: self.source,
            target: self.target,
            res_required: self.res_required,
            ack_required: self.ack_required,
            sequence: self.sequence,
            message: self.message@,
        }
    }
}

impl PacketBuilderView {
    /// The builder that every packet starts from: addressed to all devices, from
    /// source 0, asking for nothing, with sequence number 0.
    pub open spec fn spec_new(message: MessageView) -> PacketBuilderView {
        PacketBuilderView {
            tagged: true,
            source: 0,
            target: MacAddress::spec_broadcast(),
            res_required: false,
            ack_required: false,
            sequence: 0,
            message,
        }
    }

    /// The packet that the builder stands for.
    pub open spec fn spec_build(self) -> PacketView {
        PacketView {
            frame: Frame {
                size: (HEADER_LEN + self.message.spec_bytes().len()) as u16,
                addressable: true,
                tagged: self.tagged,
                source: self.source,
            },
            frame_address: FrameAddress {
                target: self.target,
                res_required: self.res_required,
                ack_required: self.ack_required,
                sequence: self.sequence,
            },
            protocol_header: ProtocolHeader { message_type: self.message.spec_message_type() },
            message: self.message,
        }
    }
}

impl PacketBuilder {
    pub fn new(message: Message) -> (builder: PacketBuilder)
        ensures
            builder@ == PacketBuilderView::spec_new(message@),
    {
        PacketBuilder {
            tagged: true,
            source: 0u32,
            target: MacAddress::broadcast(),
            res_required: false,
            ack_required: false,
            sequence: 0u8,
            message,
        }
    }

    pub fn with_empty_device_message(message_type: DeviceMessageType) -> (builder: PacketBuilder)
        ensures
            builder@ == PacketBuilderView::spec_new(
                MessageView::Empty(MessageType::Device(message_type)),
            ),
    {
        Self::new(Message::Empty(MessageType::Device(message_type)))
    }

    pub fn with_empty_light_message(message_type: LightMessageType) -> (builder: PacketBuilder)
        ensures
            builder@ == PacketBuilderView::spec_new(
                MessageView::Empty(MessageType::Light(message_type)),
            ),
    {
        Self::new(Message::Empty(MessageType::Light(message_type)))
    }

    /// Sets the identifier by which devices tell this client from others.
    pub fn source(self, source: u32) -> (builder: PacketBuilder)
        ensures
            builder@ == (PacketBuilderView { source, ..self@ }),
    {
        let mut builder = self;
        builder.source = source;
        builder
    }

    /// Addresses the packet to one device: the target is set and the tagged flag is
    /// cleared.
    pub fn target(self, target: MacAddress) -> (builder: PacketBuilder)
        ensures
            builder@ == (PacketBuilderView { target, tagged: false, ..self@ }),
    {
        let mut builder = self;
        builder.target = target;
        builder.tagged = false;
        builder
    }

    pub fn res_required(self, res_required: bool) -> (builder: PacketBuilder)
        ensures
            builder@ == (PacketBuilderView { res_required, ..self@ }),
    {
        let mut builder = self;
        builder.res_required = res_required;
        builder
    }

    pub fn ack_required(self, ack_required: bool) -> (builder: PacketBuilder)
        ensures
            builder@ == (PacketBuilderView { ack_required, ..self@ }),
    {
        let mut builder = self;
        builder.ack_required = ack_required;
        builder
    }

    pub fn sequence(self, sequence: u8) -> (builder: PacketBuilder)
        ensures
            builder@ == (PacketBuilderView { sequence, ..self@ }),
    {
        let mut builder = self;
        builder.sequence = sequence;
        builder
    }

    /// Makes the packet: the size is the header's length plus the payload's, the
    /// addressable flag is set, and the protocol header names the kind of the message.
    pub fn build(self) -> (packet: Packet)
        requires
            self.message@.spec_bytes().len() <= MAX_PAYLOAD_LEN,
        ensures
            packet@ == self@.spec_build(),
            self.message@.wf() ==> packet@.wf(),
    {
        let size: usize = HEADER_LEN + self.message.payload_len();
        Packet {
            frame: Frame {
                size: size as u16,
                addressable: true,
                tagged: self.tagged,
                source: self.source,
            },
            frame_address: FrameAddress {
                target: self.target,
                res_required: self.res_required,
                ack_required: self.ack_required,
                sequence: self.sequence,
            },
            protocol_header: ProtocolHeader { message_type: self.message.message_type() },
            message: self.message,
        }
    }
}

/// Of the bytes of a built packet: the size field holds their number; the protocol
/// field holds 1024 with the addressable bit set and the origin zero; the tagged bit is
/// the builder's; bytes 14 and 15, the end of the target field, are zero.
pub proof fn lemma_built_packet_fields(builder: PacketBuilderView)
    requires
        builder.message.spec_bytes().len() <= MAX_PAYLOAD_LEN,
    ensures
        from_le16(builder.spec_build().spec_bytes().subrange(0, 2))
            == builder.spec_build().spec_bytes().len(),
        from_le16(builder.spec_build().spec_bytes().subrange(2, 4)) % 0x1000 == 1024,
        from_le16(builder.spec_build().spec_bytes().subrange(2, 4)) / 0x4000 == 0,
        from_le16(builder.spec_build().spec_bytes().subrange(2, 4)) / 0x1000 % 2 == 1,
        (from_le16(builder.spec_build().spec_bytes().subrange(2, 4)) / 0x2000 % 2 == 1)
            == builder.tagged,
        builder.spec_build().spec_bytes().subrange(8, 14) == builder.target.spec_bytes(),
        builder.spec_build().spec_bytes()[14] == 0,
        builder.spec_build().spec_bytes()[15] == 0,
{
    let packet = builder.spec_build();
    let b = packet.spec_bytes();
    lemma_packet_layout(packet);
    lemma_frame_protocol_field(packet.frame);
    lemma_packet_protocol_field(packet);
    lemma_packet_target_field(packet);
    assert(b.subrange(0, 2) =~= b.subrange(0, 8).subrange(0, 2));
}

/// A packet that was given a target is not tagged, whatever else was set before or
/// after: the tagged bit of its bytes is zero.
pub proof fn lemma_targeted_packet_is_not_tagged(builder: PacketBuilderView, target: MacAddress)
    requires
        builder.message.spec_bytes().len() <= MAX_PAYLOAD_LEN,
    ensures
        ({
            let packet = (PacketBuilderView { target, tagged: false, ..builder }).spec_build();
            &&& !packet.frame.tagged
            &&& packet.frame_address.target == target
            &&& from_le16(packet.spec_bytes().subrange(2, 4)) / 0x2000 % 2 == 0
            &&& packet.spec_bytes().subrange(8, 14) == target.spec_bytes()
            &&& packet.spec_bytes()[14] == 0
            &&& packet.spec_bytes()[15] == 0
        }),
{
    lemma_built_packet_fields(PacketBuilderView { target, tagged: false, ..builder });
}

/// A packet built without a target is tagged and addressed to all devices: the
/// tagged bit of its bytes is one and the six bytes of its target are zero.
pub proof fn lemma_untargeted_packet_is_tagged(builder: PacketBuilderView)
    requires
        builder.message.spec_bytes().len() <= MAX_PAYLOAD_LEN,
        builder.tagged == PacketBuilderView::spec_new(builder.message).tagged,
        builder.target == PacketBuilderView::spec_new(builder.message).target,
    ensures
        builder.spec_build().frame.tagged,
        from_le16(builder.spec_build().spec_bytes().subrange(2, 4)) / 0x2000 % 2 == 1,
        builder.spec_build().spec_bytes().subrange(8, 14) == zeros(6),
{
    lemma_built_packet_fields(builder);
    lemma_broadcast_is_zero();
}

} // verus!
