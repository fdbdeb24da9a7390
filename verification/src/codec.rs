//! The wire codec: the binary layout of protocol packets.
//!
//! Every packet is a 36-byte little-endian header followed by a payload
//! whose layout the message-type field selects. The header carries the
//! frame size, a flags word holding the protocol number and the tagged
//! bit, the source identifier, the 8-byte frame target, the
//! acknowledgment/response flags, the correlation sequence number and the
//! message type. Labels and credentials travel as fixed-width fields,
//! null-padded on encode and trimmed at the first null on decode.

use vstd::prelude::*;
use vstd::bytes::{
    spec_u16_from_le_bytes, spec_u16_to_le_bytes, spec_u32_from_le_bytes, spec_u32_to_le_bytes,
    spec_u64_from_le_bytes, spec_u64_to_le_bytes, u16_from_le_bytes, u16_to_le_bytes,
    u32_from_le_bytes, u32_to_le_bytes, u64_from_le_bytes, u64_to_le_bytes,
};
use vstd::slice::slice_subrange;
use vstd::utf8::is_ascii_chars;
use crate::envelope::RequestOptions;
use crate::message::{Command, CommandModel, Report, ReportModel};

verus! {

/// The protocol number carried in the low twelve bits of the flags word.
pub const PROTOCOL_NUMBER: u16 = 1024;

/// The fixed header width in bytes.
pub const HEADER_SIZE: usize = 36;

/// Message-type codes, one per packet kind this core reads or writes.
pub const MSG_GET_SERVICE: u16 = 2;
pub const MSG_STATE_SERVICE: u16 = 3;
pub const MSG_GET_HOST_FIRMWARE: u16 = 14;
pub const MSG_STATE_HOST_FIRMWARE: u16 = 15;
pub const MSG_SET_POWER: u16 = 21;
pub const MSG_GET_LABEL: u16 = 23;
pub const MSG_SET_LABEL: u16 = 24;
pub const MSG_STATE_LABEL: u16 = 25;
pub const MSG_GET_COLOR: u16 = 101;
pub const MSG_SET_COLOR: u16 = 102;
pub const MSG_LIGHT_STATE: u16 = 107;
pub const MSG_SET_ACCESS_POINT: u16 = 305;

/// A sequence of `n` zero bytes.
pub open spec fn zero_bytes(n: nat) -> Seq<u8> {
    Seq::new(n, |i: int| 0u8)
}

/// The header flags word: protocol number in the low twelve bits, the
/// addressable bit set, and the tagged bit when the request addresses all
/// devices. 0x1400 is addressable plus protocol; 0x2000 is the tagged bit.
pub open spec fn spec_flags_word(tagged: bool) -> u16 {
    if tagged {
        0x3400u16
    } else {
        0x1400u16
    }
}

/// The acknowledgment/response flags byte: response-required is bit zero,
/// acknowledgment-required is bit one.
pub open spec fn spec_ack_res_byte(ack_required: bool, res_required: bool) -> u8 {
    (((if ack_required {
        2int
    } else {
        0int
    }) + (if res_required {
        1int
    } else {
        0int
    })) as u8)
}

/// The 36 header bytes for a packet of `size` total bytes carrying a
/// message of type `msg_type` under envelope `o`.
pub open spec fn spec_header_bytes(o: RequestOptions, size: u16, msg_type: u16) -> Seq<u8> {
    spec_u16_to_le_bytes(size) + spec_u16_to_le_bytes(spec_flags_word(o.tagged))
        + spec_u32_to_le_bytes(o.source) + o.target@ + zero_bytes(6) + seq![
        spec_ack_res_byte(o.ack_required, o.res_required),
    ] + seq![o.sequence] + zero_bytes(8) + spec_u16_to_le_bytes(msg_type) + zero_bytes(2)
}

/// A string field of fixed byte width: the characters' code points,
/// null-padded up to the width.
pub open spec fn spec_label_bytes(s: Seq<char>, width: nat) -> Seq<u8>
    recommends
        s.len() <= width,
{
    s.map_values(|c: char| c as u8) + zero_bytes((width - s.len()) as nat)
}

/// The message-type code of an outbound command.
pub open spec fn spec_command_type(m: CommandModel) -> u16 {
    match m {
        CommandModel::GetService => MSG_GET_SERVICE,
        CommandModel::GetHostFirmware => MSG_GET_HOST_FIRMWARE,
        CommandModel::GetLabel => MSG_GET_LABEL,
        CommandModel::GetColor => MSG_GET_COLOR,
        CommandModel::SetPower { .. } => MSG_SET_POWER,
        CommandModel::SetColor { .. } => MSG_SET_COLOR,
        CommandModel::SetLabel { .. } => MSG_SET_LABEL,
        CommandModel::SetAccessPoint { .. } => MSG_SET_ACCESS_POINT,
    }
}

/// The payload bytes of an outbound command.
pub open spec fn spec_command_payload(m: CommandModel) -> Seq<u8> {
    match m {
        CommandModel::GetService => Seq::empty(),
        CommandModel::GetHostFirmware => Seq::empty(),
        CommandModel::GetLabel => Seq::empty(),
        CommandModel::GetColor => Seq::empty(),
        CommandModel::SetPower { level } => spec_u16_to_le_bytes(level),
        CommandModel::SetColor { reserved, hue, saturation, brightness, kelvin, duration_ms } => seq![
            reserved,
        ] + spec_u16_to_le_bytes(hue) + spec_u16_to_le_bytes(saturation) + spec_u16_to_le_bytes(
            brightness,
        ) + spec_u16_to_le_bytes(kelvin) + spec_u32_to_le_bytes(duration_ms),
        CommandModel::SetLabel { label } => spec_label_bytes(label, 32),
        CommandModel::SetAccessPoint { interface, ssid, password, protocol } => seq![interface]
            + spec_label_bytes(ssid, 32) + spec_label_bytes(password, 64) + seq![protocol],
    }
}

/// What the encoder asks of a command: string fields are ASCII and fit
/// their fixed wire widths.
pub open spec fn command_wf(m: CommandModel) -> bool {
    match m {
        CommandModel::SetLabel { label } => label.len() <= 32 && is_ascii_chars(label),
        CommandModel::SetAccessPoint { ssid, password, .. } => ssid.len() <= 32 && is_ascii_chars(
            ssid,
        ) && password.len() <= 64 && is_ascii_chars(password),
        _ => true,
    }
}

/// The complete packet for command `m` under envelope `o`: header with the
/// total size and the command's type code, then the command's payload.
pub open spec fn spec_request_bytes(o: RequestOptions, m: CommandModel) -> Seq<u8> {
    spec_header_bytes(
        o,
        (HEADER_SIZE + spec_command_payload(m).len()) as u16,
        spec_command_type(m),
    ) + spec_command_payload(m)
}

/// No command's payload outgrows the onboarding message's 98 bytes, so
/// every packet's total size fits the 16-bit size field.
pub proof fn lemma_payload_len(m: CommandModel)
    requires
        command_wf(m),
    ensures
        spec_command_payload(m).len() <= 98,
{
    vstd::bytes::lemma_auto_spec_u16_to_from_le_bytes();
    vstd::bytes::lemma_auto_spec_u32_to_from_le_bytes();
}

fn push_u16(out: &mut Vec<u8>, x: u16)
    ensures
        final(out)@ == old(out)@ + spec_u16_to_le_bytes(x),
{
    let mut b = u16_to_le_bytes(x);
    out.append(&mut b);
}

fn push_u32(out: &mut Vec<u8>, x: u32)
    ensures
        final(out)@ == old(out)@ + spec_u32_to_le_bytes(x),
{
    let mut b = u32_to_le_bytes(x);
    out.append(&mut b);
}

fn push_zeros(out: &mut Vec<u8>, n: usize)
    ensures
        final(out)@ == old(out)@ + zero_bytes(n as nat),
{
    let mut i: usize = 0;
    while i < n
        invariant
            i <= n,
            out@.len() == old(out)@.len() + i,
            out@ == old(out)@ + zero_bytes(i as nat),
        decreases n - i,
    {
        out.push(0u8);
        proof {
            assert(out@ =~= old(out)@ + zero_bytes((i + 1) as nat));
        }
        i = i + 1;
    }
}

fn push_label(out: &mut Vec<u8>, s: &str, width: usize)
    requires
        s@.len() <= width,
        is_ascii_chars(s@),
    ensures
        final(out)@ == old(out)@ + spec_label_bytes(s@, width as nat),
{
    let n = s.unicode_len();
    let mut i: usize = 0;
    while i < n
        invariant
            i <= n,
            n == s@.len(),
            is_ascii_chars(s@),
            out@.len() == old(out)@.len() + i,
            forall|j: int| 0 <= j < old(out)@.len() ==> out@[j] == old(out)@[j],
            forall|j: int|
                0 <= j < i ==> out@[old(out)@.len() + j] == (s@[j] as u8),
        decreases n - i,
    {
        let b = s.get_ascii(i);
        out.push(b);
        i = i + 1;
    }
    push_zeros(out, width - n);
    proof {
        assert(out@ =~= old(out)@ + spec_label_bytes(s@, width as nat));
    }
}

fn encode_header(out: &mut Vec<u8>, o: &RequestOptions, size: u16, msg_type: u16)
    ensures
        final(out)@ == old(out)@ + spec_header_bytes(*o, size, msg_type),
{
    push_u16(out, size);
    if o.tagged {
        push_u16(out, 0x3400u16);
    } else {
        push_u16(out, 0x1400u16);
    }
    push_u32(out, o.source);
    let mut i: usize = 0;
    let ghost before_target = out@;
    while i < 8
        invariant
            i <= 8,
            out@.len() == before_target.len() + i,
            forall|j: int| 0 <= j < before_target.len() ==> out@[j] == before_target[j],
            forall|j: int| 0 <= j < i ==> out@[before_target.len() + j] == o.target@[j],
        decreases 8 - i,
    {
        out.push(o.target[i]);
        i = i + 1;
    }
    proof {
        assert(out@ =~= before_target + o.target@);
    }
    push_zeros(out, 6);
    let mut flags: u8 = 0;
    if o.res_required {
        flags = flags + 1;
    }
    if o.ack_required {
        flags = flags + 2;
    }
    out.push(flags);
    out.push(o.sequence);
    push_zeros(out, 8);
    push_u16(out, msg_type);
    push_zeros(out, 2);
    proof {
        assert(out@ =~= old(out)@ + spec_header_bytes(*o, size, msg_type));
    }
}

fn push_u64(out: &mut Vec<u8>, x: u64)
    ensures
        final(out)@ == old(out)@ + spec_u64_to_le_bytes(x),
{
    let mut b = u64_to_le_bytes(x);
    out.append(&mut b);
}

/// The message-type code of an inbound report; a report of an unconsumed
/// kind has no encoding of its own.
pub open spec fn spec_report_type(r: ReportModel) -> u16 {
    match r {
        ReportModel::StateService { .. } => MSG_STATE_SERVICE,
        ReportModel::HostFirmware { .. } => MSG_STATE_HOST_FIRMWARE,
        ReportModel::Label { .. } => MSG_STATE_LABEL,
        ReportModel::LightState { .. } => MSG_LIGHT_STATE,
        ReportModel::Other => 0,
    }
}

/// The payload bytes of an inbound report.
pub open spec fn spec_report_payload(r: ReportModel) -> Seq<u8> {
    match r {
        ReportModel::StateService { service, port } => seq![service] + spec_u32_to_le_bytes(port),
        ReportModel::HostFirmware { build, version_minor, version_major } => spec_u64_to_le_bytes(
            build,
        ) + zero_bytes(8) + spec_u16_to_le_bytes(version_minor) + spec_u16_to_le_bytes(
            version_major,
        ),
        ReportModel::Label { label } => spec_label_bytes(label, 32),
        ReportModel::LightState { hue, saturation, brightness, kelvin, power, label } => spec_u16_to_le_bytes(
            hue,
        ) + spec_u16_to_le_bytes(saturation) + spec_u16_to_le_bytes(brightness)
            + spec_u16_to_le_bytes(kelvin) + zero_bytes(2) + spec_u16_to_le_bytes(power)
            + spec_label_bytes(label, 32) + zero_bytes(8),
        ReportModel::Other => Seq::empty(),
    }
}

/// What the report encoder asks: a kind this core consumes, with any
/// label ASCII and inside its fixed wire width.
pub open spec fn report_wf(r: ReportModel) -> bool {
    match r {
        ReportModel::Label { label } => label.len() <= 32 && is_ascii_chars(label),
        ReportModel::LightState { label, .. } => label.len() <= 32 && is_ascii_chars(label),
        ReportModel::Other => false,
        _ => true,
    }
}

/// The complete packet for report `r` under envelope `o`.
pub open spec fn spec_report_bytes(o: RequestOptions, r: ReportModel) -> Seq<u8> {
    spec_header_bytes(o, (HEADER_SIZE + spec_report_payload(r).len()) as u16, spec_report_type(r))
        + spec_report_payload(r)
}

/// Encodes one device report with its envelope into the complete packet —
/// the device's side of the wire, written here so that a caller can stand
/// in for a device and exercise the inbound path with honest bytes.
pub fn encode_report(o: &RequestOptions, r: &Report) -> (out: Vec<u8>)
    requires
        report_wf(r@),
    ensures
        out@ == spec_report_bytes(*o, r@),
{
    let mut payload: Vec<u8> = Vec::new();
    let msg_type: u16;
    match r {
        Report::StateService { service, port } => {
            payload.push(*service);
            push_u32(&mut payload, *port);
            msg_type = MSG_STATE_SERVICE;
        },
        Report::HostFirmware { build, version_minor, version_major } => {
            push_u64(&mut payload, *build);
            push_zeros(&mut payload, 8);
            push_u16(&mut payload, *version_minor);
            push_u16(&mut payload, *version_major);
            msg_type = MSG_STATE_HOST_FIRMWARE;
        },
        Report::Label { label } => {
            push_label(&mut payload, label.as_str(), 32);
            msg_type = MSG_STATE_LABEL;
        },
        Report::LightState { hue, saturation, brightness, kelvin, power, label } => {
            push_u16(&mut payload, *hue);
            push_u16(&mut payload, *saturation);
            push_u16(&mut payload, *brightness);
            push_u16(&mut payload, *kelvin);
            push_zeros(&mut payload, 2);
            push_u16(&mut payload, *power);
            push_label(&mut payload, label.as_str(), 32);
            push_zeros(&mut payload, 8);
            msg_type = MSG_LIGHT_STATE;
        },
        Report::Other => {
            msg_type = 0;
            proof {
                assert(false);
            }
        },
    }
    proof {
        assert(payload@ =~= spec_report_payload(r@));
        vstd::bytes::lemma_auto_spec_u16_to_from_le_bytes();
        vstd::bytes::lemma_auto_spec_u32_to_from_le_bytes();
        vstd::bytes::lemma_auto_spec_u64_to_from_le_bytes();
        assert(payload@.len() <= 52);
    }
    let size = (HEADER_SIZE + payload.len()) as u16;
    let mut out: Vec<u8> = Vec::new();
    encode_header(&mut out, o, size, msg_type);
    out.append(&mut payload);
    proof {
        assert(out@ =~= spec_report_bytes(*o, r@));
    }
    out
}

/// Why an inbound datagram was rejected. A rejected datagram is discarded;
/// it is never fatal to the caller's loop.
#[derive(Clone, Copy, PartialEq, Eq, Structural, Debug)]
pub enum DecodeError {
    /// Shorter than the fixed header.
    TooShort,
    /// The flags word names a protocol this codec does not speak.
    UnsupportedProtocol,
    /// A known message type whose payload bytes are missing.
    TruncatedPayload,
}

/// The index of the first null byte, or the length when none occurs.
pub open spec fn first_nul(s: Seq<u8>) -> nat
    decreases s.len(),
{
    if s.len() == 0 {
        0
    } else if s[0] == 0 {
        0
    } else {
        1 + first_nul(s.drop_first())
    }
}

pub proof fn lemma_first_nul(s: Seq<u8>)
    ensures
        first_nul(s) <= s.len(),
        forall|j: int| 0 <= j < first_nul(s) ==> s[j] != 0,
        first_nul(s) < s.len() ==> s[first_nul(s) as int] == 0,
    decreases s.len(),
{
    if s.len() == 0 {
    } else if s[0] == 0 {
    } else {
        lemma_first_nul(s.drop_first());
        assert forall|j: int| 0 <= j < first_nul(s) implies s[j] != 0 by {
            if j > 0 {
                assert(s.drop_first()[j - 1] == s[j]);
            }
        }
        if first_nul(s) < s.len() {
            assert(s.drop_first()[first_nul(s.drop_first()) as int] == s[first_nul(s) as int]);
        }
    }
}

/// The characters of a fixed-width string field: the bytes before the
/// first null, read as code points.
pub open spec fn spec_label_chars(s: Seq<u8>) -> Seq<char> {
    s.subrange(0, first_nul(s) as int).map_values(|b: u8| b as char)
}

/// Relies on `String::push` of std: it appends exactly the one character
/// to the end of the string.
pub assume_specification[ String::push ](s: &mut String, ch: char)
    ensures
        final(s)@ == old(s)@.push(ch),
;

/// Reads a fixed-width string field: every byte before the first null,
/// as characters; the padding and everything after a null is dropped.
fn label_from_bytes(field: &[u8]) -> (r: String)
    ensures
        r@ == spec_label_chars(field@),
{
    let n = field.len();
    let mut s = String::new();
    let mut i: usize = 0;
    while i < n && field[i] != 0
        invariant
            i <= n,
            n == field@.len(),
            forall|j: int| 0 <= j < i ==> field@[j] != 0,
            s@.len() == i,
            forall|j: int| 0 <= j < i ==> s@[j] == (field@[j] as char),
        decreases n - i,
    {
        let b = field[i];
        s.push(b as char);
        i = i + 1;
    }
    proof {
        lemma_first_nul(field@);
        if first_nul(field@) < i {
            assert(field@[first_nul(field@) as int] != 0);
        }
        if i < first_nul(field@) {
            assert(field@[i as int] != 0);
        }
        assert(first_nul(field@) == i);
        assert(s@ =~= spec_label_chars(field@));
    }
    s
}

/// The 16-bit little-endian value at byte offset `off`.
pub open spec fn spec_read_u16(s: Seq<u8>, off: int) -> u16 {
    spec_u16_from_le_bytes(s.subrange(off, off + 2))
}

/// The 32-bit little-endian value at byte offset `off`.
pub open spec fn spec_read_u32(s: Seq<u8>, off: int) -> u32 {
    spec_u32_from_le_bytes(s.subrange(off, off + 4))
}

/// The 64-bit little-endian value at byte offset `off`.
pub open spec fn spec_read_u64(s: Seq<u8>, off: int) -> u64 {
    spec_u64_from_le_bytes(s.subrange(off, off + 8))
}

/// What an inbound datagram decodes to. A datagram is rejected when it is
/// shorter than the header, when its protocol number is foreign, or when a
/// known message type arrives with its payload cut off; every unknown
/// message type decodes to `Other` and is left to the caller to ignore.
pub open spec fn spec_decode(s: Seq<u8>) -> Result<ReportModel, DecodeError> {
    if s.len() < 36 {
        Err(DecodeError::TooShort)
    } else if spec_read_u16(s, 2) % 4096 != PROTOCOL_NUMBER {
        Err(DecodeError::UnsupportedProtocol)
    } else {
        let t = spec_read_u16(s, 32);
        if t == MSG_STATE_SERVICE {
            if s.len() < 41 {
                Err(DecodeError::TruncatedPayload)
            } else {
                Ok(ReportModel::StateService { service: s[36], port: spec_read_u32(s, 37) })
            }
        } else if t == MSG_STATE_HOST_FIRMWARE {
            if s.len() < 56 {
                Err(DecodeError::TruncatedPayload)
            } else {
                Ok(
                    ReportModel::HostFirmware {
                        build: spec_read_u64(s, 36),
                        version_minor: spec_read_u16(s, 52),
                        version_major: spec_read_u16(s, 54),
                    },
                )
            }
        } else if t == MSG_STATE_LABEL {
            if s.len() < 68 {
                Err(DecodeError::TruncatedPayload)
            } else {
                Ok(ReportModel::Label { label: spec_label_chars(s.subrange(36, 68)) })
            }
        } else if t == MSG_LIGHT_STATE {
            if s.len() < 88 {
                Err(DecodeError::TruncatedPayload)
            } else {
                Ok(
                    ReportModel::LightState {
                        hue: spec_read_u16(s, 36),
                        saturation: spec_read_u16(s, 38),
                        brightness: spec_read_u16(s, 40),
                        kelvin: spec_read_u16(s, 42),
                        power: spec_read_u16(s, 46),
                        label: spec_label_chars(s.subrange(48, 80)),
                    },
                )
            }
        } else {
            Ok(ReportModel::Other)
        }
    }
}

/// Decodes one inbound datagram. The result is exactly what the layout
/// above prescribes for the bytes: a report for a well-formed packet, the
/// matching error otherwise.
pub fn decode_report(data: &[u8]) -> (r: Result<Report, DecodeError>)
    ensures
        spec_decode(data@) is Ok ==> r is Ok && r->Ok_0@ == spec_decode(data@)->Ok_0,
        spec_decode(data@) is Err ==> r is Err && r->Err_0 == spec_decode(data@)->Err_0,
{
    if data.len() < 36 {
        return Err(DecodeError::TooShort);
    }
    let flags = u16_from_le_bytes(slice_subrange(data, 2, 4));
    if flags % 4096 != PROTOCOL_NUMBER {
        return Err(DecodeError::UnsupportedProtocol);
    }
    let t = u16_from_le_bytes(slice_subrange(data, 32, 34));
    if t == MSG_STATE_SERVICE {
        if data.len() < 41 {
            return Err(DecodeError::TruncatedPayload);
        }
        let service = data[36];
        let port = u32_from_le_bytes(slice_subrange(data, 37, 41));
        Ok(Report::StateService { service, port })
    } else if t == MSG_STATE_HOST_FIRMWARE {
        if data.len() < 56 {
            return Err(DecodeError::TruncatedPayload);
        }
        let build = u64_from_le_bytes(slice_subrange(data, 36, 44));
        let version_minor = u16_from_le_bytes(slice_subrange(data, 52, 54));
        let version_major = u16_from_le_bytes(slice_subrange(data, 54, 56));
        Ok(Report::HostFirmware { build, version_minor, version_major })
    } else if t == MSG_STATE_LABEL {
        if data.len() < 68 {
            return Err(DecodeError::TruncatedPayload);
        }
        let label = label_from_bytes(slice_subrange(data, 36, 68));
        Ok(Report::Label { label })
    } else if t == MSG_LIGHT_STATE {
        if data.len() < 88 {
            return Err(DecodeError::TruncatedPayload);
        }
        let hue = u16_from_le_bytes(slice_subrange(data, 36, 38));
        let saturation = u16_from_le_bytes(slice_subrange(data, 38, 40));
        let brightness = u16_from_le_bytes(slice_subrange(data, 40, 42));
        let kelvin = u16_from_le_bytes(slice_subrange(data, 42, 44));
        let power = u16_from_le_bytes(slice_subrange(data, 46, 48));
        let label = label_from_bytes(slice_subrange(data, 48, 80));
        Ok(Report::LightState { hue, saturation, brightness, kelvin, power, label })
    } else {
        Ok(Report::Other)
    }
}

/// Whether a character sequence holds no null character; only such a
/// label survives the fixed-width field unchanged, since the decoder
/// cannot tell an interior null from the padding.
pub open spec fn nul_free(s: Seq<char>) -> bool {
    forall|i: int| 0 <= i < s.len() ==> s[i] != '\0'
}

proof fn lemma_label_field_roundtrip(label: Seq<char>, width: nat)
    requires
        label.len() <= width,
        is_ascii_chars(label),
        nul_free(label),
    ensures
        spec_label_bytes(label, width).len() == width,
        spec_label_chars(spec_label_bytes(label, width)) == label,
{
    let bytes = spec_label_bytes(label, width);
    assert forall|j: int| 0 <= j < label.len() implies bytes[j] != 0 by {
        assert(bytes[j] == label[j] as u8);
    }
    lemma_first_nul(bytes);
    if first_nul(bytes) < label.len() {
        assert(bytes[first_nul(bytes) as int] != 0);
    }
    if label.len() < first_nul(bytes) {
        assert(bytes[label.len() as int] == 0);
    }
    assert(first_nul(bytes) == label.len());
    assert forall|j: int| 0 <= j < label.len() implies spec_label_chars(bytes)[j] == label[j] by {
        assert(bytes[j] == label[j] as u8);
        assert('\0' <= label[j] <= '\u{7f}');
    }
    assert(spec_label_chars(bytes) =~= label);
}

proof fn lemma_header_reads(o: RequestOptions, size: u16, msg_type: u16)
    ensures
        spec_header_bytes(o, size, msg_type).len() == 36,
        spec_header_bytes(o, size, msg_type).subrange(0, 2) == spec_u16_to_le_bytes(size),
        spec_header_bytes(o, size, msg_type).subrange(2, 4) == spec_u16_to_le_bytes(
            spec_flags_word(o.tagged),
        ),
        spec_header_bytes(o, size, msg_type).subrange(32, 34) == spec_u16_to_le_bytes(msg_type),
{
    vstd::bytes::lemma_auto_spec_u16_to_from_le_bytes();
    vstd::bytes::lemma_auto_spec_u32_to_from_le_bytes();
    let h = spec_header_bytes(o, size, msg_type);
    assert(o.target@.len() == 8);
    assert(h.subrange(0, 2) =~= spec_u16_to_le_bytes(size));
    assert(h.subrange(2, 4) =~= spec_u16_to_le_bytes(spec_flags_word(o.tagged)));
    assert(h.subrange(32, 34) =~= spec_u16_to_le_bytes(msg_type));
}

/// The codec's round trip: a well-formed report whose label holds no
/// interior null decodes from its own encoding back to itself, whatever
/// envelope it travels under.
pub proof fn lemma_report_roundtrip(o: RequestOptions, r: ReportModel)
    requires
        report_wf(r),
        r matches ReportModel::Label { label } ==> nul_free(label),
        r matches ReportModel::LightState { label, .. } ==> nul_free(label),
    ensures
        spec_decode(spec_report_bytes(o, r)) == Ok::<ReportModel, DecodeError>(r),
{
    vstd::bytes::lemma_auto_spec_u16_to_from_le_bytes();
    vstd::bytes::lemma_auto_spec_u32_to_from_le_bytes();
    vstd::bytes::lemma_auto_spec_u64_to_from_le_bytes();
    let payload = spec_report_payload(r);
    let msg_type = spec_report_type(r);
    let size = (HEADER_SIZE + payload.len()) as u16;
    let h = spec_header_bytes(o, size, msg_type);
    let s = spec_report_bytes(o, r);
    lemma_header_reads(o, size, msg_type);
    assert(s.len() == 36 + payload.len());
    assert forall|j: int| 0 <= j < 36 implies s[j] == h[j] by {}
    assert(s.subrange(2, 4) =~= h.subrange(2, 4));
    assert(spec_read_u16(s, 2) == spec_flags_word(o.tagged));
    assert(spec_flags_word(o.tagged) % 4096 == PROTOCOL_NUMBER);
    assert(s.subrange(32, 34) =~= h.subrange(32, 34));
    assert(spec_read_u16(s, 32) == msg_type);
    assert forall|j: int| 0 <= j < payload.len() implies s[36 + j] == payload[j] by {}
    match r {
        ReportModel::StateService { service, port } => {
            assert(s[36] == payload[0]);
            assert(s.subrange(37, 41) =~= spec_u32_to_le_bytes(port));
            assert(spec_read_u32(s, 37) == port);
        },
        ReportModel::HostFirmware { build, version_minor, version_major } => {
            assert(s.subrange(36, 44) =~= spec_u64_to_le_bytes(build));
            assert(spec_read_u64(s, 36) == build);
            assert(s.subrange(52, 54) =~= spec_u16_to_le_bytes(version_minor));
            assert(spec_read_u16(s, 52) == version_minor);
            assert(s.subrange(54, 56) =~= spec_u16_to_le_bytes(version_major));
            assert(spec_read_u16(s, 54) == version_major);
        },
        ReportModel::Label { label } => {
            lemma_label_field_roundtrip(label, 32);
            assert(s.subrange(36, 68) =~= spec_label_bytes(label, 32));
            assert(spec_label_chars(s.subrange(36, 68)) == label);
        },
        ReportModel::LightState { hue, saturation, brightness, kelvin, power, label } => {
            lemma_label_field_roundtrip(label, 32);
            assert(s.subrange(36, 38) =~= spec_u16_to_le_bytes(hue));
            assert(s.subrange(38, 40) =~= spec_u16_to_le_bytes(saturation));
            assert(s.subrange(40, 42) =~= spec_u16_to_le_bytes(brightness));
            assert(s.subrange(42, 44) =~= spec_u16_to_le_bytes(kelvin));
            assert(s.subrange(46, 48) =~= spec_u16_to_le_bytes(power));
            assert(s.subrange(48, 80) =~= spec_label_bytes(label, 32));
            assert(spec_label_chars(s.subrange(48, 80)) == label);
        },
        ReportModel::Other => {},
    }
}

/// Encodes one outbound command with its envelope into the complete
/// packet, exactly the bytes the layout above prescribes.
pub fn encode_request(o: &RequestOptions, m: &Command) -> (r: Vec<u8>)
    requires
        command_wf(m@),
    ensures
        r@ == spec_request_bytes(*o, m@),
{
    let mut payload: Vec<u8> = Vec::new();
    let msg_type: u16;
    match m {
        Command::GetService => {
            msg_type = MSG_GET_SERVICE;
        },
        Command::GetHostFirmware => {
            msg_type = MSG_GET_HOST_FIRMWARE;
        },
        Command::GetLabel => {
            msg_type = MSG_GET_LABEL;
        },
        Command::GetColor => {
            msg_type = MSG_GET_COLOR;
        },
        Command::SetPower { level } => {
            push_u16(&mut payload, *level);
            msg_type = MSG_SET_POWER;
        },
        Command::SetColor { reserved, hue, saturation, brightness, kelvin, duration_ms } => {
            payload.push(*reserved);
            push_u16(&mut payload, *hue);
            push_u16(&mut payload, *saturation);
            push_u16(&mut payload, *brightness);
            push_u16(&mut payload, *kelvin);
            push_u32(&mut payload, *duration_ms);
            msg_type = MSG_SET_COLOR;
        },
        Command::SetLabel { label } => {
            push_label(&mut payload, label.as_str(), 32);
            msg_type = MSG_SET_LABEL;
        },
        Command::SetAccessPoint { interface, ssid, password, protocol } => {
            payload.push(*interface);
            push_label(&mut payload, ssid.as_str(), 32);
            push_label(&mut payload, password.as_str(), 64);
            payload.push(*protocol);
            msg_type = MSG_SET_ACCESS_POINT;
        },
    }
    proof {
        assert(payload@ =~= spec_command_payload(m@));
        lemma_payload_len(m@);
    }
    let size = (HEADER_SIZE + payload.len()) as u16;
    let mut out: Vec<u8> = Vec::new();
    encode_header(&mut out, o, size, msg_type);
    out.append(&mut payload);
    proof {
        assert(out@ =~= spec_request_bytes(*o, m@));
    }
    out
}

} // verus!
