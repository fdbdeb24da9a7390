//! The closed set of protocol messages this core consumes and produces:
//! inbound device reports and outbound operator commands, together with the
//! outbound request that pairs a command with its envelope and destination.

use vstd::prelude::*;
use crate::envelope::RequestOptions;

verus! {

/// Model of an inbound report, with labels as character sequences.
pub enum ReportModel {
    StateService { service: u8, port: u32 },
    Label { label: Seq<char> },
    HostFirmware { build: u64, version_minor: u16, version_major: u16 },
    LightState {
        hue: u16,
        saturation: u16,
        brightness: u16,
        kelvin: u16,
        power: u16,
        label: Seq<char>,
    },
    Other,
}

/// An inbound datagram from a device, decoded: the subset of protocol
/// message kinds this core reads. Every kind it does not consume decodes to
/// `Other` and is ignored, for forward compatibility.
#[derive(Debug)]
pub enum Report {
    /// A service advertisement; `service` names the transport the device
    /// offers on `port`.
    StateService { service: u8, port: u32 },
    /// The device's human-readable name.
    Label { label: String },
    /// The device's firmware build and version fields.
    HostFirmware { build: u64, version_minor: u16, version_major: u16 },
    /// A full light-state report: color channels, power and label at once.
    LightState {
        hue: u16,
        saturation: u16,
        brightness: u16,
        kelvin: u16,
        power: u16,
        label: String,
    },
    /// Any message kind this core does not consume.
    Other,
}

impl View for Report {
    type V = ReportModel;

    open spec fn view(&self) -> ReportModel {
        match self {
            Report::StateService { service, port } => (ReportModel::StateService {
                service: *service,
                port: *port,
            }),
            Report::Label { label } => (ReportModel::Label { label: label@ }),
            Report::HostFirmware { build, version_minor, version_major } => (
            ReportModel::HostFirmware {
                build: *build,
                version_minor: *version_minor,
                version_major: *version_major,
            }),
            Report::LightState { hue, saturation, brightness, kelvin, power, label } => (
            ReportModel::LightState {
                hue: *hue,
                saturation: *saturation,
                brightness: *brightness,
                kelvin: *kelvin,
                power: *power,
                label: label@,
            }),
            Report::Other => ReportModel::Other,
        }
    }
}

/// Model of an outbound command, with strings as character sequences.
pub enum CommandModel {
    GetService,
    GetHostFirmware,
    GetLabel,
    GetColor,
    SetPower { level: u16 },
    SetColor {
        reserved: u8,
        hue: u16,
        saturation: u16,
        brightness: u16,
        kelvin: u16,
        duration_ms: u32,
    },
    SetLabel { label: Seq<char> },
    SetAccessPoint { interface: u8, ssid: Seq<char>, password: Seq<char>, protocol: u8 },
}

/// An outbound command message: the subset of protocol message kinds this
/// core writes to the wire.
#[derive(Debug)]
pub enum Command {
    /// A service query; asks a device to advertise itself.
    GetService,
    /// A firmware-info query.
    GetHostFirmware,
    /// A label query.
    GetLabel,
    /// A light-state query; the discovery probe.
    GetColor,
    /// Sets the power level (0 or full intensity).
    SetPower { level: u16 },
    /// Sets all four color channels over `duration_ms` milliseconds.
    SetColor {
        reserved: u8,
        hue: u16,
        saturation: u16,
        brightness: u16,
        kelvin: u16,
        duration_ms: u32,
    },
    /// Sets the device's label; the label is carried null-padded to the
    /// fixed wire width.
    SetLabel { label: String },
    /// The one-shot onboarding message: credentials null-padded to their
    /// fixed wire widths.
    SetAccessPoint { interface: u8, ssid: String, password: String, protocol: u8 },
}

impl View for Command {
    type V = CommandModel;

    open spec fn view(&self) -> CommandModel {
        match self {
            Command::GetService => CommandModel::GetService,
            Command::GetHostFirmware => CommandModel::GetHostFirmware,
            Command::GetLabel => CommandModel::GetLabel,
            Command::GetColor => CommandModel::GetColor,
            Command::SetPower { level } => (CommandModel::SetPower { level: *level }),
            Command::SetColor { reserved, hue, saturation, brightness, kelvin, duration_ms } => (
            CommandModel::SetColor {
                reserved: *reserved,
                hue: *hue,
                saturation: *saturation,
                brightness: *brightness,
                kelvin: *kelvin,
                duration_ms: *duration_ms,
            }),
            Command::SetLabel { label } => (CommandModel::SetLabel { label: label@ }),
            Command::SetAccessPoint { interface, ssid, password, protocol } => (
            CommandModel::SetAccessPoint {
                interface: *interface,
                ssid: ssid@,
                password: password@,
                protocol: *protocol,
            }),
        }
    }
}

/// Model of an outbound request: envelope, command and destination.
pub struct RequestModel {
    pub options: RequestOptions,
    pub message: CommandModel,
    pub target: Seq<char>,
}

/// An outbound request: a command, the envelope it travels under, and the
/// destination it is sent to — a specific device address, or a broadcast
/// endpoint resolved by the caller. Requests are immutable once enqueued.
#[derive(Debug)]
pub struct Request {
    pub options: RequestOptions,
    pub message: Command,
    pub target: String,
}

impl View for Request {
    type V = RequestModel;

    open spec fn view(&self) -> RequestModel {
        RequestModel { options: self.options, message: self.message@, target: self.target@ }
    }
}

} // verus!
