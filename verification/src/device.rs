//! Device identities shared by the panels.

use vstd::prelude::*;

verus! {

/// One connection to one device: its ADB serial plus the connection
/// generation, so a reconnect never answers for an earlier session.
#[derive(Clone, Debug, PartialEq, Eq)]
pub struct DeviceTarget {
    pub serial: String,
    pub generation: u64,
}

impl View for DeviceTarget {
    type V = (Seq<char>, u64);

    open spec fn view(&self) -> (Seq<char>, u64) {
        (self.serial@, self.generation)
    }
}

/// The target of an optional device, as a plain value.
pub open spec fn target_view(target: Option<DeviceTarget>) -> Option<(Seq<char>, u64)> {
    match target {
        Some(t) => Some(t@),
        None => None,
    }
}

impl DeviceTarget {
    pub fn new(serial: &str, generation: u64) -> (target: Self)
        ensures
            target@ == (serial@, generation),
    {
        DeviceTarget { serial: crate::text::string_of(crate::text::chars_of(serial).as_slice()), generation }
    }

    /// A copy with the same serial and generation.
    pub fn duplicate(&self) -> (copy: Self)
        ensures
            copy == *self,
    {
        DeviceTarget { serial: self.serial.clone(), generation: self.generation }
    }

    /// Whether both name the same connection.
    pub fn same_as(&self, other: &DeviceTarget) -> (same: bool)
        ensures
            same == (self@ == other@),
    {
        self.generation == other.generation && self.serial == other.serial
    }
}

/// A copy of an optional target.
pub fn duplicate_target(target: &Option<DeviceTarget>) -> (copy: Option<DeviceTarget>)
    ensures
        copy == *target,
{
    match target {
        Some(t) => Some(t.duplicate()),
        None => None,
    }
}

/// Whether two optional targets name the same connection (or both none).
pub fn same_target(a: &Option<DeviceTarget>, b: &Option<DeviceTarget>) -> (same: bool)
    ensures
        same == (target_view(*a) == target_view(*b)),
{
    match (a, b) {
        (Some(x), Some(y)) => x.same_as(y),
        (None, None) => true,
        _ => false,
    }
}

/// Whether an optional target is present and names `target`.
pub fn is_target(current: &Option<DeviceTarget>, target: &DeviceTarget) -> (same: bool)
    ensures
        same == (target_view(*current) == Some(target@)),
{
    match current {
        Some(x) => x.same_as(target),
        None => false,
    }
}


/// Connection state adb reports for a device.
#[derive(Clone, Copy, Debug, PartialEq, Eq, Structural)]
pub enum DeviceState {
    Online,
    Offline,
    Unauthorized,
    Unknown,
}

/// One device of the device list.
#[derive(Clone, Debug, PartialEq, Eq)]
pub struct DeviceRecord {
    pub serial: String,
    pub state: DeviceState,
    pub model: Option<String>,
    /// Which connection of the serial this is; a reconnect gets a new one.
    pub generation: u64,
}

impl DeviceRecord {
    /// The connection the panels work against.
    pub fn target(&self) -> (target: DeviceTarget)
        ensures
            target == (DeviceTarget { serial: self.serial, generation: self.generation }),
    {
        DeviceTarget { serial: self.serial.clone(), generation: self.generation }
    }
}

/// Broad classes of backend failures the panels react to.
#[derive(Clone, Copy, Debug, PartialEq, Eq, Structural)]
pub enum ErrorCode {
    InvalidInput,
    AlreadyExists,
    DeviceUnavailable,
    AdbFailed,
    OutputLimit,
    Cancelled,
    Internal,
    Other,
}

/// A backend failure: its class, a text-table key and free-form detail.
#[derive(Clone, Debug, PartialEq, Eq)]
pub struct BridgeError {
    pub code: ErrorCode,
    pub message_key: String,
    pub detail: String,
}

impl BridgeError {
    /// An invalid-input error with the given text-table key and no detail.
    /// That such an error carries no detail is an assumption of this
    /// library, which every refusal it makes itself follows.
    pub fn invalid_input(message_key: &str) -> (error: Self)
        ensures
            error.code == ErrorCode::InvalidInput,
            error.message_key@ == message_key@,
            error.detail@.len() == 0,
    {
        BridgeError {
            code: ErrorCode::InvalidInput,
            message_key: crate::text::string_of(crate::text::chars_of(message_key).as_slice()),
            detail: String::new(),
        }
    }

    /// A copy with the same class, key and detail.
    pub fn duplicate(&self) -> (copy: Self)
        ensures
            copy == *self,
    {
        BridgeError {
            code: self.code,
            message_key: self.message_key.clone(),
            detail: self.detail.clone(),
        }
    }
}

} // verus!
