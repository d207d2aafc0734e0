//! The backend's bookkeeping around adb: which requests still target a live
//! connection, the file transfers in flight, the forwarded DevTools ports,
//! how finished work is reported, and the checks a captured screenshot must
//! pass before it is shown.

use vstd::prelude::*;

use crate::device::{BridgeError, DeviceRecord, DeviceState, DeviceTarget, ErrorCode};
use crate::shell::ShellEvent;
use crate::selection::{find_device, find_serial, serial_view, DeviceSnapshot};
use crate::text::{chars_of, decimal, decimal_chars, push_char, push_chars, string_of};

verus! {

/// Widest or tallest screenshot accepted, in pixels.
pub const MAX_SCREENSHOT_DIMENSION: u32 = 8192;

/// Largest screenshot accepted, in pixels.
pub const MAX_SCREENSHOT_PIXELS: u64 = 16_777_216;

/// Whether `target` is still the current connection of its serial and that
/// device is online: later answers for an older connection are refused.
pub open spec fn is_current_online(devices: Seq<DeviceRecord>, target: DeviceTarget) -> bool {
    match find_serial(devices, target.serial@) {
        Some(r) => r.generation == target.generation && r.state == DeviceState::Online,
        None => false,
    }
}

/// Whether `target` is still the current, online connection of its device.
pub fn current_online(devices: &Vec<DeviceRecord>, target: &DeviceTarget) -> (online: bool)
    ensures
        online == is_current_online(devices@, *target),
{
    match find_device(devices, &target.serial) {
        Some(record) => record.generation == target.generation && record.state == DeviceState::Online,
        None => false,
    }
}

/// The error a request for a gone or replaced connection is answered with.
pub open spec fn is_stale_error(error: BridgeError) -> bool {
    &&& error.code == ErrorCode::DeviceUnavailable
    &&& error.message_key@ == "device.target_stale"@
    &&& error.detail@ == "device is no longer online"@
}

fn stale_target_error() -> (error: BridgeError)
    ensures
        is_stale_error(error),
{
    let key = "device.target_stale";
    let detail = "device is no longer online";
    proof {
        reveal_strlit("device.target_stale");
        reveal_strlit("device is no longer online");
    }
    BridgeError {
        code: ErrorCode::DeviceUnavailable,
        message_key: string_of(chars_of(key).as_slice()),
        detail: string_of(chars_of(detail).as_slice()),
    }
}

/// A file transfer in flight.
#[derive(Debug)]
pub struct ActiveTransfer {
    pub request_id: u64,
    pub target: DeviceTarget,
}

/// The request ids of the transfers, in table order.
pub open spec fn transfer_ids(transfers: Seq<ActiveTransfer>) -> Seq<u64> {
    transfers.map_values(|t: ActiveTransfer| t.request_id)
}

/// The table without the transfer of `request_id`.
pub open spec fn without_transfer(transfers: Seq<ActiveTransfer>, request_id: u64) -> Seq<ActiveTransfer>
    decreases transfers.len(),
{
    if transfers.len() == 0 {
        transfers
    } else {
        let rest = without_transfer(transfers.drop_last(), request_id);
        if transfers.last().request_id == request_id {
            rest
        } else {
            rest.push(transfers.last())
        }
    }
}

/// The ids of the transfers whose connection is gone, in table order.
pub open spec fn stale_ids(devices: Seq<DeviceRecord>, transfers: Seq<ActiveTransfer>) -> Seq<u64>
    decreases transfers.len(),
{
    if transfers.len() == 0 {
        Seq::empty()
    } else {
        let rest = stale_ids(devices, transfers.drop_last());
        if is_current_online(devices, transfers.last().target) {
            rest
        } else {
            rest.push(transfers.last().request_id)
        }
    }
}

/// The registry's device list, the transfers in flight and the forwarded
/// DevTools ports.
pub struct BackendState {
    pub devices: Vec<DeviceRecord>,
    pub transfers: Vec<ActiveTransfer>,
    pub forwards: Vec<u16>,
}

/// How a finished transfer is reported.
#[derive(Debug)]
pub enum TransferOutcome {
    Completed,
    Cancelled,
    Failed(BridgeError),
}

/// Which change a file mutation makes.
#[derive(Clone, Copy, Debug, PartialEq, Eq, Structural)]
pub enum MutationKind {
    CreateDirectory,
    Rename,
    DeleteFile,
}

/// What a finished transfer's result is reported as: cancellation is told
/// apart from failure by its error class.
pub open spec fn outcome_of(result: Result<(), BridgeError>) -> TransferOutcome {
    match result {
        Ok(()) => TransferOutcome::Completed,
        Err(e) => if e.code == ErrorCode::Cancelled {
            TransferOutcome::Cancelled
        } else {
            TransferOutcome::Failed(e)
        },
    }
}

/// Removing a request id leaves every other transfer, keeps the ids apart,
/// and changes nothing when the id is absent.
proof fn lemma_without_transfer(transfers: Seq<ActiveTransfer>, request_id: u64)
    ensures
        forall|j: int|
            0 <= j < without_transfer(transfers, request_id).len() ==> (#[trigger] without_transfer(
                transfers,
                request_id,
            )[j]).request_id != request_id && transfer_ids(transfers).contains(
                without_transfer(transfers, request_id)[j].request_id,
            ),
        transfer_ids(transfers).no_duplicates() ==> transfer_ids(
            without_transfer(transfers, request_id),
        ).no_duplicates(),
        !transfer_ids(transfers).contains(request_id) ==> without_transfer(transfers, request_id)
            == transfers,
    decreases transfers.len(),
{
    if transfers.len() > 0 {
        let init = transfers.drop_last();
        let last = transfers.last();
        lemma_without_transfer(init, request_id);
        let rest = without_transfer(init, request_id);
        assert(transfer_ids(init) =~= transfer_ids(transfers).drop_last());
        assert(transfer_ids(transfers)[transfers.len() - 1] == last.request_id);
        assert forall|k: int| 0 <= k < transfer_ids(init).len() implies transfer_ids(transfers).contains(
            #[trigger] transfer_ids(init)[k],
        ) by {
            assert(transfer_ids(transfers)[k] == transfer_ids(init)[k]);
        }
        if last.request_id != request_id {
            let w = rest.push(last);
            assert forall|j: int| 0 <= j < w.len() implies (#[trigger] w[j]).request_id != request_id
                && transfer_ids(transfers).contains(w[j].request_id) by {
                if j < rest.len() {
                    assert(w[j] == rest[j]);
                    assert(transfer_ids(init).contains(rest[j].request_id));
                    let k = choose|k: int| 0 <= k < transfer_ids(init).len() && transfer_ids(init)[k] == rest[j].request_id;
                    assert(transfer_ids(transfers)[k] == rest[j].request_id);
                } else {
                    assert(transfer_ids(transfers)[transfers.len() - 1] == w[j].request_id);
                }
            }
            if transfer_ids(transfers).no_duplicates() {
                assert(transfer_ids(init).no_duplicates());
                assert forall|a: int, b: int|
                    0 <= a < transfer_ids(w).len() && 0 <= b < transfer_ids(w).len() && a != b implies transfer_ids(
                    w,
                )[a] != transfer_ids(w)[b] by {
                    if a < rest.len() && b < rest.len() {
                        assert(transfer_ids(w)[a] == transfer_ids(rest)[a]);
                        assert(transfer_ids(w)[b] == transfer_ids(rest)[b]);
                    } else if a < rest.len() {
                        assert(transfer_ids(init).contains(rest[a].request_id));
                        let k = choose|k: int| 0 <= k < transfer_ids(init).len() && transfer_ids(init)[k] == rest[a].request_id;
                        assert(transfer_ids(transfers)[k] == transfer_ids(w)[a]);
                        assert(transfer_ids(transfers)[transfers.len() - 1] == transfer_ids(w)[b]);
                    } else if b < rest.len() {
                        assert(transfer_ids(init).contains(rest[b].request_id));
                        let k = choose|k: int| 0 <= k < transfer_ids(init).len() && transfer_ids(init)[k] == rest[b].request_id;
                        assert(transfer_ids(transfers)[k] == transfer_ids(w)[b]);
                        assert(transfer_ids(transfers)[transfers.len() - 1] == transfer_ids(w)[a]);
                    }
                }
            }
            if !transfer_ids(transfers).contains(request_id) {
                assert(!transfer_ids(init).contains(request_id)) by {
                    if transfer_ids(init).contains(request_id) {
                        let k = choose|k: int| 0 <= k < transfer_ids(init).len() && transfer_ids(init)[k] == request_id;
                        assert(transfer_ids(transfers)[k] == request_id);
                    }
                }
                assert(w =~= transfers);
            }
        } else {
            assert(transfer_ids(transfers).contains(request_id));
            assert forall|j: int| 0 <= j < rest.len() implies transfer_ids(transfers).contains(
                (#[trigger] rest[j]).request_id,
            ) by {
                assert(transfer_ids(init).contains(rest[j].request_id));
                let k = choose|k: int| 0 <= k < transfer_ids(init).len() && transfer_ids(init)[k] == rest[j].request_id;
                assert(transfer_ids(transfers)[k] == rest[j].request_id);
            }
            if transfer_ids(transfers).no_duplicates() {
                assert(transfer_ids(init).no_duplicates());
            }
        }
    }
}

/// Starting a transfer and then finishing it under the same id leaves the
/// table as removing the id alone would.
pub proof fn lemma_start_then_finish(transfers: Seq<ActiveTransfer>, request_id: u64, target: DeviceTarget)
    ensures
        without_transfer(
            without_transfer(transfers, request_id).push(ActiveTransfer { request_id, target }),
            request_id,
        ) == without_transfer(transfers, request_id),
{
    let w = without_transfer(transfers, request_id);
    assert(w.push(ActiveTransfer { request_id, target }).drop_last() =~= w);
    lemma_without_transfer(transfers, request_id);
    lemma_without_transfer(w, request_id);
    assert(!transfer_ids(w).contains(request_id)) by {
        if transfer_ids(w).contains(request_id) {
            let k = choose|k: int| 0 <= k < transfer_ids(w).len() && transfer_ids(w)[k] == request_id;
            assert(w[k].request_id == request_id);
        }
    }
}

fn remove_transfer(transfers: &Vec<ActiveTransfer>, request_id: u64) -> (kept: Vec<ActiveTransfer>)
    ensures
        kept@ == without_transfer(transfers@, request_id),
{
    let mut kept: Vec<ActiveTransfer> = Vec::new();
    let mut i: usize = 0;
    while i < transfers.len()
        invariant
            i <= transfers@.len(),
            kept@ == without_transfer(transfers@.take(i as int), request_id),
        decreases transfers.len() - i,
    {
        assert(transfers@.take(i + 1).drop_last() =~= transfers@.take(i as int));
        let t = &transfers[i];
        if t.request_id != request_id {
            kept.push(ActiveTransfer { request_id: t.request_id, target: t.target.duplicate() });
        }
        i = i + 1;
    }
    assert(transfers@.take(transfers.len() as int) =~= transfers@);
    kept
}

impl BackendState {
    /// No table holds the same request id or port twice.
    pub open spec fn wf(&self) -> bool {
        &&& transfer_ids(self.transfers@).no_duplicates()
        &&& self.forwards@.no_duplicates()
    }

    /// Nothing known, nothing in flight.
    pub fn new() -> (state: Self)
        ensures
            state.wf(),
            state.devices@.len() == 0,
            state.transfers@.len() == 0,
            state.forwards@.len() == 0,
    {
        let state = BackendState { devices: Vec::new(), transfers: Vec::new(), forwards: Vec::new() };
        assert(transfer_ids(state.transfers@) =~= Seq::<u64>::empty());
        state
    }

    /// Whether the request may go to adb: `Err` with the stale-target error
    /// exactly when `target` is not the current online connection.
    pub fn check_target(&self, target: &DeviceTarget) -> (checked: Result<(), BridgeError>)
        ensures
            checked is Ok <==> is_current_online(self.devices@, *target),
            checked matches Err(e) ==> is_stale_error(e),
    {
        if current_online(&self.devices, target) {
            Ok(())
        } else {
            Err(stale_target_error())
        }
    }

    /// Registers a transfer under `request_id` (replacing one with the same
    /// id) when its connection is current; otherwise nothing changes.
    pub fn start_transfer(&mut self, request_id: u64, target: DeviceTarget) -> (started: Result<(), BridgeError>)
        requires
            old(self).wf(),
        ensures
            final(self).wf(),
            started is Ok <==> is_current_online(old(self).devices@, target),
            started matches Err(e) ==> is_stale_error(e) && *final(self) == *old(self),
            started is Ok ==> final(self).devices == old(self).devices && final(self).forwards
                == old(self).forwards && final(self).transfers@ == without_transfer(
                old(self).transfers@,
                request_id,
            ).push(ActiveTransfer { request_id, target }),
    {
        let checked = self.check_target(&target);
        if checked.is_err() {
            return checked;
        }
        let mut kept = remove_transfer(&self.transfers, request_id);
        proof {
            lemma_without_transfer(self.transfers@, request_id);
        }
        let ghost before = kept@;
        kept.push(ActiveTransfer { request_id, target });
        proof {
            assert(transfer_ids(kept@) =~= transfer_ids(before).push(request_id));
            assert(!transfer_ids(before).contains(request_id)) by {
                if transfer_ids(before).contains(request_id) {
                    let k = choose|k: int| 0 <= k < transfer_ids(before).len() && transfer_ids(before)[k] == request_id;
                    assert(before[k].request_id == request_id);
                }
            }
        }
        self.transfers = kept;
        Ok(())
    }

    /// Forgets the transfer of `request_id` and says how its result is
    /// reported.
    pub fn finish_transfer(&mut self, request_id: u64, result: Result<(), BridgeError>) -> (outcome: TransferOutcome)
        requires
            old(self).wf(),
        ensures
            final(self).wf(),
            outcome == outcome_of(result),
            final(self).devices == old(self).devices,
            final(self).forwards == old(self).forwards,
            final(self).transfers@ == without_transfer(old(self).transfers@, request_id),
    {
        let kept = remove_transfer(&self.transfers, request_id);
        proof {
            lemma_without_transfer(self.transfers@, request_id);
        }
        self.transfers = kept;
        match result {
            Ok(()) => TransferOutcome::Completed,
            Err(error) => if error.code == ErrorCode::Cancelled {
                TransferOutcome::Cancelled
            } else {
                TransferOutcome::Failed(error)
            },
        }
    }

    /// Whether a transfer runs under `request_id` (a cancel request only
    /// reaches running transfers).
    pub fn is_transfer_active(&self, request_id: u64) -> (active: bool)
        ensures
            active == transfer_ids(self.transfers@).contains(request_id),
    {
        let mut i: usize = 0;
        while i < self.transfers.len()
            invariant
                i <= self.transfers@.len(),
                forall|k: int| 0 <= k < i ==> self.transfers@[k].request_id != request_id,
            decreases self.transfers.len() - i,
        {
            if self.transfers[i].request_id == request_id {
                assert(transfer_ids(self.transfers@)[i as int] == request_id);
                return true;
            }
            i = i + 1;
        }
        proof {
            if transfer_ids(self.transfers@).contains(request_id) {
                let k = choose|k: int| 0 <= k < transfer_ids(self.transfers@).len() && transfer_ids(self.transfers@)[k] == request_id;
                assert(self.transfers@[k].request_id == request_id);
            }
        }
        false
    }

    /// The transfers to cancel after the device list changed: those whose
    /// connection is no longer current and online.
    pub fn stale_transfers(&self) -> (ids: Vec<u64>)
        ensures
            ids@ == stale_ids(self.devices@, self.transfers@),
    {
        let mut ids: Vec<u64> = Vec::new();
        let mut i: usize = 0;
        while i < self.transfers.len()
            invariant
                i <= self.transfers@.len(),
                ids@ == stale_ids(self.devices@, self.transfers@.take(i as int)),
            decreases self.transfers.len() - i,
        {
            assert(self.transfers@.take(i + 1).drop_last() =~= self.transfers@.take(i as int));
            if !current_online(&self.devices, &self.transfers[i].target) {
                ids.push(self.transfers[i].request_id);
            }
            i = i + 1;
        }
        assert(self.transfers@.take(self.transfers.len() as int) =~= self.transfers@);
        ids
    }

    /// Hands out every forwarded port for removal (a new socket search
    /// starts clean) and forgets them.
    pub fn take_forwards(&mut self) -> (ports: Vec<u16>)
        requires
            old(self).wf(),
        ensures
            final(self).wf(),
            ports@ == old(self).forwards@,
            final(self).forwards@.len() == 0,
            final(self).devices == old(self).devices,
            final(self).transfers == old(self).transfers,
    {
        let mut ports: Vec<u16> = Vec::new();
        std::mem::swap(&mut ports, &mut self.forwards);
        ports
    }

    /// Remembers a port whose DevTools page list was fetched through it,
    /// once.
    pub fn track_forward(&mut self, port: u16)
        requires
            old(self).wf(),
        ensures
            final(self).wf(),
            final(self).forwards@ == if old(self).forwards@.contains(port) {
                old(self).forwards@
            } else {
                old(self).forwards@.push(port)
            },
            final(self).devices == old(self).devices,
            final(self).transfers == old(self).transfers,
    {
        let mut i: usize = 0;
        while i < self.forwards.len()
            invariant
                i <= self.forwards@.len(),
                *self == *old(self),
                self.wf(),
                forall|k: int| 0 <= k < i ==> self.forwards@[k] != port,
            decreases self.forwards.len() - i,
        {
            if self.forwards[i] == port {
                assert(self.forwards@.contains(port));
                return;
            }
            i = i + 1;
        }
        assert(!self.forwards@.contains(port));
        let mut ports: Vec<u16> = Vec::new();
        std::mem::swap(&mut ports, &mut self.forwards);
        ports.push(port);
        self.forwards = ports;
    }

    /// Whether a file mutation may run: the connection must be current,
    /// a delete must be confirmed and a rename must name its destination.
    pub fn check_mutation(&self, target: &DeviceTarget, kind: MutationKind, confirmed: bool, has_destination: bool) -> (checked: Result<(), BridgeError>)
        ensures
            !is_current_online(self.devices@, *target) ==> (checked matches Err(e) && is_stale_error(e)),
            is_current_online(self.devices@, *target) && kind == MutationKind::DeleteFile && !confirmed
                ==> (checked matches Err(e) && e.code == ErrorCode::InvalidInput && e.message_key@
                == "file.delete_confirmation_required"@ && e.detail@.len() == 0),
            is_current_online(self.devices@, *target) && kind == MutationKind::Rename && !has_destination
                ==> (checked matches Err(e) && e.code == ErrorCode::InvalidInput && e.message_key@
                == "file.rename_destination_missing"@ && e.detail@.len() == 0),
            checked is Ok <==> is_current_online(self.devices@, *target) && !(kind
                == MutationKind::DeleteFile && !confirmed) && !(kind == MutationKind::Rename
                && !has_destination),
    {
        let online = self.check_target(target);
        if online.is_err() {
            return online;
        }
        if kind == MutationKind::DeleteFile && !confirmed {
            let key = "file.delete_confirmation_required";
            proof {
                reveal_strlit("file.delete_confirmation_required");
            }
            return Err(BridgeError::invalid_input(key));
        }
        if kind == MutationKind::Rename && !has_destination {
            let key = "file.rename_destination_missing";
            proof {
                reveal_strlit("file.rename_destination_missing");
            }
            return Err(BridgeError::invalid_input(key));
        }
        Ok(())
    }
}

/// Keyboard input for a shell goes straight to the session's input queue;
/// input that reaches the backend's control queue instead is refused: the
/// session is reported failed.
pub fn misrouted_shell_input(session_id: u64) -> (report: ShellEvent)
    ensures
        report matches ShellEvent::Failed { session_id: id, error } && id == session_id && error.code
            == ErrorCode::Internal && error.message_key@ == "shell.input_routing_failed"@
            && error.detail@ == "shell input reached the control queue"@,
{
    let key = "shell.input_routing_failed";
    let detail = "shell input reached the control queue";
    proof {
        reveal_strlit("shell.input_routing_failed");
        reveal_strlit("shell input reached the control queue");
    }
    ShellEvent::Failed {
        session_id,
        error: BridgeError {
            code: ErrorCode::Internal,
            message_key: string_of(chars_of(key).as_slice()),
            detail: string_of(chars_of(detail).as_slice()),
        },
    }
}

/// The selected serial of a device list when that device is listed online.
pub open spec fn selected_online(snapshot: DeviceSnapshot) -> Option<Seq<char>> {
    match snapshot.selected {
        Some(s) => match find_serial(snapshot.devices@, s@) {
            Some(r) => if r.state == DeviceState::Online {
                Some(s@)
            } else {
                None
            },
            None => None,
        },
        None => None,
    }
}

/// After a device-list refresh, the overview is loaded again when the same
/// device stays selected and online: the serial to load, if any.
pub fn overview_to_reload(selected_before: &Option<String>, snapshot: &DeviceSnapshot) -> (serial: Option<String>)
    ensures
        serial_view(serial) == (if serial_view(*selected_before) == selected_online(*snapshot) {
            selected_online(*snapshot)
        } else {
            None
        }),
{
    let online = match &snapshot.selected {
        Some(s) => match find_device(&snapshot.devices, s) {
            Some(record) => if record.state == DeviceState::Online {
                Some(s.clone())
            } else {
                None
            },
            None => None,
        },
        None => None,
    };
    let same = match (selected_before, &online) {
        (Some(a), Some(b)) => *a == *b,
        (None, None) => true,
        _ => false,
    };
    if same {
        online
    } else {
        None
    }
}

/// What `image` makes of PNG bytes: width, height and RGBA8 pixels, or the
/// decoder's message.
pub uninterp spec fn png_decoding(png: Seq<u8>) -> Result<(u32, u32, Seq<u8>), Seq<char>>;

/// A decoding result as plain values.
pub open spec fn decoding_view(decoded: Result<(u32, u32, Vec<u8>), String>) -> Result<(u32, u32, Seq<u8>), Seq<char>> {
    match decoded {
        Ok((w, h, pixels)) => Ok((w, h, pixels@)),
        Err(message) => Err(message@),
    }
}

/// Decodes PNG bytes with `image::ImageReader::with_format` (PNG, the
/// crate's default limits) and `DynamicImage::to_rgba8`; an error becomes
/// the decoder's message. Trusted: the result is `png_decoding` of the
/// bytes; nothing is claimed about which bytes decode.
#[verifier::external_body]
fn decode_png(png: &[u8]) -> (decoded: Result<(u32, u32, Vec<u8>), String>)
    ensures
        decoding_view(decoded) == png_decoding(png@),
{
    match image::ImageReader::with_format(std::io::Cursor::new(png), image::ImageFormat::Png).decode() {
        Ok(image) => Ok((image.width(), image.height(), image.to_rgba8().into_raw())),
        Err(error) => Err(error.to_string()),
    }
}

/// A decoded screenshot: RGBA8 pixels, row by row.
#[derive(Debug)]
pub struct ScreenshotImage {
    pub width: u32,
    pub height: u32,
    pub rgba: Vec<u8>,
}

/// Whether a screenshot of this size is accepted.
pub open spec fn within_screenshot_limits(width: u32, height: u32) -> bool {
    &&& width <= MAX_SCREENSHOT_DIMENSION
    &&& height <= MAX_SCREENSHOT_DIMENSION
    &&& width * height <= MAX_SCREENSHOT_PIXELS
}

/// `{width}x{height}`.
pub open spec fn dimensions_text(width: u32, height: u32) -> Seq<char> {
    decimal(width as nat) + seq!['x'] + decimal(height as nat)
}

/// What a decoding result is shown as (see `screenshot_from_decoding`).
pub open spec fn screenshot_result(decoded: Result<(u32, u32, Seq<u8>), Seq<char>>, image: Result<ScreenshotImage, BridgeError>) -> bool {
    match decoded {
        Err(message) => image matches Err(e) && e.code == ErrorCode::InvalidInput && e.message_key@
            == "screenshot.decode_failed"@ && e.detail@ == message,
        Ok((w, h, pixels)) => if within_screenshot_limits(w, h) {
            image matches Ok(i) && i.width == w && i.height == h && i.rgba@ == pixels
        } else {
            image matches Err(e) && e.code == ErrorCode::OutputLimit && e.message_key@
                == "screenshot.dimensions_too_large"@ && e.detail@ == dimensions_text(w, h)
        },
    }
}

/// Turns a decoding result into the screenshot shown: an undecodable
/// capture and one past the size limits are refused.
pub fn screenshot_from_decoding(decoded: Result<(u32, u32, Vec<u8>), String>) -> (image: Result<ScreenshotImage, BridgeError>)
    ensures
        screenshot_result(decoding_view(decoded), image),
{
    match decoded {
        Err(message) => {
            let key = "screenshot.decode_failed";
            proof {
                reveal_strlit("screenshot.decode_failed");
            }
            Err(BridgeError {
                code: ErrorCode::InvalidInput,
                message_key: string_of(chars_of(key).as_slice()),
                detail: message,
            })
        },
        Ok((width, height, rgba)) => {
            assert((width as u64) * (height as u64) <= u64::MAX) by (nonlinear_arith)
                requires
                    width <= u32::MAX,
                    height <= u32::MAX,
            ;
            let pixels: u64 = (width as u64) * (height as u64);
            if width > MAX_SCREENSHOT_DIMENSION || height > MAX_SCREENSHOT_DIMENSION || pixels > MAX_SCREENSHOT_PIXELS {
                let key = "screenshot.dimensions_too_large";
                proof {
                    reveal_strlit("screenshot.dimensions_too_large");
                }
                let mut detail = String::new();
                push_chars(&mut detail, decimal_chars(width as u64).as_slice());
                push_char(&mut detail, 'x');
                push_chars(&mut detail, decimal_chars(height as u64).as_slice());
                assert(detail@ =~= dimensions_text(width, height));
                Err(BridgeError {
                    code: ErrorCode::OutputLimit,
                    message_key: string_of(chars_of(key).as_slice()),
                    detail,
                })
            } else {
                Ok(ScreenshotImage { width, height, rgba })
            }
        },
    }
}

/// Decodes a captured PNG and applies the size limits.
pub fn decode_screenshot(png: &[u8]) -> (image: Result<ScreenshotImage, BridgeError>)
    ensures
        screenshot_result(png_decoding(png@), image),
{
    screenshot_from_decoding(decode_png(png))
}

} // verus!
