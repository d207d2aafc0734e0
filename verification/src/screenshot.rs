//! Screenshots of the selected device: capture requests matched back by id,
//! what a captured image brings (pixels, PNG bytes or both), and the file
//! name a saved PNG gets.

use vstd::prelude::*;

use crate::device::{target_view, BridgeError, DeviceRecord, DeviceState, DeviceTarget, ErrorCode};
use crate::text::{chars_of, decimal, decimal_chars, push_chars, string_of};

verus! {

/// How the captured image is laid out.
#[derive(Clone, Copy, Debug, PartialEq, Eq, Structural)]
pub enum DisplayMode {
    Fit,
    Actual,
}

/// Which encoding the device is asked for.
#[derive(Clone, Copy, Debug, PartialEq, Eq, Structural)]
pub enum ScreenshotFormat {
    RawPng,
    DecodedRgba8,
}

/// What a capture delivered.
pub enum ScreenshotData {
    DecodedRgba8 { width: u32, height: u32, rgba: Vec<u8> },
    RawPng(Vec<u8>),
    DecodedWithPng { width: u32, height: u32, rgba: Vec<u8>, png: Vec<u8> },
}

/// Backend requests of the screenshot panel.
pub enum ScreenshotCommand {
    CaptureScreenshot { target: DeviceTarget, request_id: u64, format: ScreenshotFormat },
}

/// Backend reports the screenshot panel reacts to.
pub enum ScreenshotEvent {
    ScreenshotLoading { target: DeviceTarget, request_id: u64 },
    ScreenshotCaptured { target: DeviceTarget, request_id: u64, data: ScreenshotData },
    ScreenshotFailed { target: DeviceTarget, request_id: u64, error: BridgeError },
}

/// The screenshot panel. The decoded picture itself (texture and clipboard
/// image) lives with the application shell.
pub struct ScreenshotPanelState {
    pub target: Option<DeviceTarget>,
    pub request_id: Option<u64>,
    pub loading: bool,
    pub error: Option<BridgeError>,
    /// The PNG bytes of the last capture, when the device sent them.
    pub raw_png: Option<Vec<u8>>,
    /// Width and height of the last decoded capture.
    pub dimensions: Option<(usize, usize)>,
    pub display_mode: DisplayMode,
    pub saved_path: Option<String>,
}

impl Default for ScreenshotPanelState {
    fn default() -> (state: Self)
        ensures
            state.target is None,
            state.request_id is None,
            !state.loading,
            state.error is None,
            state.raw_png is None,
            state.dimensions is None,
            state.display_mode == DisplayMode::Fit,
            state.saved_path is None,
    {
        ScreenshotPanelState {
            target: None,
            request_id: None,
            loading: false,
            error: None,
            raw_png: None,
            dimensions: None,
            display_mode: DisplayMode::Fit,
            saved_path: None,
        }
    }
}

/// Whether a report answers the capture in flight on the current device.
pub open spec fn answers(state: ScreenshotPanelState, target: DeviceTarget, request_id: u64) -> bool {
    target_view(state.target) == Some(target@) && state.request_id == Some(request_id)
}

fn copy_bytes(bytes: &Vec<u8>) -> (copy: Vec<u8>)
    ensures
        copy@ == bytes@,
{
    let mut copy: Vec<u8> = Vec::new();
    let mut k: usize = 0;
    while k < bytes.len()
        invariant
            k <= bytes@.len(),
            copy@ == bytes@.take(k as int),
        decreases bytes@.len() - k,
    {
        copy.push(bytes[k]);
        k = k + 1;
        assert(copy@ =~= bytes@.take(k as int));
    }
    assert(bytes@.take(bytes@.len() as int) =~= bytes@);
    copy
}

/// The file name a PNG saved at `timestamp` (seconds since the epoch) gets.
pub open spec fn screenshot_file_text(timestamp: u64) -> Seq<char> {
    "bridgescope-"@ + decimal(timestamp as nat) + ".png"@
}

/// `bridgescope-<timestamp>.png`.
pub fn screenshot_file_name(timestamp: u64) -> (name: String)
    ensures
        name@ == screenshot_file_text(timestamp),
{
    let mut name = string_of(chars_of("bridgescope-").as_slice());
    push_chars(&mut name, decimal_chars(timestamp).as_slice());
    push_chars(&mut name, chars_of(".png").as_slice());
    name
}

impl ScreenshotPanelState {
    /// Follows the selected device: another device drops the capture in
    /// flight, the error and everything captured. Returns whether it did, so
    /// the shell drops the picture too.
    pub fn reconcile_target(&mut self, selected: Option<&DeviceRecord>) -> (cleared: bool)
        ensures
            ({
                let wanted = match selected {
                    Some(r) => Some((r.serial@, r.generation)),
                    None => None,
                };
                &&& cleared == (target_view(old(self).target) != wanted)
                &&& !cleared ==> *final(self) == *old(self)
                &&& cleared ==> {
                    &&& target_view(final(self).target) == wanted
                    &&& *final(self) == (ScreenshotPanelState {
                        target: final(self).target,
                        request_id: None,
                        loading: false,
                        error: None,
                        raw_png: None,
                        dimensions: None,
                        saved_path: None,
                        ..*old(self)
                    })
                }
            }),
    {
        let target = match selected {
            Some(record) => Some(record.target()),
            None => None,
        };
        if crate::device::same_target(&self.target, &target) {
            return false;
        }
        self.target = target;
        self.request_id = None;
        self.loading = false;
        self.error = None;
        self.raw_png = None;
        self.dimensions = None;
        self.saved_path = None;
        true
    }

    /// Applies one backend report about the capture in flight; reports for
    /// another device or request are ignored. Returns whether the report
    /// carries a decoded picture for the shell to show.
    pub fn handle_event(&mut self, event: &ScreenshotEvent) -> (picture: bool)
        ensures
            match event {
                ScreenshotEvent::ScreenshotLoading { target, request_id } => !picture && if answers(
                    *old(self),
                    *target,
                    *request_id,
                ) {
                    *final(self) == (ScreenshotPanelState { loading: true, error: None, ..*old(self) })
                } else {
                    *final(self) == *old(self)
                },
                ScreenshotEvent::ScreenshotCaptured { target, request_id, data } => if answers(
                    *old(self),
                    *target,
                    *request_id,
                ) {
                    match data {
                        ScreenshotData::DecodedRgba8 { width, height, .. } => picture && *final(self)
                            == (ScreenshotPanelState {
                            loading: false,
                            error: None,
                            dimensions: Some((*width as usize, *height as usize)),
                            ..*old(self)
                        }),
                        ScreenshotData::RawPng(png) => {
                            &&& !picture
                            &&& final(self).raw_png matches Some(bytes) && bytes@ == png@
                            &&& *final(self) == (ScreenshotPanelState {
                                loading: false,
                                error: None,
                                raw_png: final(self).raw_png,
                                ..*old(self)
                            })
                        },
                        ScreenshotData::DecodedWithPng { width, height, png, .. } => {
                            &&& picture
                            &&& final(self).raw_png matches Some(bytes) && bytes@ == png@
                            &&& *final(self) == (ScreenshotPanelState {
                                loading: false,
                                error: None,
                                dimensions: Some((*width as usize, *height as usize)),
                                raw_png: final(self).raw_png,
                                ..*old(self)
                            })
                        },
                    }
                } else {
                    !picture && *final(self) == *old(self)
                },
                ScreenshotEvent::ScreenshotFailed { target, request_id, error } => !picture && if answers(
                    *old(self),
                    *target,
                    *request_id,
                ) {
                    *final(self) == (ScreenshotPanelState {
                        loading: false,
                        error: Some(*error),
                        ..*old(self)
                    })
                } else {
                    *final(self) == *old(self)
                },
            },
    {
        match event {
            ScreenshotEvent::ScreenshotLoading { target, request_id } => {
                if crate::device::is_target(&self.target, target) && self.request_id == Some(*request_id) {
                    self.loading = true;
                    self.error = None;
                }
                false
            },
            ScreenshotEvent::ScreenshotCaptured { target, request_id, data } => {
                if !(crate::device::is_target(&self.target, target) && self.request_id == Some(
                    *request_id,
                )) {
                    return false;
                }
                self.loading = false;
                self.error = None;
                match data {
                    ScreenshotData::DecodedRgba8 { width, height, .. } => {
                        self.dimensions = Some((*width as usize, *height as usize));
                        true
                    },
                    ScreenshotData::RawPng(png) => {
                        self.raw_png = Some(copy_bytes(png));
                        false
                    },
                    ScreenshotData::DecodedWithPng { width, height, png, .. } => {
                        self.dimensions = Some((*width as usize, *height as usize));
                        self.raw_png = Some(copy_bytes(png));
                        true
                    },
                }
            },
            ScreenshotEvent::ScreenshotFailed { target, request_id, error } => {
                if crate::device::is_target(&self.target, target) && self.request_id == Some(*request_id) {
                    self.loading = false;
                    self.error = Some(error.duplicate());
                }
                false
            },
        }
    }

    /// Asks the current device for a PNG screenshot under `request_id`.
    pub fn capture(&mut self, request_id: u64) -> (command: Option<ScreenshotCommand>)
        ensures
            match old(self).target {
                Some(t) => {
                    &&& command matches Some(
                        ScreenshotCommand::CaptureScreenshot { target, request_id: id, format },
                    ) && target@ == t@ && id == request_id && format == ScreenshotFormat::RawPng
                    &&& *final(self) == (ScreenshotPanelState {
                        request_id: Some(request_id),
                        loading: true,
                        error: None,
                        ..*old(self)
                    })
                },
                None => command is None && *final(self) == *old(self),
            },
    {
        let target = match &self.target {
            Some(t) => t.duplicate(),
            None => {
                return None;
            },
        };
        self.request_id = Some(request_id);
        self.loading = true;
        self.error = None;
        Some(ScreenshotCommand::CaptureScreenshot { target, request_id, format: ScreenshotFormat::RawPng })
    }

    /// The capture button: enabled for an online device while no capture is
    /// under way.
    pub fn capture_clicked(&mut self, selected: Option<&DeviceRecord>, request_id: u64) -> (command: Option<
        ScreenshotCommand,
    >)
        ensures
            !(selected matches Some(r) && r.state == DeviceState::Online && !old(self).loading)
                ==> command is None && *final(self) == *old(self),
            (selected matches Some(r) && r.state == DeviceState::Online && !old(self).loading) ==> match old(
                self,
            ).target {
                Some(t) => (command matches Some(ScreenshotCommand::CaptureScreenshot { target, request_id: id, .. })
                    && target@ == t@ && id == request_id) && final(self).loading,
                None => command is None && *final(self) == *old(self),
            },
    {
        let online = match selected {
            Some(record) => record.state == DeviceState::Online,
            None => false,
        };
        if !online || self.loading {
            return None;
        }
        self.capture(request_id)
    }

    /// Records where the PNG was saved.
    pub fn saved_to(&mut self, path: String)
        ensures
            *final(self) == (ScreenshotPanelState { saved_path: Some(path), ..*old(self) }),
    {
        self.saved_path = Some(path);
    }

    /// Reports a failed save with the reason the file system gave.
    pub fn save_failed(&mut self, reason: String)
        ensures
            final(self).error matches Some(e) && e.code == ErrorCode::Internal && e.message_key@
                == "screenshot.save_failed"@ && e.detail == reason,
            *final(self) == (ScreenshotPanelState { error: final(self).error, ..*old(self) }),
    {
        self.error = Some(
            BridgeError {
                code: ErrorCode::Internal,
                message_key: string_of(chars_of("screenshot.save_failed").as_slice()),
                detail: reason,
            },
        );
    }
}

} // verus!
