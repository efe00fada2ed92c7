//! Decoding of X11 protocol errors into a typed taxonomy.
//!
//! Each known error domain (the core protocol and a set of extensions) owns a
//! contiguous range of 8-bit error codes. The server assigns the base of each
//! extension's range; [`XcbErrorParser`] records the ranges of one connection
//! and dispatches a raw error to the decoder of the domain whose range holds
//! its code.

use crate::bytes::bytes_eq;
use vstd::prelude::*;
use vstd::string::StringSliceAdditionalSpecFns;

verus! {

/// A raw protocol error as the transport hands it over (32 bytes on the wire).
#[derive(Clone, Copy, Debug)]
pub struct XcbGenericError {
    pub response_type: u8,
    pub error_code: u8,
    pub sequence: u16,
    /// The 32-bit field at byte offset 4; most errors carry their offending
    /// value here.
    pub resource_id: u32,
    pub minor_code: u16,
    pub major_code: u8,
    pub pad0: u8,
    pub pad: [u32; 5],
    pub full_sequence: u32,
}

/// A classified protocol error together with the header fields of the raw error.
#[derive(Clone, Debug)]
pub struct XcbError {
    pub error_code: u8,
    pub sequence: u32,
    pub major: u8,
    pub minor: u16,
    pub ty: XcbErrorType,
}

/// Faults of the connection itself, as the transport reports them.
#[derive(Clone, Copy, Debug, PartialEq, Eq, Structural)]
#[non_exhaustive]
pub enum XcbConnectionError {
    Unknown(i32),
    Io,
    UnsupportedExtension,
    OutOfMemory,
    MessageLength,
    DisplayString,
    InvalidScreen,
    FileDescriptors,
}

#[derive(Clone, Debug)]
#[non_exhaustive]
pub enum XcbErrorType {
    /// No known domain claims the error code; the raw error is kept verbatim.
    Unknown(XcbGenericError),
    MissingReply,
    Connection(XcbConnectionError),
    Core(CoreError),
    Xv(XvError),
    Xfixes(XfixesError),
    Shm(ShmError),
    Damage(DamageError),
    XPrint(XPrintError),
    Randr(RandrError),
    Render(RenderError),
    Sync(SyncError),
    Record(RecordError),
    Xkb(XkbError),
    Glx(GlxError),
    Input(InputError),
}

#[derive(Clone, Copy, Debug, PartialEq, Eq, Structural)]
pub struct CoreError {
    pub major_opcode: u8,
    pub minor_opcode: u16,
    pub ty: CoreErrorType,
}

#[derive(Clone, Copy, Debug, PartialEq, Eq, Structural)]
pub struct RequestError {
    pub bad_value: u32,
}

#[derive(Clone, Copy, Debug, PartialEq, Eq, Structural)]
pub struct ValueError {
    pub bad_value: u32,
}

#[derive(Clone, Copy, Debug, PartialEq, Eq, Structural)]
pub enum CoreErrorType {
    Request(RequestError),
    Value(ValueError),
    Window(ValueError),
    Pixmap(ValueError),
    Atom(ValueError),
    Cursor(ValueError),
    Font(ValueError),
    Match(RequestError),
    Drawable(ValueError),
    Access(RequestError),
    Alloc(RequestError),
    Colormap(ValueError),
    GContext(ValueError),
    IDChoice(ValueError),
    Name(RequestError),
    Length(RequestError),
    Implementation(RequestError),
}

#[derive(Clone, Copy, Debug, PartialEq, Eq, Structural)]
pub enum XvError {
    BadPort,
    BadEncoding,
    BadControl,
}

#[derive(Clone, Copy, Debug, PartialEq, Eq, Structural)]
pub enum XfixesError {
    BadRegion,
}

#[derive(Clone, Copy, Debug, PartialEq, Eq, Structural)]
pub struct ShmError {
    pub major_opcode: u8,
    pub minor_opcode: u16,
    pub ty: ShmErrorType,
}

#[derive(Clone, Copy, Debug, PartialEq, Eq, Structural)]
pub enum ShmErrorType {
    BadSeg(ValueError),
}

#[derive(Clone, Copy, Debug, PartialEq, Eq, Structural)]
pub enum DamageError {
    BadDamage,
}

#[derive(Clone, Copy, Debug, PartialEq, Eq, Structural)]
pub enum XPrintError {
    BadContext,
    BadSequence,
}

#[derive(Clone, Copy, Debug, PartialEq, Eq, Structural)]
pub enum RandrError {
    BadOutput,
    BadCrtc,
    BadMode,
    BadProvider,
}

#[derive(Clone, Copy, Debug, PartialEq, Eq, Structural)]
pub enum RenderError {
    PictFormat,
    Picture,
    PictOp,
    GlyphSet,
    Glyph,
}

#[derive(Clone, Copy, Debug, PartialEq, Eq, Structural)]
pub struct CounterError {
    pub bad_counter: u32,
}

#[derive(Clone, Copy, Debug, PartialEq, Eq, Structural)]
pub struct AlarmError {
    pub bad_alarm: u32,
}

#[derive(Clone, Copy, Debug, PartialEq, Eq, Structural)]
pub struct SyncError {
    pub major_opcode: u8,
    pub minor_opcode: u16,
    pub ty: SyncErrorType,
}

#[derive(Clone, Copy, Debug, PartialEq, Eq, Structural)]
pub enum SyncErrorType {
    Counter(CounterError),
    Alarm(AlarmError),
}

#[derive(Clone, Copy, Debug, PartialEq, Eq, Structural)]
pub struct BadContext {
    pub invalid_record: u32,
}

#[derive(Clone, Copy, Debug, PartialEq, Eq, Structural)]
pub enum RecordError {
    BadContext(BadContext),
}

/// Bit value of [`XkbKeyboardError`] for a bad device.
pub const XKB_BAD_DEVICE: u32 = 255;

/// Bit value of [`XkbKeyboardError`] for a bad class.
pub const XKB_BAD_CLASS: u32 = 254;

/// Bit value of [`XkbKeyboardError`] for a bad id.
pub const XKB_BAD_ID: u32 = 253;

/// The raw value field of an XKEYBOARD keyboard error.
#[derive(Clone, Copy, Debug, PartialEq, Eq, Structural)]
pub struct XkbKeyboardError {
    pub bits: u32,
}

#[derive(Clone, Copy, Debug, PartialEq, Eq, Structural)]
pub struct XkbError {
    pub major_opcode: u8,
    pub minor_opcode: u16,
    pub ty: XkbErrorType,
}

#[derive(Clone, Copy, Debug, PartialEq, Eq, Structural)]
pub enum XkbErrorType {
    Keyboard(XkbKeyboardError),
}

#[derive(Clone, Copy, Debug, PartialEq, Eq, Structural)]
pub struct GenericError {
    pub bad_value: u32,
}

#[derive(Clone, Copy, Debug, PartialEq, Eq, Structural)]
pub struct GlxError {
    pub major_opcode: u8,
    pub minor_opcode: u16,
    pub ty: GlxErrorType,
}

#[derive(Clone, Copy, Debug, PartialEq, Eq, Structural)]
pub enum GlxErrorType {
    BadContext(GenericError),
    BadContextState(GenericError),
    BadDrawable(GenericError),
    BadPixmap(GenericError),
    BadContextTag(GenericError),
    BadCurrentWindow(GenericError),
    BadRenderRequest(GenericError),
    BadLargeRequest(GenericError),
    UnsupportedPrivateRequest(GenericError),
    BadFBConfig(GenericError),
    BadPbuffer(GenericError),
    BadCurrentDrawable(GenericError),
    BadWindow(GenericError),
    GLXBadProfileARB(GenericError),
}

#[derive(Clone, Copy, Debug, PartialEq, Eq, Structural)]
pub enum InputError {
    Device,
    Event,
    Mode,
    DeviceBusy,
    Class,
}


impl XcbErrorType {
    /// The error that wraps this kind, with zeroed header fields.
    pub open spec fn spec_into_error(self) -> XcbError {
        XcbError { error_code: 0, sequence: 0, major: 0, minor: 0, ty: self }
    }
}

impl From<XcbErrorType> for XcbError {
    fn from(e: XcbErrorType) -> (r: XcbError)
        ensures
            r == e.spec_into_error(),
    {
        XcbError { error_code: 0, sequence: 0, major: 0, minor: 0, ty: e }
    }
}

impl vstd::std_specs::convert::FromSpecImpl<XcbErrorType> for XcbError {
    open spec fn obeys_from_spec() -> bool {
        true
    }

    open spec fn from_spec(v: XcbErrorType) -> XcbError {
        v.spec_into_error()
    }
}

/// The connection fault that the transport reports with status `code`.
pub open spec fn connection_error(code: i32) -> XcbConnectionError {
    match code {
        1 => XcbConnectionError::Io,
        2 => XcbConnectionError::UnsupportedExtension,
        3 => XcbConnectionError::OutOfMemory,
        4 => XcbConnectionError::MessageLength,
        5 => XcbConnectionError::DisplayString,
        6 => XcbConnectionError::InvalidScreen,
        7 => XcbConnectionError::FileDescriptors,
        _ => XcbConnectionError::Unknown(code),
    }
}

impl From<i32> for XcbConnectionError {
    fn from(code: i32) -> (r: XcbConnectionError)
        ensures
            r == connection_error(code),
    {
        match code {
            1 => XcbConnectionError::Io,
            2 => XcbConnectionError::UnsupportedExtension,
            3 => XcbConnectionError::OutOfMemory,
            4 => XcbConnectionError::MessageLength,
            5 => XcbConnectionError::DisplayString,
            6 => XcbConnectionError::InvalidScreen,
            7 => XcbConnectionError::FileDescriptors,
            _ => XcbConnectionError::Unknown(code),
        }
    }
}

impl vstd::std_specs::convert::FromSpecImpl<i32> for XcbConnectionError {
    open spec fn obeys_from_spec() -> bool {
        true
    }

    open spec fn from_spec(v: i32) -> XcbConnectionError {
        connection_error(v)
    }
}

/// The core error kind with local code `code` and offending value `v`.
pub open spec fn core_error_type(code: u8, v: u32) -> CoreErrorType {
    match code {
        0 => CoreErrorType::Request(RequestError { bad_value: v }),
        1 => CoreErrorType::Value(ValueError { bad_value: v }),
        2 => CoreErrorType::Window(ValueError { bad_value: v }),
        3 => CoreErrorType::Pixmap(ValueError { bad_value: v }),
        4 => CoreErrorType::Atom(ValueError { bad_value: v }),
        5 => CoreErrorType::Cursor(ValueError { bad_value: v }),
        6 => CoreErrorType::Font(ValueError { bad_value: v }),
        7 => CoreErrorType::Match(RequestError { bad_value: v }),
        8 => CoreErrorType::Drawable(ValueError { bad_value: v }),
        9 => CoreErrorType::Access(RequestError { bad_value: v }),
        10 => CoreErrorType::Alloc(RequestError { bad_value: v }),
        11 => CoreErrorType::Colormap(ValueError { bad_value: v }),
        12 => CoreErrorType::GContext(ValueError { bad_value: v }),
        13 => CoreErrorType::IDChoice(ValueError { bad_value: v }),
        14 => CoreErrorType::Name(RequestError { bad_value: v }),
        15 => CoreErrorType::Length(RequestError { bad_value: v }),
        _ => CoreErrorType::Implementation(RequestError { bad_value: v }),
    }
}

fn decode_core_type(code: u8, v: u32) -> (r: CoreErrorType)
    requires
        code < 17,
    ensures
        r == core_error_type(code, v),
{
    match code {
        0 => CoreErrorType::Request(RequestError { bad_value: v }),
        1 => CoreErrorType::Value(ValueError { bad_value: v }),
        2 => CoreErrorType::Window(ValueError { bad_value: v }),
        3 => CoreErrorType::Pixmap(ValueError { bad_value: v }),
        4 => CoreErrorType::Atom(ValueError { bad_value: v }),
        5 => CoreErrorType::Cursor(ValueError { bad_value: v }),
        6 => CoreErrorType::Font(ValueError { bad_value: v }),
        7 => CoreErrorType::Match(RequestError { bad_value: v }),
        8 => CoreErrorType::Drawable(ValueError { bad_value: v }),
        9 => CoreErrorType::Access(RequestError { bad_value: v }),
        10 => CoreErrorType::Alloc(RequestError { bad_value: v }),
        11 => CoreErrorType::Colormap(ValueError { bad_value: v }),
        12 => CoreErrorType::GContext(ValueError { bad_value: v }),
        13 => CoreErrorType::IDChoice(ValueError { bad_value: v }),
        14 => CoreErrorType::Name(RequestError { bad_value: v }),
        15 => CoreErrorType::Length(RequestError { bad_value: v }),
        _ => CoreErrorType::Implementation(RequestError { bad_value: v }),
    }
}

/// The GLX error kind with local code `code` and offending value `v`.
pub open spec fn glx_error_type(code: u8, v: u32) -> GlxErrorType {
    match code {
        0 => GlxErrorType::BadContext(GenericError { bad_value: v }),
        1 => GlxErrorType::BadContextState(GenericError { bad_value: v }),
        2 => GlxErrorType::BadDrawable(GenericError { bad_value: v }),
        3 => GlxErrorType::BadPixmap(GenericError { bad_value: v }),
        4 => GlxErrorType::BadContextTag(GenericError { bad_value: v }),
        5 => GlxErrorType::BadCurrentWindow(GenericError { bad_value: v }),
        6 => GlxErrorType::BadRenderRequest(GenericError { bad_value: v }),
        7 => GlxErrorType::BadLargeRequest(GenericError { bad_value: v }),
        8 => GlxErrorType::UnsupportedPrivateRequest(GenericError { bad_value: v }),
        9 => GlxErrorType::BadFBConfig(GenericError { bad_value: v }),
        10 => GlxErrorType::BadPbuffer(GenericError { bad_value: v }),
        11 => GlxErrorType::BadCurrentDrawable(GenericError { bad_value: v }),
        12 => GlxErrorType::BadWindow(GenericError { bad_value: v }),
        _ => GlxErrorType::GLXBadProfileARB(GenericError { bad_value: v }),
    }
}

fn decode_glx_type(code: u8, v: u32) -> (r: GlxErrorType)
    requires
        code < 14,
    ensures
        r == glx_error_type(code, v),
{
    match code {
        0 => GlxErrorType::BadContext(GenericError { bad_value: v }),
        1 => GlxErrorType::BadContextState(GenericError { bad_value: v }),
        2 => GlxErrorType::BadDrawable(GenericError { bad_value: v }),
        3 => GlxErrorType::BadPixmap(GenericError { bad_value: v }),
        4 => GlxErrorType::BadContextTag(GenericError { bad_value: v }),
        5 => GlxErrorType::BadCurrentWindow(GenericError { bad_value: v }),
        6 => GlxErrorType::BadRenderRequest(GenericError { bad_value: v }),
        7 => GlxErrorType::BadLargeRequest(GenericError { bad_value: v }),
        8 => GlxErrorType::UnsupportedPrivateRequest(GenericError { bad_value: v }),
        9 => GlxErrorType::BadFBConfig(GenericError { bad_value: v }),
        10 => GlxErrorType::BadPbuffer(GenericError { bad_value: v }),
        11 => GlxErrorType::BadCurrentDrawable(GenericError { bad_value: v }),
        12 => GlxErrorType::BadWindow(GenericError { bad_value: v }),
        _ => GlxErrorType::GLXBadProfileARB(GenericError { bad_value: v }),
    }
}

/// The Xv error with local code `code`.
pub open spec fn xv_error(code: u8) -> XvError {
    match code {
        0 => XvError::BadPort,
        1 => XvError::BadEncoding,
        _ => XvError::BadControl,
    }
}

fn decode_xv_error(code: u8) -> (r: XvError)
    requires
        code < 3,
    ensures
        r == xv_error(code),
{
    match code {
        0 => XvError::BadPort,
        1 => XvError::BadEncoding,
        _ => XvError::BadControl,
    }
}

/// The XPrint error with local code `code`.
pub open spec fn x_print_error(code: u8) -> XPrintError {
    match code {
        0 => XPrintError::BadContext,
        _ => XPrintError::BadSequence,
    }
}

fn decode_x_print_error(code: u8) -> (r: XPrintError)
    requires
        code < 2,
    ensures
        r == x_print_error(code),
{
    match code {
        0 => XPrintError::BadContext,
        _ => XPrintError::BadSequence,
    }
}

/// The Randr error with local code `code`.
pub open spec fn randr_error(code: u8) -> RandrError {
    match code {
        0 => RandrError::BadOutput,
        1 => RandrError::BadCrtc,
        2 => RandrError::BadMode,
        _ => RandrError::BadProvider,
    }
}

fn decode_randr_error(code: u8) -> (r: RandrError)
    requires
        code < 4,
    ensures
        r == randr_error(code),
{
    match code {
        0 => RandrError::BadOutput,
        1 => RandrError::BadCrtc,
        2 => RandrError::BadMode,
        _ => RandrError::BadProvider,
    }
}

/// The Render error with local code `code`.
pub open spec fn render_error(code: u8) -> RenderError {
    match code {
        0 => RenderError::PictFormat,
        1 => RenderError::Picture,
        2 => RenderError::PictOp,
        3 => RenderError::GlyphSet,
        _ => RenderError::Glyph,
    }
}

fn decode_render_error(code: u8) -> (r: RenderError)
    requires
        code < 5,
    ensures
        r == render_error(code),
{
    match code {
        0 => RenderError::PictFormat,
        1 => RenderError::Picture,
        2 => RenderError::PictOp,
        3 => RenderError::GlyphSet,
        _ => RenderError::Glyph,
    }
}

/// The Input error with local code `code`.
pub open spec fn input_error(code: u8) -> InputError {
    match code {
        0 => InputError::Device,
        1 => InputError::Event,
        2 => InputError::Mode,
        3 => InputError::DeviceBusy,
        _ => InputError::Class,
    }
}

fn decode_input_error(code: u8) -> (r: InputError)
    requires
        code < 5,
    ensures
        r == input_error(code),
{
    match code {
        0 => InputError::Device,
        1 => InputError::Event,
        2 => InputError::Mode,
        3 => InputError::DeviceBusy,
        _ => InputError::Class,
    }
}
/// A domain of error codes: the core protocol or one extension.
#[derive(Clone, Copy, Debug, PartialEq, Eq, Structural)]
pub enum ErrorDomain {
    Core,
    Xv,
    Xfixes,
    Shm,
    Damage,
    XPrint,
    Randr,
    Render,
    Sync,
    Record,
    Xkb,
    Glx,
    Input,
}

/// The number of known error domains.
pub const ERROR_DOMAIN_COUNT: usize = 13;

impl ErrorDomain {
    /// The position of this domain in the table of known domains.
    pub open spec fn index(self) -> int {
        match self {
            ErrorDomain::Core => 0,
            ErrorDomain::Xv => 1,
            ErrorDomain::Xfixes => 2,
            ErrorDomain::Shm => 3,
            ErrorDomain::Damage => 4,
            ErrorDomain::XPrint => 5,
            ErrorDomain::Randr => 6,
            ErrorDomain::Render => 7,
            ErrorDomain::Sync => 8,
            ErrorDomain::Record => 9,
            ErrorDomain::Xkb => 10,
            ErrorDomain::Glx => 11,
            ErrorDomain::Input => 12,
        }
    }

    pub fn at(i: usize) -> (r: ErrorDomain)
        requires
            i < ERROR_DOMAIN_COUNT,
        ensures
            r.index() == i,
    {
        match i {
            0 => ErrorDomain::Core,
            1 => ErrorDomain::Xv,
            2 => ErrorDomain::Xfixes,
            3 => ErrorDomain::Shm,
            4 => ErrorDomain::Damage,
            5 => ErrorDomain::XPrint,
            6 => ErrorDomain::Randr,
            7 => ErrorDomain::Render,
            8 => ErrorDomain::Sync,
            9 => ErrorDomain::Record,
            10 => ErrorDomain::Xkb,
            11 => ErrorDomain::Glx,
            _ => ErrorDomain::Input,
        }
    }

    /// How many consecutive error codes the domain owns.
    pub open spec fn error_count(self) -> u8 {
        match self {
            ErrorDomain::Core => 17,
            ErrorDomain::Xv => 3,
            ErrorDomain::Xfixes => 1,
            ErrorDomain::Shm => 1,
            ErrorDomain::Damage => 1,
            ErrorDomain::XPrint => 2,
            ErrorDomain::Randr => 4,
            ErrorDomain::Render => 5,
            ErrorDomain::Sync => 2,
            ErrorDomain::Record => 1,
            ErrorDomain::Xkb => 1,
            ErrorDomain::Glx => 14,
            ErrorDomain::Input => 5,
        }
    }

    pub fn num_errors(self) -> (r: u8)
        ensures
            r == self.error_count(),
    {
        match self {
            ErrorDomain::Core => 17,
            ErrorDomain::Xv => 3,
            ErrorDomain::Xfixes => 1,
            ErrorDomain::Shm => 1,
            ErrorDomain::Damage => 1,
            ErrorDomain::XPrint => 2,
            ErrorDomain::Randr => 4,
            ErrorDomain::Render => 5,
            ErrorDomain::Sync => 2,
            ErrorDomain::Record => 1,
            ErrorDomain::Xkb => 1,
            ErrorDomain::Glx => 14,
            ErrorDomain::Input => 5,
        }
    }

    /// The name under which the server lists the extension; none for the
    /// core protocol, whose codes always start at 1.
    pub open spec fn extension_name(self) -> Option<&'static str> {
        match self {
            ErrorDomain::Core => None,
            ErrorDomain::Xv => Some("XVideo"),
            ErrorDomain::Xfixes => Some("XFIXES"),
            ErrorDomain::Shm => Some("MIT-SHM"),
            ErrorDomain::Damage => Some("DAMAGE"),
            ErrorDomain::XPrint => Some("XpExtension"),
            ErrorDomain::Randr => Some("RANDR"),
            ErrorDomain::Render => Some("RENDER"),
            ErrorDomain::Sync => Some("SYNC"),
            ErrorDomain::Record => Some("RECORD"),
            ErrorDomain::Xkb => Some("XKEYBOARD"),
            ErrorDomain::Glx => Some("GLX"),
            ErrorDomain::Input => Some("XInputExtension"),
        }
    }

    pub fn name(self) -> (r: Option<&'static str>)
        ensures
            r == self.extension_name(),
    {
        match self {
            ErrorDomain::Core => None,
            ErrorDomain::Xv => Some("XVideo"),
            ErrorDomain::Xfixes => Some("XFIXES"),
            ErrorDomain::Shm => Some("MIT-SHM"),
            ErrorDomain::Damage => Some("DAMAGE"),
            ErrorDomain::XPrint => Some("XpExtension"),
            ErrorDomain::Randr => Some("RANDR"),
            ErrorDomain::Render => Some("RENDER"),
            ErrorDomain::Sync => Some("SYNC"),
            ErrorDomain::Record => Some("RECORD"),
            ErrorDomain::Xkb => Some("XKEYBOARD"),
            ErrorDomain::Glx => Some("GLX"),
            ErrorDomain::Input => Some("XInputExtension"),
        }
    }

    /// The decoded error for local code `code` (the error code minus the
    /// domain's base) of raw error `e`. Offending values sit at byte offset 4,
    /// the minor opcode at 8 and the major opcode at 10 of the raw error.
    pub open spec fn decode(self, code: u8, e: XcbGenericError) -> XcbErrorType {
        match self {
            ErrorDomain::Core => XcbErrorType::Core(
                CoreError {
                    major_opcode: e.major_code,
                    minor_opcode: e.minor_code,
                    ty: core_error_type(code, e.resource_id),
                },
            ),
            ErrorDomain::Xv => XcbErrorType::Xv(xv_error(code)),
            ErrorDomain::Xfixes => XcbErrorType::Xfixes(XfixesError::BadRegion),
            ErrorDomain::Shm => XcbErrorType::Shm(
                ShmError {
                    major_opcode: e.major_code,
                    minor_opcode: e.minor_code,
                    ty: ShmErrorType::BadSeg(ValueError { bad_value: e.resource_id }),
                },
            ),
            ErrorDomain::Damage => XcbErrorType::Damage(DamageError::BadDamage),
            ErrorDomain::XPrint => XcbErrorType::XPrint(x_print_error(code)),
            ErrorDomain::Randr => XcbErrorType::Randr(randr_error(code)),
            ErrorDomain::Render => XcbErrorType::Render(render_error(code)),
            ErrorDomain::Sync => XcbErrorType::Sync(
                SyncError {
                    major_opcode: e.major_code,
                    minor_opcode: e.minor_code,
                    ty: if code == 0 {
                        SyncErrorType::Counter(CounterError { bad_counter: e.resource_id })
                    } else {
                        SyncErrorType::Alarm(AlarmError { bad_alarm: e.resource_id })
                    },
                },
            ),
            ErrorDomain::Record => XcbErrorType::Record(
                RecordError::BadContext(BadContext { invalid_record: e.resource_id }),
            ),
            ErrorDomain::Xkb => XcbErrorType::Xkb(
                XkbError {
                    major_opcode: e.major_code,
                    minor_opcode: e.minor_code,
                    ty: XkbErrorType::Keyboard(XkbKeyboardError { bits: e.resource_id }),
                },
            ),
            ErrorDomain::Glx => XcbErrorType::Glx(
                GlxError {
                    major_opcode: e.major_code,
                    minor_opcode: e.minor_code,
                    ty: glx_error_type(code, e.resource_id),
                },
            ),
            ErrorDomain::Input => XcbErrorType::Input(input_error(code)),
        }
    }

    pub fn decode_error(self, code: u8, e: &XcbGenericError) -> (r: XcbErrorType)
        requires
            code < self.error_count(),
        ensures
            r == self.decode(code, *e),
    {
        match self {
            ErrorDomain::Core => XcbErrorType::Core(
                CoreError {
                    major_opcode: e.major_code,
                    minor_opcode: e.minor_code,
                    ty: decode_core_type(code, e.resource_id),
                },
            ),
            ErrorDomain::Xv => XcbErrorType::Xv(decode_xv_error(code)),
            ErrorDomain::Xfixes => XcbErrorType::Xfixes(XfixesError::BadRegion),
            ErrorDomain::Shm => XcbErrorType::Shm(
                ShmError {
                    major_opcode: e.major_code,
                    minor_opcode: e.minor_code,
                    ty: ShmErrorType::BadSeg(ValueError { bad_value: e.resource_id }),
                },
            ),
            ErrorDomain::Damage => XcbErrorType::Damage(DamageError::BadDamage),
            ErrorDomain::XPrint => XcbErrorType::XPrint(decode_x_print_error(code)),
            ErrorDomain::Randr => XcbErrorType::Randr(decode_randr_error(code)),
            ErrorDomain::Render => XcbErrorType::Render(decode_render_error(code)),
            ErrorDomain::Sync => XcbErrorType::Sync(
                SyncError {
                    major_opcode: e.major_code,
                    minor_opcode: e.minor_code,
                    ty: if code == 0 {
                        SyncErrorType::Counter(CounterError { bad_counter: e.resource_id })
                    } else {
                        SyncErrorType::Alarm(AlarmError { bad_alarm: e.resource_id })
                    },
                },
            ),
            ErrorDomain::Record => XcbErrorType::Record(
                RecordError::BadContext(BadContext { invalid_record: e.resource_id }),
            ),
            ErrorDomain::Xkb => XcbErrorType::Xkb(
                XkbError {
                    major_opcode: e.major_code,
                    minor_opcode: e.minor_code,
                    ty: XkbErrorType::Keyboard(XkbKeyboardError { bits: e.resource_id }),
                },
            ),
            ErrorDomain::Glx => XcbErrorType::Glx(
                GlxError {
                    major_opcode: e.major_code,
                    minor_opcode: e.minor_code,
                    ty: decode_glx_type(code, e.resource_id),
                },
            ),
            ErrorDomain::Input => XcbErrorType::Input(decode_input_error(code)),
        }
    }
}


/// An extension as the server lists it: its name and the first error code it
/// was assigned.
#[derive(Clone, Debug)]
pub struct ExtensionInfo {
    pub name: Vec<u8>,
    pub first_error: u8,
}

/// The range of error codes `[min, max_plus_1)` that `domain` owns on one
/// connection.
#[derive(Clone, Copy, Debug, PartialEq, Eq, Structural)]
pub struct ErrorRange {
    pub min: u8,
    pub max_plus_1: u16,
    pub domain: ErrorDomain,
}

impl ErrorRange {
    pub open spec fn contains(self, code: u8) -> bool {
        self.min <= code && (code as int) < self.max_plus_1
    }

    pub open spec fn overlaps(self, other: ErrorRange) -> bool {
        self.min < other.max_plus_1 && other.min < self.max_plus_1
    }
}

/// The first error code that the server assigned to the extension named
/// `name`; where the list names it more than once, the last entry counts.
pub open spec fn extension_base(exts: Seq<ExtensionInfo>, name: Seq<u8>) -> Option<u8>
    decreases exts.len(),
{
    if exts.len() == 0 {
        None
    } else if exts.last().name@ == name {
        Some(exts.last().first_error)
    } else {
        extension_base(exts.drop_last(), name)
    }
}

/// The range that `d` owns given the server's extension list: the core
/// protocol always starts at 1, an extension at its assigned base, and an
/// extension that the server does not list owns none.
pub open spec fn expected_range(exts: Seq<ExtensionInfo>, d: ErrorDomain) -> Option<ErrorRange> {
    let base = match d.extension_name() {
        None => Some(1u8),
        Some(n) => extension_base(exts, n.spec_bytes()),
    };
    match base {
        None => None,
        Some(b) => Some(ErrorRange { min: b, max_plus_1: (b + d.error_count()) as u16, domain: d }),
    }
}

/// Two distinct domains claim overlapping code ranges.
pub open spec fn ranges_conflict(exts: Seq<ExtensionInfo>) -> bool {
    exists|d1: ErrorDomain, d2: ErrorDomain|
        d1 != d2 && #[trigger] expected_range(exts, d1) is Some && #[trigger] expected_range(
            exts,
            d2,
        ) is Some && expected_range(exts, d1)->Some_0.overlaps(expected_range(exts, d2)->Some_0)
}

/// Each range ends where it should and lies wholly below every later one:
/// the table is sorted by base code and pairwise disjoint.
pub open spec fn ranges_wf(rs: Seq<ErrorRange>) -> bool {
    &&& forall|i: int|
        0 <= i < rs.len() ==> #[trigger] rs[i].max_plus_1 == rs[i].min + rs[i].domain.error_count()
    &&& forall|i: int, j: int| 0 <= i < j < rs.len() ==> #[trigger] rs[i].max_plus_1 <= #[trigger] rs[j].min
}

/// What classifying `e` against the table `rs` gives: the decoder of the
/// first range that holds the error code, or `Unknown` where none does.
pub open spec fn classify(rs: Seq<ErrorRange>, e: XcbGenericError) -> XcbErrorType
    decreases rs.len(),
{
    if rs.len() == 0 {
        XcbErrorType::Unknown(e)
    } else if rs[0].contains(e.error_code) {
        rs[0].domain.decode((e.error_code - rs[0].min) as u8, e)
    } else {
        classify(rs.drop_first(), e)
    }
}

/// The classified error for raw error `e` against the table `rs`.
pub open spec fn parsed_error(rs: Seq<ErrorRange>, e: XcbGenericError) -> XcbError {
    XcbError {
        error_code: e.error_code,
        sequence: e.full_sequence,
        major: e.major_code,
        minor: e.minor_code,
        ty: classify(rs, e),
    }
}

/// The error-code ranges of one connection, sorted by base code.
#[derive(Debug)]
pub struct XcbErrorParser {
    parsers: Vec<ErrorRange>,
}

fn find_extension_base(exts: &[ExtensionInfo], name: &[u8]) -> (r: Option<u8>)
    ensures
        r == extension_base(exts@, name@),
{
    let mut found: Option<u8> = None;
    let mut i: usize = 0;
    while i < exts.len()
        invariant
            i <= exts@.len(),
            found == extension_base(exts@.take(i as int), name@),
        decreases exts@.len() - i,
    {
        assert(exts@.take(i + 1).drop_last() =~= exts@.take(i as int));
        if bytes_eq(exts[i].name.as_slice(), name) {
            found = Some(exts[i].first_error);
        }
        i = i + 1;
    }
    assert(exts@.take(exts@.len() as int) =~= exts@);
    found
}

fn domain_range(exts: &[ExtensionInfo], d: ErrorDomain) -> (r: Option<ErrorRange>)
    ensures
        r == expected_range(exts@, d),
{
    let base = match d.name() {
        None => Some(1u8),
        Some(n) => find_extension_base(exts, n.as_bytes()),
    };
    match base {
        None => None,
        Some(b) => Some(ErrorRange { min: b, max_plus_1: b as u16 + d.num_errors() as u16, domain: d }),
    }
}

/// The index after every range whose base is at most `min`, in a table
/// sorted by base.
fn insert_position(rs: &Vec<ErrorRange>, min: u8) -> (j: usize)
    requires
        forall|a: int, b: int| 0 <= a < b < rs@.len() ==> #[trigger] rs@[a].min <= #[trigger] rs@[b].min,
    ensures
        j <= rs@.len(),
        forall|k: int| 0 <= k < j ==> #[trigger] rs@[k].min <= min,
        j < rs@.len() ==> min < rs@[j as int].min,
{
    let mut j: usize = 0;
    while j < rs.len() && rs[j].min <= min
        invariant
            j <= rs@.len(),
            forall|k: int| 0 <= k < j ==> #[trigger] rs@[k].min <= min,
        decreases rs@.len() - j,
    {
        j = j + 1;
    }
    j
}

proof fn lemma_adjacent_disjoint(rs: Seq<ErrorRange>)
    requires
        forall|i: int| 0 <= i < rs.len() ==> #[trigger] rs[i].min < rs[i].max_plus_1,
        forall|i: int| 0 <= i < rs.len() - 1 ==> #[trigger] rs[i].max_plus_1 <= rs[i + 1].min,
    ensures
        forall|i: int, j: int| 0 <= i < j < rs.len() ==> #[trigger] rs[i].max_plus_1 <= #[trigger] rs[j].min,
    decreases rs.len(),
{
    if rs.len() > 1 {
        let init = rs.drop_last();
        assert forall|i: int| 0 <= i < init.len() - 1 implies #[trigger] init[i].max_plus_1 <= init[i + 1].min by {
            assert(init[i] == rs[i] && init[i + 1] == rs[i + 1]);
        }
        lemma_adjacent_disjoint(init);
        assert forall|i: int, j: int| 0 <= i < j < rs.len() implies #[trigger] rs[i].max_plus_1 <= #[trigger] rs[j].min by {
            if j < rs.len() - 1 {
                assert(init[i] == rs[i] && init[j] == rs[j]);
            } else if i < j - 1 {
                assert(init[i] == rs[i] && init[j - 1] == rs[j - 1]);
                assert(rs[i].max_plus_1 <= rs[j - 1].min);
                assert(rs[j - 1].min < rs[j - 1].max_plus_1);
            }
        }
    }
}

proof fn lemma_index_injective(a: ErrorDomain, b: ErrorDomain)
    ensures
        a.index() == b.index() ==> a == b,
{
    match a {
        ErrorDomain::Core => {},
        ErrorDomain::Xv => {},
        ErrorDomain::Xfixes => {},
        ErrorDomain::Shm => {},
        ErrorDomain::Damage => {},
        ErrorDomain::XPrint => {},
        ErrorDomain::Randr => {},
        ErrorDomain::Render => {},
        ErrorDomain::Sync => {},
        ErrorDomain::Record => {},
        ErrorDomain::Xkb => {},
        ErrorDomain::Glx => {},
        ErrorDomain::Input => {},
    }
}

proof fn lemma_classify_scan(rs: Seq<ErrorRange>, i: int, e: XcbGenericError)
    requires
        0 <= i < rs.len(),
        !rs[i].contains(e.error_code),
    ensures
        classify(rs.subrange(i, rs.len() as int), e) == classify(rs.subrange(i + 1, rs.len() as int), e),
{
    assert(rs.subrange(i, rs.len() as int).drop_first() =~= rs.subrange(i + 1, rs.len() as int));
}

impl XcbErrorParser {
    /// The table, in ascending order of base code.
    pub closed spec fn ranges(&self) -> Seq<ErrorRange> {
        self.parsers@
    }

    pub open spec fn wf(&self) -> bool {
        ranges_wf(self.ranges())
    }

    /// The table, in ascending order of base code.
    pub fn table(&self) -> (r: &Vec<ErrorRange>)
        ensures
            r@ == self.ranges(),
    {
        &self.parsers
    }

    /// Builds the table of one connection from the server's extension list.
    ///
    /// The core protocol owns `[1, 18)`; each known extension that the list
    /// names owns its count of codes from its assigned base. Returns `None`
    /// exactly when two domains would claim overlapping codes.
    pub fn new(extensions: &[ExtensionInfo]) -> (r: Option<XcbErrorParser>)
        ensures
            r is None <==> ranges_conflict(extensions@),
            r matches Some(p) ==> {
                &&& p.wf()
                &&& forall|i: int| 0 <= i < p.ranges().len() ==>
                    expected_range(extensions@, #[trigger] p.ranges()[i].domain) == Some(p.ranges()[i])
                &&& forall|d: ErrorDomain| #[trigger] expected_range(extensions@, d) is Some ==>
                    exists|i: int| 0 <= i < p.ranges().len() && p.ranges()[i] == expected_range(extensions@, d)->Some_0
            },
    {
        let mut parsers: Vec<ErrorRange> = Vec::new();
        let mut n: usize = 0;
        while n < ERROR_DOMAIN_COUNT
            invariant
                n <= ERROR_DOMAIN_COUNT,
                forall|a: int, b: int| 0 <= a < b < parsers@.len() ==> #[trigger] parsers@[a].min <= #[trigger] parsers@[b].min,
                forall|k: int| 0 <= k < parsers@.len() ==> {
                    &&& expected_range(extensions@, #[trigger] parsers@[k].domain) == Some(parsers@[k])
                    &&& parsers@[k].domain.index() < n
                },
                forall|a: int, b: int| 0 <= a < b < parsers@.len() ==> #[trigger] parsers@[a].domain != #[trigger] parsers@[b].domain,
                forall|d: ErrorDomain| d.index() < n && #[trigger] expected_range(extensions@, d) is Some ==>
                    exists|k: int| 0 <= k < parsers@.len() && parsers@[k] == expected_range(extensions@, d)->Some_0,
            decreases ERROR_DOMAIN_COUNT - n,
        {
            let d = ErrorDomain::at(n);
            if let Some(range) = domain_range(extensions, d) {
                let j = insert_position(&parsers, range.min);
                let ghost old_parsers = parsers@;
                parsers.insert(j, range);
                assert forall|a: int, b: int| 0 <= a < b < parsers@.len() implies #[trigger] parsers@[a].min <= #[trigger] parsers@[b].min by {
                    if b == j as int {
                        assert(parsers@[a] == old_parsers[a]);
                    } else if a == j as int {
                        assert(parsers@[b] == old_parsers[b - 1]);
                        assert(old_parsers[j as int].min <= old_parsers[b - 1].min);
                    }
                }
                assert forall|k: int| 0 <= k < parsers@.len() implies {
                    &&& expected_range(extensions@, #[trigger] parsers@[k].domain) == Some(parsers@[k])
                    &&& parsers@[k].domain.index() < n + 1
                } by {
                    if k == j {
                        assert(parsers@[k] == range);
                    } else if k < j {
                        assert(parsers@[k] == old_parsers[k]);
                    } else if k > j {
                        assert(parsers@[k] == old_parsers[k - 1]);
                    }
                }
                assert forall|a: int, b: int| 0 <= a < b < parsers@.len() implies #[trigger] parsers@[a].domain != #[trigger] parsers@[b].domain by {
                    if a == j as int {
                        assert(parsers@[b] == old_parsers[b - 1]);
                    } else if b == j as int {
                        assert(parsers@[a] == old_parsers[a]);
                    } else if a < j {
                        assert(parsers@[a] == old_parsers[a]);
                        if b < j {
                            assert(parsers@[b] == old_parsers[b]);
                        } else {
                            assert(parsers@[b] == old_parsers[b - 1]);
                        }
                    } else {
                        assert(parsers@[a] == old_parsers[a - 1]);
                        assert(parsers@[b] == old_parsers[b - 1]);
                    }
                }
                assert forall|dd: ErrorDomain| dd.index() < n + 1 && #[trigger] expected_range(extensions@, dd) is Some implies
                    exists|k: int| 0 <= k < parsers@.len() && parsers@[k] == expected_range(extensions@, dd)->Some_0 by {
                    lemma_index_injective(dd, d);
                    if dd.index() < n {
                        let k = choose|k: int| 0 <= k < old_parsers.len() && old_parsers[k] == expected_range(extensions@, dd)->Some_0;
                        if k < j {
                            assert(parsers@[k] == old_parsers[k]);
                        } else {
                            assert(parsers@[k + 1] == old_parsers[k]);
                        }
                    } else {
                        assert(dd == d);
                        assert(parsers@[j as int] == range);
                    }
                }
            } else {
                assert forall|dd: ErrorDomain| dd.index() < n + 1 && #[trigger] expected_range(extensions@, dd) is Some implies
                    exists|k: int| 0 <= k < parsers@.len() && parsers@[k] == expected_range(extensions@, dd)->Some_0 by {
                    lemma_index_injective(dd, d);
                }
            }
            n = n + 1;
        }
        proof {
            assert forall|k: int| 0 <= k < parsers@.len() implies #[trigger] parsers@[k].min < parsers@[k].max_plus_1 by {
                assert(expected_range(extensions@, parsers@[k].domain) == Some(parsers@[k]));
            }
        }
        let mut k: usize = 1;
        while k < parsers.len()
            invariant
                1 <= k,
                forall|a: int, b: int| 0 <= a < b < parsers@.len() ==> #[trigger] parsers@[a].min <= #[trigger] parsers@[b].min,
                forall|i: int| 0 <= i < parsers@.len() ==> expected_range(extensions@, #[trigger] parsers@[i].domain) == Some(parsers@[i]),
                forall|a: int, b: int| 0 <= a < b < parsers@.len() ==> #[trigger] parsers@[a].domain != #[trigger] parsers@[b].domain,
                forall|i: int| 0 <= i < parsers@.len() ==> #[trigger] parsers@[i].min < parsers@[i].max_plus_1,
                forall|i: int| 0 <= i < k - 1 && i + 1 < parsers@.len() ==> #[trigger] parsers@[i].max_plus_1 <= parsers@[i + 1].min,
            decreases parsers@.len() - k,
        {
            if parsers[k - 1].max_plus_1 > parsers[k].min as u16 {
                proof {
                    let a = parsers@[k - 1];
                    let b = parsers@[k as int];
                    assert(parsers@[k - 1].min <= parsers@[k as int].min);
                    assert(expected_range(extensions@, a.domain) == Some(a));
                    assert(expected_range(extensions@, b.domain) == Some(b));
                    assert(a.domain != b.domain);
                    assert(a.overlaps(b));
                }
                return None;
            }
            k = k + 1;
        }
        proof {
            lemma_adjacent_disjoint(parsers@);
            assert forall|i: int| 0 <= i < parsers@.len() implies #[trigger] parsers@[i].max_plus_1
                == parsers@[i].min + parsers@[i].domain.error_count() by {
                assert(expected_range(extensions@, parsers@[i].domain) == Some(parsers@[i]));
            }
            if ranges_conflict(extensions@) {
                let (d1, d2) = choose|d1: ErrorDomain, d2: ErrorDomain|
                    d1 != d2 && #[trigger] expected_range(extensions@, d1) is Some && #[trigger] expected_range(extensions@, d2) is Some
                        && expected_range(extensions@, d1)->Some_0.overlaps(expected_range(extensions@, d2)->Some_0);
                assert(d1.index() < 13 && d2.index() < 13);
                let a = choose|a: int| 0 <= a < parsers@.len() && parsers@[a] == expected_range(extensions@, d1)->Some_0;
                let b = choose|b: int| 0 <= b < parsers@.len() && parsers@[b] == expected_range(extensions@, d2)->Some_0;
                assert(a != b);
                if a < b {
                    assert(parsers@[a].max_plus_1 <= parsers@[b].min);
                } else {
                    assert(parsers@[b].max_plus_1 <= parsers@[a].min);
                }
            }
        }
        Some(XcbErrorParser { parsers })
    }

    /// Classifies a raw error: the first range that holds its code decodes
    /// it, and an error whose code no range holds is kept as `Unknown`.
    pub fn parse(&self, e: &XcbGenericError) -> (r: XcbError)
        requires
            self.wf(),
        ensures
            r == parsed_error(self.ranges(), *e),
    {
        let mut i: usize = 0;
        assert(self.parsers@.subrange(0, self.parsers@.len() as int) =~= self.parsers@);
        while i < self.parsers.len()
            invariant
                i <= self.parsers@.len(),
                ranges_wf(self.parsers@),
                classify(self.parsers@, *e) == classify(self.parsers@.subrange(i as int, self.parsers@.len() as int), *e),
            decreases self.parsers@.len() - i,
        {
            let p = self.parsers[i];
            if p.min <= e.error_code && (e.error_code as u16) < p.max_plus_1 {
                let ty = p.domain.decode_error(e.error_code - p.min, e);
                return XcbError {
                    error_code: e.error_code,
                    sequence: e.full_sequence,
                    major: e.major_code,
                    minor: e.minor_code,
                    ty,
                };
            }
            proof {
                lemma_classify_scan(self.parsers@, i as int, *e);
            }
            i = i + 1;
        }
        XcbError {
            error_code: e.error_code,
            sequence: e.full_sequence,
            major: e.major_code,
            minor: e.minor_code,
            ty: XcbErrorType::Unknown(*e),
        }
    }
}


/// What a request's outcome comes to: an error object takes precedence; a
/// missing reply is a connection fault where the transport reports one
/// (status nonzero) and a missing reply otherwise.
pub open spec fn reply_outcome<T>(
    rs: Seq<ErrorRange>,
    reply: Option<T>,
    err: Option<XcbGenericError>,
    status: i32,
) -> Result<T, XcbError> {
    match err {
        Some(e) => Err(parsed_error(rs, e)),
        None => match reply {
            Some(t) => Ok(t),
            None => Err(missing_reply_error(status)),
        },
    }
}

/// The error for a request that produced neither reply nor error object.
pub open spec fn missing_reply_error(status: i32) -> XcbError {
    if status == 0 {
        XcbErrorType::MissingReply.spec_into_error()
    } else {
        XcbErrorType::Connection(connection_error(status)).spec_into_error()
    }
}

impl XcbErrorParser {
    /// Takes the outcome of a request: `err` is the error object the
    /// transport returned, if any, and `status` the connection's error
    /// status (0 while it is healthy).
    pub fn check<T>(&self, reply: Option<T>, err: Option<XcbGenericError>, status: i32) -> (r: Result<T, XcbError>)
        requires
            self.wf(),
        ensures
            r == reply_outcome(self.ranges(), reply, err, status),
    {
        match err {
            Some(e) => Err(self.parse(&e)),
            None => self.check_val(reply, status),
        }
    }

    pub fn check_val<T>(&self, reply: Option<T>, status: i32) -> (r: Result<T, XcbError>)
        ensures
            r == reply_outcome(self.ranges(), reply, None, status),
    {
        match reply {
            Some(t) => Ok(t),
            None => match self.check_connection(status) {
                Err(e) => Err(e),
                Ok(()) => Err(XcbError::from(XcbErrorType::MissingReply)),
            },
        }
    }

    pub fn check_connection(&self, status: i32) -> (r: Result<(), XcbError>)
        ensures
            status == 0 ==> r is Ok,
            status != 0 ==> r == Err::<(), XcbError>(missing_reply_error(status)),
    {
        if status == 0 {
            Ok(())
        } else {
            Err(XcbError::from(XcbErrorType::Connection(XcbConnectionError::from(status))))
        }
    }

    pub fn check_err(&self, err: Option<XcbGenericError>) -> (r: Result<(), XcbError>)
        requires
            self.wf(),
        ensures
            r == reply_outcome(self.ranges(), Some(()), err, 0),
    {
        match err {
            Some(e) => Err(self.parse(&e)),
            None => Ok(()),
        }
    }
}

proof fn lemma_classify_unique(rs: Seq<ErrorRange>, e: XcbGenericError)
    requires
        ranges_wf(rs),
    ensures
        (forall|i: int| 0 <= i < rs.len() ==> !#[trigger] rs[i].contains(e.error_code)) ==> classify(rs, e)
            == XcbErrorType::Unknown(e),
        forall|i: int|
            0 <= i < rs.len() && #[trigger] rs[i].contains(e.error_code) ==> classify(rs, e)
                == rs[i].domain.decode((e.error_code - rs[i].min) as u8, e),
    decreases rs.len(),
{
    if rs.len() > 0 {
        let rest = rs.drop_first();
        assert forall|i: int, j: int| 0 <= i < j < rest.len() implies #[trigger] rest[i].max_plus_1 <= #[trigger] rest[j].min by {
            assert(rest[i] == rs[i + 1] && rest[j] == rs[j + 1]);
        }
        assert forall|i: int| 0 <= i < rest.len() implies #[trigger] rest[i].max_plus_1 == rest[i].min + rest[i].domain.error_count() by {
            assert(rest[i] == rs[i + 1]);
        }
        lemma_classify_unique(rest, e);
        if forall|i: int| 0 <= i < rs.len() ==> !#[trigger] rs[i].contains(e.error_code) {
            assert(!rs[0].contains(e.error_code));
            assert forall|i: int| 0 <= i < rest.len() implies !#[trigger] rest[i].contains(e.error_code) by {
                assert(rest[i] == rs[i + 1]);
            }
        }
        assert forall|i: int| 0 <= i < rs.len() && #[trigger] rs[i].contains(e.error_code) implies classify(rs, e)
            == rs[i].domain.decode((e.error_code - rs[i].min) as u8, e) by {
            if i > 0 {
                assert(rs[0].max_plus_1 <= rs[i].min);
                assert(rest[i - 1] == rs[i]);
            }
        }
    }
}

/// Every table that [`XcbErrorParser::new`] builds is sorted by base code,
/// and no two of its ranges share a code.
pub proof fn lemma_table_sorted_disjoint(p: &XcbErrorParser)
    requires
        p.wf(),
    ensures
        forall|i: int, j: int|
            0 <= i < j < p.ranges().len() ==> #[trigger] p.ranges()[i].min < #[trigger] p.ranges()[j].min
                && !p.ranges()[i].overlaps(p.ranges()[j]),
{
    let rs = p.ranges();
    assert forall|i: int, j: int| 0 <= i < j < rs.len() implies #[trigger] rs[i].min < #[trigger] rs[j].min
        && !rs[i].overlaps(rs[j]) by {
        assert(rs[i].max_plus_1 == rs[i].min + rs[i].domain.error_count());
        assert(rs[i].domain.error_count() >= 1);
        assert(rs[i].max_plus_1 <= rs[j].min);
    }
}

/// Classification is total: for every 8-bit error code, against any table
/// that was built, the result is the decoding by the one range that holds
/// the code, or `Unknown` with the raw error where no range holds it.
pub proof fn lemma_classify_total(p: &XcbErrorParser, e: XcbGenericError)
    requires
        p.wf(),
    ensures
        (forall|i: int| 0 <= i < p.ranges().len() ==> !#[trigger] p.ranges()[i].contains(e.error_code))
            ==> parsed_error(p.ranges(), e).ty == XcbErrorType::Unknown(e),
        forall|i: int|
            0 <= i < p.ranges().len() && #[trigger] p.ranges()[i].contains(e.error_code)
                ==> parsed_error(p.ranges(), e).ty == p.ranges()[i].domain.decode(
                (e.error_code - p.ranges()[i].min) as u8,
                e,
            ),
{
    lemma_classify_unique(p.ranges(), e);
}

} // verus!
