use vstd::prelude::*;

verus! {

/// Status codes of the foreign engine. Zero and positive values mean success.
pub const MPV_ERROR_SUCCESS: i32 = 0;
pub const MPV_ERROR_EVENT_QUEUE_FULL: i32 = -1;
pub const MPV_ERROR_NOMEM: i32 = -2;
pub const MPV_ERROR_UNINITIALIZED: i32 = -3;
pub const MPV_ERROR_INVALID_PARAMETER: i32 = -4;
pub const MPV_ERROR_OPTION_NOT_FOUND: i32 = -5;
pub const MPV_ERROR_OPTION_FORMAT: i32 = -6;
pub const MPV_ERROR_OPTION_ERROR: i32 = -7;
pub const MPV_ERROR_PROPERTY_NOT_FOUND: i32 = -8;
pub const MPV_ERROR_PROPERTY_FORMAT: i32 = -9;
pub const MPV_ERROR_PROPERTY_UNAVAILABLE: i32 = -10;
pub const MPV_ERROR_PROPERTY_ERROR: i32 = -11;
pub const MPV_ERROR_COMMAND: i32 = -12;
pub const MPV_ERROR_LOADING_FAILED: i32 = -13;
pub const MPV_ERROR_AO_INIT_FAILED: i32 = -14;
pub const MPV_ERROR_VO_INIT_FAILED: i32 = -15;
pub const MPV_ERROR_NOTHING_TO_PLAY: i32 = -16;
pub const MPV_ERROR_UNKNOWN_FORMAT: i32 = -17;
pub const MPV_ERROR_UNSUPPORTED: i32 = -18;
pub const MPV_ERROR_NOT_IMPLEMENTED: i32 = -19;
pub const MPV_ERROR_GENERIC: i32 = -20;

/// The failures that the engine reports through negative status codes.
#[derive(Debug, Clone, Copy, PartialEq, Eq, Structural)]
pub enum MpvError {
    /// The event ring buffer is full: too many asynchronous requests are
    /// waiting for an answer.
    EventQueueFull,
    /// Memory allocation failed.
    NoMemory,
    /// The core was not configured and initialized yet.
    Uninitialized,
    /// A parameter was set to an invalid or unsupported value.
    InvalidParameter,
    /// Trying to set an option that does not exist.
    OptionNotFound,
    /// Trying to set an option using an unsupported format.
    OptionFormatUnsupported,
    /// Setting the option failed, typically because its value did not parse.
    OptionError,
    /// The accessed property does not exist.
    PropertyNotFound,
    /// Trying to set or get a property using an unsupported format.
    PropertyNotSupported,
    /// The property exists but is not available right now.
    PropertyUnavailable,
    /// Error setting or getting a property.
    PropertyError,
    /// General error when running a command.
    CommandError,
    /// Generic error on loading a file.
    LoadingFailed,
    /// Initializing the audio output failed.
    AudioOutputInitFailed,
    /// Initializing the video output failed.
    VideoOutputInitFailed,
    /// There was no audio or video data to play.
    NothingToPlay,
    /// The file format could not be determined, or the file was too broken.
    UnknownFormat,
    /// Certain system requirements are not fulfilled.
    Unsupported,
    /// The called function is a stub only.
    NotImplemented,
    /// Any other negative status code.
    Unspecified,
}

/// The canonical status code of each error.
pub open spec fn code_of(e: MpvError) -> int {
    match e {
        MpvError::EventQueueFull => -1,
        MpvError::NoMemory => -2,
        MpvError::Uninitialized => -3,
        MpvError::InvalidParameter => -4,
        MpvError::OptionNotFound => -5,
        MpvError::OptionFormatUnsupported => -6,
        MpvError::OptionError => -7,
        MpvError::PropertyNotFound => -8,
        MpvError::PropertyNotSupported => -9,
        MpvError::PropertyUnavailable => -10,
        MpvError::PropertyError => -11,
        MpvError::CommandError => -12,
        MpvError::LoadingFailed => -13,
        MpvError::AudioOutputInitFailed => -14,
        MpvError::VideoOutputInitFailed => -15,
        MpvError::NothingToPlay => -16,
        MpvError::UnknownFormat => -17,
        MpvError::Unsupported => -18,
        MpvError::NotImplemented => -19,
        MpvError::Unspecified => -20,
    }
}

/// Whether a status code is one that names a specific error.
pub open spec fn is_recognized_error(status: int) -> bool {
    -19 <= status <= -1
}

/// What a status code means: nothing for success, else the error that it
/// names, and `Unspecified` for any negative code that names none.
pub open spec fn error_of(status: int) -> Option<MpvError> {
    if status >= 0 {
        None
    } else if status == -1 {
        Some(MpvError::EventQueueFull)
    } else if status == -2 {
        Some(MpvError::NoMemory)
    } else if status == -3 {
        Some(MpvError::Uninitialized)
    } else if status == -4 {
        Some(MpvError::InvalidParameter)
    } else if status == -5 {
        Some(MpvError::OptionNotFound)
    } else if status == -6 {
        Some(MpvError::OptionFormatUnsupported)
    } else if status == -7 {
        Some(MpvError::OptionError)
    } else if status == -8 {
        Some(MpvError::PropertyNotFound)
    } else if status == -9 {
        Some(MpvError::PropertyNotSupported)
    } else if status == -10 {
        Some(MpvError::PropertyUnavailable)
    } else if status == -11 {
        Some(MpvError::PropertyError)
    } else if status == -12 {
        Some(MpvError::CommandError)
    } else if status == -13 {
        Some(MpvError::LoadingFailed)
    } else if status == -14 {
        Some(MpvError::AudioOutputInitFailed)
    } else if status == -15 {
        Some(MpvError::VideoOutputInitFailed)
    } else if status == -16 {
        Some(MpvError::NothingToPlay)
    } else if status == -17 {
        Some(MpvError::UnknownFormat)
    } else if status == -18 {
        Some(MpvError::Unsupported)
    } else if status == -19 {
        Some(MpvError::NotImplemented)
    } else {
        Some(MpvError::Unspecified)
    }
}

impl MpvError {
    /// Classify a status code returned by a foreign call.
    pub fn from_mpv_error(status: i32) -> (r: Option<MpvError>)
        ensures
            r == error_of(status as int),
            status >= 0 <==> r is None,
            is_recognized_error(status as int) ==> code_of(r->Some_0) == status,
            status < 0 && !is_recognized_error(status as int) ==> r == Some(MpvError::Unspecified),
    {
        let r = match status {
            MPV_ERROR_EVENT_QUEUE_FULL => Some(MpvError::EventQueueFull),
            MPV_ERROR_NOMEM => Some(MpvError::NoMemory),
            MPV_ERROR_UNINITIALIZED => Some(MpvError::Uninitialized),
            MPV_ERROR_INVALID_PARAMETER => Some(MpvError::InvalidParameter),
            MPV_ERROR_OPTION_NOT_FOUND => Some(MpvError::OptionNotFound),
            MPV_ERROR_OPTION_FORMAT => Some(MpvError::OptionFormatUnsupported),
            MPV_ERROR_OPTION_ERROR => Some(MpvError::OptionError),
            MPV_ERROR_PROPERTY_NOT_FOUND => Some(MpvError::PropertyNotFound),
            MPV_ERROR_PROPERTY_FORMAT => Some(MpvError::PropertyNotSupported),
            MPV_ERROR_PROPERTY_UNAVAILABLE => Some(MpvError::PropertyUnavailable),
            MPV_ERROR_PROPERTY_ERROR => Some(MpvError::PropertyError),
            MPV_ERROR_COMMAND => Some(MpvError::CommandError),
            MPV_ERROR_LOADING_FAILED => Some(MpvError::LoadingFailed),
            MPV_ERROR_AO_INIT_FAILED => Some(MpvError::AudioOutputInitFailed),
            MPV_ERROR_VO_INIT_FAILED => Some(MpvError::VideoOutputInitFailed),
            MPV_ERROR_NOTHING_TO_PLAY => Some(MpvError::NothingToPlay),
            MPV_ERROR_UNKNOWN_FORMAT => Some(MpvError::UnknownFormat),
            MPV_ERROR_UNSUPPORTED => Some(MpvError::Unsupported),
            MPV_ERROR_NOT_IMPLEMENTED => Some(MpvError::NotImplemented),
            _ => if status >= MPV_ERROR_SUCCESS {
                None
            } else {
                Some(MpvError::Unspecified)
            },
        };
        r
    }

    /// The canonical status code of this error, as the engine's own
    /// description lookup expects it.
    pub fn to_mpv_error(&self) -> (r: i32)
        ensures
            r == code_of(*self),
            r < 0,
    {
        match self {
            MpvError::EventQueueFull => MPV_ERROR_EVENT_QUEUE_FULL,
            MpvError::NoMemory => MPV_ERROR_NOMEM,
            MpvError::Uninitialized => MPV_ERROR_UNINITIALIZED,
            MpvError::InvalidParameter => MPV_ERROR_INVALID_PARAMETER,
            MpvError::OptionNotFound => MPV_ERROR_OPTION_NOT_FOUND,
            MpvError::OptionFormatUnsupported => MPV_ERROR_OPTION_FORMAT,
            MpvError::OptionError => MPV_ERROR_OPTION_ERROR,
            MpvError::PropertyNotFound => MPV_ERROR_PROPERTY_NOT_FOUND,
            MpvError::PropertyNotSupported => MPV_ERROR_PROPERTY_FORMAT,
            MpvError::PropertyUnavailable => MPV_ERROR_PROPERTY_UNAVAILABLE,
            MpvError::PropertyError => MPV_ERROR_PROPERTY_ERROR,
            MpvError::CommandError => MPV_ERROR_COMMAND,
            MpvError::LoadingFailed => MPV_ERROR_LOADING_FAILED,
            MpvError::AudioOutputInitFailed => MPV_ERROR_AO_INIT_FAILED,
            MpvError::VideoOutputInitFailed => MPV_ERROR_VO_INIT_FAILED,
            MpvError::NothingToPlay => MPV_ERROR_NOTHING_TO_PLAY,
            MpvError::UnknownFormat => MPV_ERROR_UNKNOWN_FORMAT,
            MpvError::Unsupported => MPV_ERROR_UNSUPPORTED,
            MpvError::NotImplemented => MPV_ERROR_NOT_IMPLEMENTED,
            MpvError::Unspecified => MPV_ERROR_GENERIC,
        }
    }
}

/// No two errors share a status code.
pub proof fn lemma_code_unique(e: MpvError)
    ensures
        forall|f: MpvError| code_of(f) == code_of(e) ==> f == e,
{
}

/// Classification inverts the canonical code: every error is recovered from
/// its own status code, and every recognized negative code is the code of
/// exactly one error, which classification returns.
pub proof fn lemma_classify_code(e: MpvError, status: int)
    ensures
        error_of(code_of(e)) == Some(e),
        is_recognized_error(status) ==> {
            &&& error_of(status) is Some
            &&& code_of(error_of(status)->Some_0) == status
            &&& forall|g: MpvError| code_of(g) == status ==> g == error_of(status)->Some_0
        },
{
    lemma_code_unique(e);
    if is_recognized_error(status) {
        lemma_code_unique(error_of(status)->Some_0);
    }
}

} // verus!
