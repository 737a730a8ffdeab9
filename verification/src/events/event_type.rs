//! Event-type tags: the closed wire vocabulary.
use vstd::prelude::*;

verus! {

pub const CAPABILITY: &'static str = "capability";
pub const AUDIO_START: &'static str = "audio_start";
pub const AUDIO_CHUNK: &'static str = "audio_chunk";
pub const AUDIO_STOP: &'static str = "audio_stop";
pub const TRANSCRIPT: &'static str = "transcript";
pub const FLOW_CREDIT: &'static str = "flow_credit";
pub const ERROR: &'static str = "error";
pub const VOCABULARY_UPDATE: &'static str = "vocabulary_update";

pub const AUDIO_DEVICE_SNAPSHOT: &'static str = "audio_device_snapshot";
pub const AUDIO_DEVICE_ADDED: &'static str = "audio_device_added";
pub const AUDIO_DEVICE_REMOVED: &'static str = "audio_device_removed";
pub const AUDIO_DEVICE_DEFAULT_CHANGED: &'static str = "audio_device_default_changed";

pub const LOCATION_UPDATE: &'static str = "location_update";
pub const LOCATION_ERROR: &'static str = "location_error";
pub const HEADING_UPDATE: &'static str = "heading_update";

pub const DISPLAY_SNAPSHOT: &'static str = "display_snapshot";
pub const DISPLAY_ADDED: &'static str = "display_added";
pub const DISPLAY_REMOVED: &'static str = "display_removed";
pub const DISPLAY_CHANGED: &'static str = "display_changed";

pub const POWER_SNAPSHOT: &'static str = "power_snapshot";
pub const POWER_SOURCE_CHANGED: &'static str = "power_source_changed";

/// Every tag above, in declaration order.
pub const ALL: [&'static str; 21] = [
    CAPABILITY,
    AUDIO_START,
    AUDIO_CHUNK,
    AUDIO_STOP,
    TRANSCRIPT,
    FLOW_CREDIT,
    ERROR,
    VOCABULARY_UPDATE,
    AUDIO_DEVICE_SNAPSHOT,
    AUDIO_DEVICE_ADDED,
    AUDIO_DEVICE_REMOVED,
    AUDIO_DEVICE_DEFAULT_CHANGED,
    LOCATION_UPDATE,
    LOCATION_ERROR,
    HEADING_UPDATE,
    DISPLAY_SNAPSHOT,
    DISPLAY_ADDED,
    DISPLAY_REMOVED,
    DISPLAY_CHANGED,
    POWER_SNAPSHOT,
    POWER_SOURCE_CHANGED,
];

} // verus!
