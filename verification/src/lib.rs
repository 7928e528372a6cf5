//! The decisions of a ReplayGain scanner, verified: which files are scanned, which
//! packets of a track reach the loudness meter, what the cache remembers between runs,
//! and which files get their tags rewritten.
//!
//! Where the outside world takes part, the library is a set of state machines: each
//! states what is to be done next and takes the outcome. A program drives them.

pub mod cache;
pub mod cache_laws;
pub mod dsp;
pub mod error;
pub mod file_ops;
pub mod hex_text;
pub mod paths;
pub mod session;
pub mod tags;
pub mod tally;
pub mod track;
pub mod walk_laws;
pub mod writes;

pub use cache::{load_cache, CacheEntry, GlobalCache};
pub use dsp::{open_meter, DspEvent, DspLoop, DspRequest, METER_MODES};
pub use error::{AppError, AppResult, Fault};
pub use file_ops::{traverse_dirs, EntryKind, ScanEvent, ScanRequest, Traversal};
pub use paths::{is_supported_audio, is_supported_name, path_extension, probe_hint, PathPart};
pub use session::{track_count, worker_count, Session, SessionEvent, SessionRequest};
pub use tags::{stamp_gain, TagFormat};
pub use tally::{scan_results, Tally};
pub use track::{
    overall_peak, select_track, AudioParams, Measurement, Real32, Signature, TrackInfo, TrackPlan,
    TrackResult,
};
pub use writes::{write_outcome, write_wanted, WriteTally};
