//! A scrobble engine: decides which played tracks count as listened to,
//! keeps them in a queue with retry bookkeeping and drives their submission
//! to a remote music-tracking service.

pub mod config;
pub mod engine;
pub mod playback;
pub mod queue;
pub mod timer;
pub mod track;
pub mod worker;

pub use engine::{feed, player_event};
pub use config::{Builder, ClientConfig, ConfigError, LASTFM_API_AUTH_URL, LASTFM_API_BASE_URL};
pub use playback::{Playback, PlayerEvent};
pub use queue::{EnqueueError, Outcome, RecordState, Resolution, ScrobbleQueue, ScrobbleRecord};
pub use timer::EligibilityTimer;
pub use track::Track;
pub use worker::{ItemOutcome, SubmissionWorker, SubmitResponse, WorkerAction, WorkerPhase};
