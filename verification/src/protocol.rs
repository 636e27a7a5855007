//! Wire types of the `/ws/training` protocol, shared by the server and its
//! clients.
//!
//! Floating-point values are carried as their IEEE 754 bit patterns: no
//! decision depends on them.

use vstd::prelude::*;

use crate::clock::Timestamp;
use crate::ids::RunId;

verus! {

/// Training-run parameters (sent by the Training page / MCP start tool).
#[derive(Debug, PartialEq)]
pub struct TrainingConfig {
    /// Dataset snapshot to train on (`datasets/<name>.json`). Required: a run
    /// consumes an immutable snapshot, never the live store.
    pub dataset: String,
    /// Number of epochs to run.
    pub epochs: usize,
    /// Batch size.
    pub batch_size: usize,
    /// Learning rate (bits of a double).
    pub lr: u64,
    /// Fraction of samples held out for validation (bits of a single).
    pub valid_fraction: u32,
    /// Cap on optimizer steps per epoch (`None` = full epochs).
    pub max_batches: Option<usize>,
    /// Use the portable CPU backend instead of the GPU.
    pub cpu: bool,
}

/// Epochs of a run that does not say how many.
pub fn default_epochs() -> (r: usize)
    ensures
        r == 50,
{
    50
}

/// Batch size of a run that does not say how large.
pub fn default_batch_size() -> (r: usize)
    ensures
        r == 4,
{
    4
}

/// Learning rate of a run that does not say which: the bits of the double
/// nearest to 0.001.
pub fn default_lr() -> (r: u64)
    ensures
        r == 0x3f50_624d_d2f1_a9fc,
{
    0x3f50_624d_d2f1_a9fc
}

/// Validation fraction of a run that does not say which: the bits of the single
/// nearest to 0.1.
pub fn default_valid_fraction() -> (r: u32)
    ensures
        r == 0x3dcc_cccd,
{
    0x3dcc_cccd
}

impl Default for TrainingConfig {
    fn default() -> (r: Self)
        ensures
            r.dataset@ == Seq::<char>::empty(),
            r.epochs == 50,
            r.batch_size == 4,
            r.lr == 0x3f50_624d_d2f1_a9fc,
            r.valid_fraction == 0x3dcc_cccd,
            r.max_batches is None,
            !r.cpu,
    {
        TrainingConfig {
            dataset: String::new(),
            epochs: default_epochs(),
            batch_size: default_batch_size(),
            lr: default_lr(),
            valid_fraction: default_valid_fraction(),
            max_batches: None,
            cpu: false,
        }
    }
}

impl Clone for TrainingConfig {
    fn clone(&self) -> (r: Self)
        ensures
            r == *self,
    {
        TrainingConfig {
            dataset: self.dataset.clone(),
            epochs: self.epochs,
            batch_size: self.batch_size,
            lr: self.lr,
            valid_fraction: self.valid_fraction,
            max_batches: self.max_batches,
            cpu: self.cpu,
        }
    }
}

/// A reported loss: the double to show, or the singles that it is computed
/// from.
#[derive(Debug, Clone, Copy, PartialEq, Eq, Structural)]
pub enum Loss {
    /// This double (its bits).
    Double(u64),
    /// This single (its bits), widened.
    Single(u32),
    /// The single-precision sum of these two (their bits), widened.
    SingleSum(u32, u32),
}

/// One chart point, emitted per training batch (the validation loss is set only
/// on the epoch-end point).
#[derive(Debug, Clone, Copy, PartialEq, Eq)]
pub struct TrainingMetricsPoint {
    /// Monotonic sequence number (x axis + dedup).
    pub seq: u64,
    pub epoch: usize,
    /// Batch within the epoch (1-based).
    pub batch: usize,
    /// Total batches of the whole run (for the progress line).
    pub total_batches: usize,
    pub train_loss: Loss,
    pub cls_loss: Loss,
    pub bbox_loss: Loss,
    /// Validation loss (epoch-end points only).
    pub valid_loss: Option<Loss>,
    /// Detection mAP (not evaluated yet).
    pub map: Option<Loss>,
}

/// Client to server: start/attach and runtime commands, all over one socket.
/// `Start` has no run id, since the run does not exist yet; the server replies
/// [`TrainingEvent::Started`] with the assigned id, which scopes every later
/// command.
#[derive(Debug, Clone, PartialEq)]
pub enum TrainingCommand {
    /// Start a training run (must be the first message on the socket).
    Start {
        config: TrainingConfig,
        /// Post-batch throttle in batches/sec (bits of a double; at most 0 =
        /// unlimited).
        speed: u64,
    },
    /// Attach as a viewer to run `id` (replay + live stream; starts nothing).
    Attach { id: RunId },
    Pause { id: RunId },
    Resume { id: RunId },
    /// Finish the current batch, save the checkpoint, end the run (the run
    /// record stays visible).
    Stop { id: RunId },
    /// Like Stop, but additionally wipes the run record.
    Reset { id: RunId },
    SetSpeed { id: RunId, batches_per_sec: u64 },
}

impl TrainingCommand {
    /// The run that the command is addressed to (`None` for `Start`).
    pub open spec fn addressee(self) -> Option<RunId> {
        match self {
            TrainingCommand::Start { .. } => None,
            TrainingCommand::Attach { id } => Some(id),
            TrainingCommand::Pause { id } => Some(id),
            TrainingCommand::Resume { id } => Some(id),
            TrainingCommand::Stop { id } => Some(id),
            TrainingCommand::Reset { id } => Some(id),
            TrainingCommand::SetSpeed { id, .. } => Some(id),
        }
    }

    /// Run id of run-scoped commands (`None` for `Start`).
    pub fn run_id(&self) -> (r: Option<RunId>)
        ensures
            r == self.addressee(),
    {
        match self {
            TrainingCommand::Start { .. } => None,
            TrainingCommand::Attach { id } | TrainingCommand::Pause { id }
            | TrainingCommand::Resume { id } | TrainingCommand::Stop { id }
            | TrainingCommand::Reset { id } | TrainingCommand::SetSpeed { id, .. } => Some(*id),
        }
    }
}

/// Lifecycle of one training run. `Pausing`/`Stopping` are the instant command
/// acknowledgments; the settled `Paused`/`Stopped` arrive when the training
/// thread reaches the batch boundary. Terminal variants carry the run's result.
#[derive(Debug, PartialEq)]
pub enum TrainingStatus {
    Running,
    Pausing,
    Paused,
    Stopping,
    Done { run_dir: String, duration_secs: u64 },
    /// Ended via Stop (checkpoint saved).
    Stopped { run_dir: String, duration_secs: u64 },
    Failed { error: String },
}

impl TrainingStatus {
    /// The run has ended.
    pub open spec fn terminal(self) -> bool {
        self is Done || self is Stopped || self is Failed
    }

    /// Whether the run has ended.
    pub fn is_terminal(&self) -> (r: bool)
        ensures
            r == self.terminal(),
    {
        match self {
            TrainingStatus::Done { .. } | TrainingStatus::Stopped { .. }
            | TrainingStatus::Failed { .. } => true,
            _ => false,
        }
    }
}

impl Clone for TrainingStatus {
    fn clone(&self) -> (r: Self)
        ensures
            r == *self,
    {
        match self {
            TrainingStatus::Running => TrainingStatus::Running,
            TrainingStatus::Pausing => TrainingStatus::Pausing,
            TrainingStatus::Paused => TrainingStatus::Paused,
            TrainingStatus::Stopping => TrainingStatus::Stopping,
            TrainingStatus::Done { run_dir, duration_secs } => TrainingStatus::Done {
                run_dir: run_dir.clone(),
                duration_secs: *duration_secs,
            },
            TrainingStatus::Stopped { run_dir, duration_secs } => TrainingStatus::Stopped {
                run_dir: run_dir.clone(),
                duration_secs: *duration_secs,
            },
            TrainingStatus::Failed { error } => TrainingStatus::Failed { error: error.clone() },
        }
    }
}

/// `GET /api/training/status` response: the current or most recent run.
#[derive(Debug, Clone, PartialEq)]
pub struct TrainingRunStatus {
    /// Server-assigned run id (scopes commands and events).
    pub id: RunId,
    pub config: TrainingConfig,
    pub started_at: Timestamp,
    pub status: TrainingStatus,
    /// Metrics points produced so far.
    pub points: usize,
    pub latest: Option<TrainingMetricsPoint>,
}

/// One checkpoint run directory (`GET /api/runs`).
#[derive(Debug, Clone, PartialEq)]
pub struct RunInfo {
    /// Directory name (timestamp, e.g. `20260910-123045`).
    pub name: String,
    /// Number of classes the model detects.
    pub classes: usize,
}

/// Server to client events for one run. Every run-scoped variant carries the
/// run id; a socket only receives events for the run it started or attached to.
#[derive(Debug, Clone, PartialEq)]
pub enum TrainingEvent {
    /// Ack for [`TrainingCommand::Start`]; carries the server-assigned run id.
    Started { id: RunId },
    Metrics { id: RunId, point: TrainingMetricsPoint },
    Status { id: RunId, status: TrainingStatus },
    /// The run record was wiped; viewers clear their charts and go back to
    /// idle.
    Cleared { id: RunId },
    /// The run ended (after a terminal `Status`); the server closes the socket
    /// right after.
    Finished { id: RunId },
    /// Bad message, rejected start, unknown run id.
    Error { message: String },
}

impl TrainingEvent {
    /// The run that the event is about (`None` for `Error`).
    pub open spec fn subject(self) -> Option<RunId> {
        match self {
            TrainingEvent::Started { id } => Some(id),
            TrainingEvent::Metrics { id, .. } => Some(id),
            TrainingEvent::Status { id, .. } => Some(id),
            TrainingEvent::Cleared { id } => Some(id),
            TrainingEvent::Finished { id } => Some(id),
            TrainingEvent::Error { .. } => None,
        }
    }

    /// The event is a status that ends the run.
    pub open spec fn ends(self) -> bool {
        self matches TrainingEvent::Status { status, .. } && status.terminal()
    }

    /// The event is an error with this message.
    pub open spec fn reports(self, text: Seq<char>) -> bool {
        self matches TrainingEvent::Error { message } && message@ == text
    }
}

} // verus!
