//! What the manager and a training thread exchange.

use vstd::prelude::*;

use crate::protocol::TrainingConfig;

verus! {

/// Parameters of one run: the client's config and the server's store paths.
#[derive(Debug, PartialEq)]
pub struct TrainParams {
    pub config: TrainingConfig,
    /// Store root (`datasets/` lives under it).
    pub data: String,
    /// Directory that receives the run's checkpoint directory.
    pub out: String,
}

impl Default for TrainParams {
    fn default() -> (r: Self)
        ensures
            r.config.dataset@ == Seq::<char>::empty(),
            r.config.epochs == 50,
            r.config.batch_size == 4,
            r.config.lr == 0x3f50_624d_d2f1_a9fc,
            r.config.valid_fraction == 0x3dcc_cccd,
            r.config.max_batches is None,
            !r.config.cpu,
            r.data@ == Seq::<char>::empty(),
            r.out@ == Seq::<char>::empty(),
    {
        TrainParams { config: TrainingConfig::default(), data: String::new(), out: String::new() }
    }
}

impl Clone for TrainParams {
    fn clone(&self) -> (r: Self)
        ensures
            r == *self,
    {
        TrainParams {
            config: self.config.clone(),
            data: self.data.clone(),
            out: self.out.clone(),
        }
    }
}

/// What a training thread reports while it runs (losses are bits of singles).
#[derive(Debug, Clone, Copy, PartialEq, Eq)]
pub enum TrainEvent {
    Batch {
        epoch: usize,
        batch: usize,
        total_batches: usize,
        cls_loss: u32,
        bbox_loss: u32,
        total_loss: u32,
    },
    EpochEnd {
        epoch: usize,
        total_epochs: usize,
        train_cls: u32,
        train_bbox: u32,
        valid_cls: u32,
        valid_bbox: u32,
    },
    /// The thread holds at a batch boundary.
    Paused,
}

/// How a training thread ended without an error (the checkpoint was saved
/// either way).
#[derive(Debug, PartialEq)]
pub enum TrainExit {
    Completed { run_dir: String, duration_secs: u64 },
    Aborted { run_dir: String, duration_secs: u64 },
}

/// What a training thread is asked to do at the next batch boundary.
#[derive(Debug, Clone, Copy, PartialEq, Eq, Structural)]
pub enum TrainAction {
    Continue,
    Pause,
    Abort,
}

/// The value that a training thread reads at every batch boundary.
#[derive(Debug, Clone, Copy, PartialEq, Eq, Structural)]
pub struct ControlState {
    pub action: TrainAction,
    /// Throttle in batches/sec (bits of a double; at most 0 = unlimited).
    pub batches_per_sec: u64,
}

/// Message from a training thread to the manager.
#[derive(Debug, PartialEq)]
pub enum ThreadMsg {
    Event(TrainEvent),
    Exited(Result<TrainExit, String>),
}

} // verus!
