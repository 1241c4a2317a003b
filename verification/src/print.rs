//! The ordered print sequence and the completion-poll state machine.
//!
//! A print job is a fixed frame sequence: the seven configuration commands
//! in protocol order, one raster-transfer frame per input line (in input
//! order), and the print-and-feed trigger.  After the trigger the transport
//! polls the status endpoint; `poll_step` decides each transition, and the
//! poll gives up after a fixed number of attempts.

use vstd::prelude::*;
use crate::commands;
use crate::commands::AdvancedMode;
use crate::commands::CompressionMode;
use crate::commands::Mode;
use crate::commands::PrintInfo;
use crate::commands::VariousMode;
use crate::device::DeviceStatus;
use crate::device::Error1;
use crate::device::Error2;
use crate::device::Status;
use crate::tiff;

verus! {

/// Tape margin, in dots, asked of every job.
pub const FEED_MARGIN_DOTS: u16 = 14;

/// How many status polls a print call makes before giving up.
pub const MAX_POLL_ATTEMPTS: u8 = 11;

/// The complete frame sequence of one print job over the given raster
/// lines: seven configuration frames in protocol order, one raster-transfer
/// frame per line in input order, then print-and-feed.
pub fn print_job_frames(lines: &Vec<[u8; 16]>, info: &PrintInfo) -> (frames: Vec<Vec<u8>>)
    ensures
        frames@.len() == lines@.len() + 8,
        frames@[0]@ == commands::spec_switch_mode(Mode::Raster),
        frames@[1]@ == commands::spec_status_notify(true),
        frames@[2]@ == commands::spec_print_info(*info),
        frames@[3]@ == commands::spec_various_mode(
            VariousMode { bits: commands::VARIOUS_MODE_AUTO_CUT },
        ),
        frames@[4]@ == commands::spec_advanced_mode(
            AdvancedMode { bits: commands::ADVANCED_MODE_NO_CHAIN },
        ),
        frames@[5]@ == commands::spec_margin(FEED_MARGIN_DOTS),
        frames@[6]@ == commands::spec_compression_mode(CompressionMode::Tiff),
        forall|k: int|
            0 <= k < lines@.len() ==> #[trigger] frames@[7 + k]@ == commands::spec_raster_transfer(
                tiff::spec_compress(lines@[k]@),
            ),
        frames@[lines@.len() as int + 7]@ == commands::spec_print_and_feed(),
{
    let mut frames: Vec<Vec<u8>> = Vec::new();
    frames.push(commands::encode_switch_mode(Mode::Raster));
    frames.push(commands::encode_status_notify(true));
    frames.push(commands::encode_print_info(info));
    frames.push(commands::encode_various_mode(VariousMode { bits: commands::VARIOUS_MODE_AUTO_CUT }));
    frames.push(
        commands::encode_advanced_mode(AdvancedMode { bits: commands::ADVANCED_MODE_NO_CHAIN }),
    );
    frames.push(commands::encode_margin(FEED_MARGIN_DOTS));
    frames.push(commands::encode_compression_mode(CompressionMode::Tiff));
    let mut k: usize = 0;
    while k < lines.len()
        invariant
            k <= lines@.len(),
            frames@.len() == 7 + k,
            frames@[0]@ == commands::spec_switch_mode(Mode::Raster),
            frames@[1]@ == commands::spec_status_notify(true),
            frames@[2]@ == commands::spec_print_info(*info),
            frames@[3]@ == commands::spec_various_mode(
                VariousMode { bits: commands::VARIOUS_MODE_AUTO_CUT },
            ),
            frames@[4]@ == commands::spec_advanced_mode(
                AdvancedMode { bits: commands::ADVANCED_MODE_NO_CHAIN },
            ),
            frames@[5]@ == commands::spec_margin(FEED_MARGIN_DOTS),
            frames@[6]@ == commands::spec_compression_mode(CompressionMode::Tiff),
            forall|j: int|
                0 <= j < k ==> #[trigger] frames@[7 + j]@ == commands::spec_raster_transfer(
                    tiff::spec_compress(lines@[j]@),
                ),
        decreases lines@.len() - k,
    {
        let compressed = tiff::compress(&lines[k]);
        frames.push(commands::encode_raster_transfer(&compressed));
        k += 1;
    }
    frames.push(commands::encode_print_and_feed());
    frames
}

/// State of the completion poll after some number of attempts.
#[derive(Clone, Copy, PartialEq, Eq, Structural, Debug)]
pub enum PollState {
    /// Still waiting; `attempts` status polls have been made so far.
    Polling { attempts: u8 },
    /// The device reported the print completed.
    Completed,
    /// The device raised an error bit; both bit-sets carried verbatim.
    Failed { error1: Error1, error2: Error2 },
    /// The attempt bound was reached with no terminal status.
    TimedOut,
}

/// A status frame that ends the poll: an error bit raised, or completion.
pub open spec fn spec_terminal(frame: Option<Status>) -> bool {
    match frame {
        Option::Some(s) => s.error1.bits != 0 || s.error2.bits != 0 || s.status_type
            == DeviceStatus::Completed,
        Option::None => false,
    }
}

/// The poll transition after `attempts` polls, on the frame this poll
/// produced (`None` stands for a failed status read, which is benign).
pub open spec fn spec_poll_step(attempts: u8, frame: Option<Status>) -> PollState {
    match frame {
        Option::Some(s) => {
            if s.error1.bits != 0 || s.error2.bits != 0 {
                PollState::Failed { error1: s.error1, error2: s.error2 }
            } else if s.status_type == DeviceStatus::Completed {
                PollState::Completed
            } else if attempts + 1 >= MAX_POLL_ATTEMPTS {
                PollState::TimedOut
            } else {
                PollState::Polling { attempts: (attempts + 1) as u8 }
            }
        },
        Option::None => {
            if attempts + 1 >= MAX_POLL_ATTEMPTS {
                PollState::TimedOut
            } else {
                PollState::Polling { attempts: (attempts + 1) as u8 }
            }
        },
    }
}

/// One transition of the completion poll.  An error bit-set ends the poll
/// with `Failed`, a completed status with `Completed`; a phase change, any
/// other status, or a failed read only consumes one attempt, and the bound
/// of `MAX_POLL_ATTEMPTS` attempts ends the poll with `TimedOut`.
pub fn poll_step(attempts: u8, frame: &Option<Status>) -> (next: PollState)
    requires
        attempts < MAX_POLL_ATTEMPTS,
    ensures
        next == spec_poll_step(attempts, *frame),
{
    match frame {
        Option::Some(s) => {
            if s.error1.bits != 0 || s.error2.bits != 0 {
                PollState::Failed { error1: s.error1, error2: s.error2 }
            } else if s.status_type == DeviceStatus::Completed {
                PollState::Completed
            } else if attempts + 1 >= MAX_POLL_ATTEMPTS {
                PollState::TimedOut
            } else {
                PollState::Polling { attempts: attempts + 1 }
            }
        },
        Option::None => {
            if attempts + 1 >= MAX_POLL_ATTEMPTS {
                PollState::TimedOut
            } else {
                PollState::Polling { attempts: attempts + 1 }
            }
        },
    }
}

/// Where the poll stands after consuming the given frames in order,
/// starting from `attempts` polls already made.
pub open spec fn spec_poll_run(frames: Seq<Option<Status>>, attempts: u8) -> PollState
    decreases frames.len(),
{
    if frames.len() == 0 {
        PollState::Polling { attempts }
    } else {
        match spec_poll_step(attempts, frames[0]) {
            PollState::Polling { attempts: a } => spec_poll_run(frames.skip(1), a),
            next => next,
        }
    }
}

proof fn lemma_poll_run_counts(frames: Seq<Option<Status>>, attempts: u8)
    requires
        attempts < MAX_POLL_ATTEMPTS,
        forall|k: int| 0 <= k < frames.len() ==> !spec_terminal(#[trigger] frames[k]),
    ensures
        attempts + frames.len() >= MAX_POLL_ATTEMPTS ==> spec_poll_run(frames, attempts)
            == PollState::TimedOut,
        attempts + frames.len() < MAX_POLL_ATTEMPTS ==> spec_poll_run(frames, attempts)
            == (PollState::Polling { attempts: (attempts + frames.len()) as u8 }),
    decreases frames.len(),
{
    if frames.len() > 0 {
        assert(!spec_terminal(frames[0]));
        if attempts + 1 < MAX_POLL_ATTEMPTS {
            lemma_poll_run_counts(frames.skip(1), (attempts + 1) as u8);
        }
    }
}

/// Law: if no status read ever reports a terminal state, the poll reaches
/// `TimedOut` after exactly `MAX_POLL_ATTEMPTS` attempts — never earlier.
pub proof fn lemma_poll_timeout_bound(frames: Seq<Option<Status>>)
    requires
        forall|k: int| 0 <= k < frames.len() ==> !spec_terminal(#[trigger] frames[k]),
    ensures
        frames.len() >= MAX_POLL_ATTEMPTS ==> spec_poll_run(frames, 0) == PollState::TimedOut,
        frames.len() < MAX_POLL_ATTEMPTS ==> spec_poll_run(frames, 0) == (PollState::Polling {
            attempts: frames.len() as u8,
        }),
{
    lemma_poll_run_counts(frames, 0);
}

} // verus!
