//! Journaling of incoming commands and the switch that marks a replay of the journal.
use vstd::prelude::*;

use std::sync::atomic::AtomicBool;
use std::sync::atomic::Ordering;
use std::sync::Arc;

use crate::model::{OrderCommand, OrderCommandType};

verus! {

/// The switch shared by the stages that a replay of the journal skips (journaling and
/// events). Its clones share one flag, which other threads may flip at any time, so what a
/// read gives is not stated.
#[derive(Clone)]
pub struct ReplayControl {
    flag: Arc<AtomicBool>,
}

impl ReplayControl {
    /// A switch that starts on.
    pub fn enabled() -> (r: ReplayControl) {
        ReplayControl { flag: Arc::new(AtomicBool::new(true)) }
    }

    /// A switch that starts off.
    pub fn disabled() -> (r: ReplayControl) {
        ReplayControl { flag: Arc::new(AtomicBool::new(false)) }
    }

    /// Turns the replay on, visible to every later read.
    pub fn enable(&self) {
        self.flag.store(true, Ordering::SeqCst);
    }

    /// Turns the replay off, after every earlier write.
    pub fn disable(&self) {
        self.flag.store(false, Ordering::SeqCst);
    }

    /// Turns the replay on or off.
    pub fn set(&self, enabled: bool) {
        self.flag.store(enabled, Ordering::SeqCst);
    }

    /// Whether the replay is on.
    pub fn is_enabled(&self) -> (r: bool) {
        self.flag.load(Ordering::Relaxed)
    }
}

/// What journaling does with an incoming command.
#[derive(Debug, Clone, Copy, PartialEq, Eq, Structural)]
pub enum JournalStep {
    /// During a replay the command passes unchanged and is not journaled again.
    Passthrough,
    /// The command is stamped and written to the journal; `new_order_id` tells whether it gets
    /// a fresh order id (every command but a cancel, which names an existing order).
    Stamp { new_order_id: bool },
}

/// What journaling does with a command, in or out of a replay.
pub open spec fn journal_step_for(replaying: bool, cmd: OrderCommand) -> JournalStep {
    if replaying {
        JournalStep::Passthrough
    } else {
        JournalStep::Stamp { new_order_id: cmd.command != OrderCommandType::CancelOrder }
    }
}

/// Decides what journaling does with a command.
pub fn journal_step(replaying: bool, cmd: &OrderCommand) -> (r: JournalStep)
    ensures
        r == journal_step_for(replaying, *cmd),
{
    if replaying {
        JournalStep::Passthrough
    } else {
        JournalStep::Stamp {
            new_order_id: match cmd.command {
                OrderCommandType::CancelOrder => false,
                _ => true,
            },
        }
    }
}

/// Stamps a command for the journal: the fresh order id, if one was generated, and the
/// journaling time. Nothing else changes.
pub fn stamp_command(cmd: &mut OrderCommand, order_id: Option<u64>, timestamp: u64)
    ensures
        *final(cmd) == (OrderCommand {
            order_id: match order_id {
                Some(id) => id,
                None => old(cmd).order_id,
            },
            timestamp,
            ..*old(cmd)
        }),
{
    match order_id {
        Some(id) => {
            cmd.order_id = id;
        },
        None => {},
    }
    cmd.timestamp = timestamp;
}


/// What journaling does with each kind of command: during a replay every command passes
/// through unchanged; otherwise every command is stamped, and every command but a cancel
/// (a place, a deposit or a withdrawal) gets a fresh order id, while a cancel keeps the id of
/// the order it names.
pub proof fn law_fresh_ids_for_all_but_cancels(cmd: OrderCommand)
    ensures
        journal_step_for(true, cmd) == JournalStep::Passthrough,
        cmd.command == OrderCommandType::PlaceOrder ==> journal_step_for(false, cmd)
            == (JournalStep::Stamp { new_order_id: true }),
        cmd.command == OrderCommandType::DepositFunds ==> journal_step_for(false, cmd)
            == (JournalStep::Stamp { new_order_id: true }),
        cmd.command == OrderCommandType::WithdrawFunds ==> journal_step_for(false, cmd)
            == (JournalStep::Stamp { new_order_id: true }),
        cmd.command == OrderCommandType::CancelOrder ==> journal_step_for(false, cmd)
            == (JournalStep::Stamp { new_order_id: false }),
{
}

} // verus!
