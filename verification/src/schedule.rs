//! Durable schedules: configuration and projected state.

use vstd::prelude::*;
use vstd::string::*;

use crate::payload::{Payload, PayloadView};
use crate::text::same_text;
use crate::timestamp::Span;

verus! {

/// When a schedule triggers.
#[derive(Clone, Copy, Debug, PartialEq, Eq, Structural)]
pub enum TriggerSpec {
    /// At regular intervals.
    Interval {
        /// Length of the interval.
        period: Span,
    },
}

/// What happens when a trigger finds the previous execution still running.
#[derive(Clone, Copy, Debug, PartialEq, Eq, Structural)]
pub enum OverlapPolicy {
    /// The trigger is skipped.
    Skip,
}

/// What happens to triggers that were missed while the engine was down.
#[derive(Clone, Copy, Debug, PartialEq, Eq, Structural)]
pub enum CatchUpPolicy {
    /// Missed triggers are skipped.
    Skip,
}

/// Configuration of a schedule.
#[derive(Debug, PartialEq, Eq)]
pub struct ScheduleConfig {
    /// When the schedule triggers.
    pub trigger: TriggerSpec,
    /// Treatment of overlapping executions.
    pub overlap_policy: OverlapPolicy,
    /// Treatment of missed triggers.
    pub catch_up_policy: CatchUpPolicy,
    /// Type of the workflows that the schedule starts.
    pub workflow_type: String,
    /// Input of the workflows that the schedule starts.
    pub input: Payload,
}

/// Mathematical value of a [`ScheduleConfig`].
pub struct ScheduleConfigView {
    /// When the schedule triggers.
    pub trigger: TriggerSpec,
    /// Treatment of overlapping executions.
    pub overlap_policy: OverlapPolicy,
    /// Treatment of missed triggers.
    pub catch_up_policy: CatchUpPolicy,
    /// Type of the workflows that the schedule starts.
    pub workflow_type: Seq<char>,
    /// Input of the workflows that the schedule starts.
    pub input: PayloadView,
}

impl View for ScheduleConfig {
    type V = ScheduleConfigView;

    open spec fn view(&self) -> ScheduleConfigView {
        ScheduleConfigView {
            trigger: self.trigger,
            overlap_policy: self.overlap_policy,
            catch_up_policy: self.catch_up_policy,
            workflow_type: self.workflow_type@,
            input: self.input@,
        }
    }
}

impl Clone for ScheduleConfig {
    fn clone(&self) -> (copy: Self)
        ensures
            copy@ == self@,
    {
        ScheduleConfig {
            trigger: self.trigger,
            overlap_policy: self.overlap_policy,
            catch_up_policy: self.catch_up_policy,
            workflow_type: self.workflow_type.clone(),
            input: self.input.clone(),
        }
    }
}

impl ScheduleConfig {
    /// Whether two configurations are the same.
    pub fn same(&self, other: &Self) -> (same: bool)
        ensures
            same == (self@ == other@),
    {
        self.trigger == other.trigger && self.overlap_policy == other.overlap_policy
            && self.catch_up_policy == other.catch_up_policy && same_text(
            self.workflow_type.as_str(),
            other.workflow_type.as_str(),
        ) && self.input.same(&other.input)
    }
}

} // verus!
