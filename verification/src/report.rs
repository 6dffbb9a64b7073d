//! Human-readable reporting of every executed, skipped or refused action.

use vstd::prelude::*;
use vstd::string::StringExecFns;
use crate::action::{Action, ActionPlan, ActionV};
use crate::paths::{join_segments, path_display};

verus! {

/// One report line: a verb, its detail, and whether it is a warning.
pub struct LogLine {
    pub warn: bool,
    pub verb: String,
    pub detail: String,
}

/// Mathematical image of a [`LogLine`].
#[verifier::ext_equal]
pub struct LogLineV {
    pub warn: bool,
    pub verb: Seq<char>,
    pub detail: Seq<char>,
}

impl View for LogLine {
    type V = LogLineV;

    open spec fn view(&self) -> LogLineV {
        LogLineV { warn: self.warn, verb: self.verb@, detail: self.detail@ }
    }
}

impl DeepView for LogLine {
    type V = LogLineV;

    open spec fn deep_view(&self) -> LogLineV {
        self.view()
    }
}

/// The report line of one action under one disposition: a creation is
/// plain, an overwrite or a skip is a warning, and the detail names the
/// paths involved.
pub open spec fn log_line_spec(a: ActionV, plan: ActionPlan) -> LogLineV {
    match plan {
        ActionPlan::Create => match a {
            ActionV::CopyFile { source, target } => LogLineV {
                warn: false,
                verb: "Copying"@,
                detail: join_segments(source) + " to "@ + join_segments(target),
            },
            ActionV::CopyFileTransformed { source, target, .. } => LogLineV {
                warn: false,
                verb: "Copying"@,
                detail: join_segments(source) + " to "@ + join_segments(target)
                    + " transformed"@,
            },
            ActionV::WriteFile { target, .. } => LogLineV {
                warn: false,
                verb: "Creating"@,
                detail: join_segments(target),
            },
        },
        ActionPlan::Overwrite => match a {
            ActionV::CopyFile { source, target } => LogLineV {
                warn: true,
                verb: "Overwriting"@,
                detail: join_segments(target) + " with "@ + join_segments(source),
            },
            ActionV::CopyFileTransformed { source, target, .. } => LogLineV {
                warn: true,
                verb: "Overwriting"@,
                detail: join_segments(target) + " with "@ + join_segments(source)
                    + " transformed"@,
            },
            ActionV::WriteFile { target, .. } => LogLineV {
                warn: true,
                verb: "Overwriting"@,
                detail: join_segments(target),
            },
        },
        ActionPlan::SkipSameContent => match a {
            ActionV::CopyFile { source, target } => LogLineV {
                warn: true,
                verb: "Skipping"@,
                detail: "copying "@ + join_segments(source) + " to "@ + join_segments(target)
                    + ", content already up-to-date"@,
            },
            ActionV::CopyFileTransformed { source, target, .. } => LogLineV {
                warn: true,
                verb: "Skipping"@,
                detail: "copying "@ + join_segments(source) + " to "@ + join_segments(target)
                    + " transformed, content already up-to-date"@,
            },
            ActionV::WriteFile { target, .. } => LogLineV {
                warn: true,
                verb: "Skipping"@,
                detail: "generating "@ + join_segments(target)
                    + ", content already up-to-date"@,
            },
        },
    }
}

/// Builds the report line of one action under one disposition.
pub fn log_action_plan(action: &Action, plan: ActionPlan) -> (l: LogLine)
    ensures
        l@ == log_line_spec(action@, plan),
{
    match plan {
        ActionPlan::Create => match action {
            Action::CopyFile { source, target } => {
                let mut d = path_display(source);
                d.append(" to ");
                let t = path_display(target);
                d.append(t.as_str());
                LogLine { warn: false, verb: String::from_str("Copying"), detail: d }
            },
            Action::CopyFileTransformed { source, target, .. } => {
                let mut d = path_display(source);
                d.append(" to ");
                let t = path_display(target);
                d.append(t.as_str());
                d.append(" transformed");
                LogLine { warn: false, verb: String::from_str("Copying"), detail: d }
            },
            Action::WriteFile { target, .. } => {
                LogLine {
                    warn: false,
                    verb: String::from_str("Creating"),
                    detail: path_display(target),
                }
            },
        },
        ActionPlan::Overwrite => match action {
            Action::CopyFile { source, target } => {
                let mut d = path_display(target);
                d.append(" with ");
                let s = path_display(source);
                d.append(s.as_str());
                LogLine { warn: true, verb: String::from_str("Overwriting"), detail: d }
            },
            Action::CopyFileTransformed { source, target, .. } => {
                let mut d = path_display(target);
                d.append(" with ");
                let s = path_display(source);
                d.append(s.as_str());
                d.append(" transformed");
                LogLine { warn: true, verb: String::from_str("Overwriting"), detail: d }
            },
            Action::WriteFile { target, .. } => {
                LogLine {
                    warn: true,
                    verb: String::from_str("Overwriting"),
                    detail: path_display(target),
                }
            },
        },
        ActionPlan::SkipSameContent => match action {
            Action::CopyFile { source, target } => {
                let mut d = String::from_str("copying ");
                let s = path_display(source);
                d.append(s.as_str());
                d.append(" to ");
                let t = path_display(target);
                d.append(t.as_str());
                d.append(", content already up-to-date");
                LogLine { warn: true, verb: String::from_str("Skipping"), detail: d }
            },
            Action::CopyFileTransformed { source, target, .. } => {
                let mut d = String::from_str("copying ");
                let s = path_display(source);
                d.append(s.as_str());
                d.append(" to ");
                let t = path_display(target);
                d.append(t.as_str());
                d.append(" transformed, content already up-to-date");
                LogLine { warn: true, verb: String::from_str("Skipping"), detail: d }
            },
            Action::WriteFile { target, .. } => {
                let mut d = String::from_str("generating ");
                let t = path_display(target);
                d.append(t.as_str());
                d.append(", content already up-to-date");
                LogLine { warn: true, verb: String::from_str("Skipping"), detail: d }
            },
        },
    }
}

} // verus!
