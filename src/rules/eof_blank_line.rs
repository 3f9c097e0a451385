//! Requires the source to end with a line break.
use vstd::prelude::*;
use crate::registry::Registry;
use crate::report::{LintReport, RuleInfo, report_views, warning_at};
use crate::rules::{RuleKind, RuleView};
use crate::text::chars_of;

verus! {

pub const RULE_NAME: &'static str = "eof_blank_line";

pub open spec fn eof_message() -> Seq<char> {
    "File is expected to end with a blank line, but does not"@
}

/// One file-level diagnostic when `src` does not end with a line break.
pub open spec fn eof_effect(st: RuleView, src: Seq<char>) -> RuleView {
    if src.len() > 0 && src.last() == '\n' {
        st
    } else {
        RuleView { reports: st.reports.push(warning_at(0, 0, eof_message())), ..st }
    }
}

pub struct EofBlankLine {
    pub reports: Vec<LintReport>,
}

impl EofBlankLine {
    pub fn info() -> (r: RuleInfo)
        ensures
            r.name == RULE_NAME,
    {
        RuleInfo {
            name: RULE_NAME,
            description: "Require a blank line at the end of the file",
            version: "20230224",
            config_example: "",
        }
    }

    /// Subscribes, under `rule_name`, to the preprocessing pass.
    pub fn apply(rules: &mut Registry, rule_name: &str) -> (r: Self)
        requires
            old(rules).wf(),
        ensures
            final(rules).wf(),
            final(rules).bound_preprocessor(*old(rules), rule_name@, RuleKind::EofBlankLine),
            r.reports@.len() == 0,
    {
        rules.preprocess(rule_name, RuleKind::EofBlankLine);
        EofBlankLine { reports: Vec::new() }
    }

    /// Checks the text; it is handed on unchanged.
    pub fn preprocess(&mut self, source: String) -> (r: String)
        ensures
            r == source,
            report_views(final(self).reports@) == eof_effect(
                RuleView { kind: RuleKind::EofBlankLine, reports: report_views(old(self).reports@), setting: 0, last_line: 0 },
                source@,
            ).reports,
    {
        let chars = chars_of(source.as_str());
        let n = chars.len();
        if !(n > 0 && chars[n - 1] == '\n') {
            let msg = "File is expected to end with a blank line, but does not".to_owned();
            self.reports.push(LintReport::warning(0, 0, msg));
            proof {
                assert(report_views(self.reports@) =~= report_views(old(self).reports@).push(warning_at(0, 0, eof_message())));
            }
        }
        source
    }
}

} // verus!
