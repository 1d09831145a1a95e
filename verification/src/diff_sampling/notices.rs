//! Notices that stand in the prompt where diff text was left out.
use vstd::prelude::*;

verus! {

/// Opens a diff that was sampled to fit its budget.
pub const DIFF_SAMPLING_NOTICE: &'static str = "[diff sampled to fit the prompt budget]\n";

/// Replaces the hunks of a deleted file.
pub const DIFF_DELETED_FILE_NOTICE: &'static str = "[deleted file content omitted]\n";

/// Ends a file header that was cut.
pub const DIFF_HEADER_TRUNCATED_NOTICE: &'static str = "[header truncated]\n";

/// Ends a hunk that was cut.
pub const DIFF_HUNK_TRUNCATED_NOTICE: &'static str = "[hunk truncated]\n";

/// Ends a diff stat that was cut.
pub const DIFF_STAT_TRUNCATED_NOTICE: &'static str = "[diff stat truncated]\n";

/// Replaces the hunks of a file under a suppressed directory.
pub const DIFF_SUPPRESSED_CONTENT_NOTICE: &'static str = "[generated content suppressed]\n";

} // verus!
