//! What appending one line to the rotating diagnostics log does to the two
//! log files.  The caller performs the file operations that the plan names.
use vstd::prelude::*;
use crate::diagnostics::schema::MAX_LINE_BYTES;

verus! {

/// Name of the active log file.
pub const DIAGNOSTICS_FILENAME: &'static str = "diagnostics.jsonl";
/// Name of the one backup log file.
pub const DIAGNOSTICS_BACKUP_FILENAME: &'static str = "diagnostics.jsonl.1";
/// Largest size a log file is kept at.
pub const MAX_FILE_BYTES: u64 = 262144;

/// The file operations of one append, in order: empty an oversized backup,
/// empty an oversized active file, move the active file over the backup, then
/// append the line and a newline to the active file.
#[derive(Clone, Copy, Debug, PartialEq, Eq, Structural)]
pub struct AppendPlan {
    pub truncate_backup: bool,
    pub truncate_active: bool,
    pub rotate: bool,
}

/// The size of the active file once the operations before the append ran.
pub open spec fn active_size_before_write(active_size: Option<u64>, plan: AppendPlan) -> nat {
    if plan.rotate {
        0
    } else {
        match active_size {
            Some(size) => if plan.truncate_active {
                0
            } else {
                size as nat
            },
            None => 0,
        }
    }
}

/// The plan for appending a line of `line_len` bytes, given the sizes of the
/// active and backup files where they exist; `None` when the line is longer
/// than a log line may be.
pub open spec fn spec_plan_append(line_len: usize, active_size: Option<u64>, backup_size: Option<u64>) -> Option<
    AppendPlan,
> {
    if line_len > MAX_LINE_BYTES {
        None
    } else {
        let truncate_backup = backup_size is Some && backup_size->0 > MAX_FILE_BYTES;
        let truncate_active = active_size is Some && active_size->0 > MAX_FILE_BYTES;
        let effective: nat = if truncate_active {
            0
        } else {
            match active_size {
                Some(size) => size as nat,
                None => 0,
            }
        };
        Some(
            AppendPlan {
                truncate_backup,
                truncate_active,
                rotate: active_size is Some && effective + line_len + 1 > MAX_FILE_BYTES,
            },
        )
    }
}

/// Plans the append of one line to the rotating log.
pub fn plan_append(line_len: usize, active_size: Option<u64>, backup_size: Option<u64>) -> (plan: Option<
    AppendPlan,
>)
    ensures
        plan == spec_plan_append(line_len, active_size, backup_size),
{
    if line_len > MAX_LINE_BYTES {
        return None;
    }
    let truncate_backup = match backup_size {
        Some(size) => size > MAX_FILE_BYTES,
        None => false,
    };
    let truncate_active = match active_size {
        Some(size) => size > MAX_FILE_BYTES,
        None => false,
    };
    let effective: u64 = if truncate_active {
        0
    } else {
        match active_size {
            Some(size) => size,
            None => 0,
        }
    };
    let line_size: u64 = (line_len as u64) + 1;
    let rotate = active_size.is_some() && effective + line_size > MAX_FILE_BYTES;
    Some(AppendPlan { truncate_backup, truncate_active, rotate })
}

/// After a planned append, neither file is larger than `MAX_FILE_BYTES`:
/// the active file holds at most the bound, and whatever the backup holds
/// was itself kept within the bound or emptied.
pub proof fn lemma_append_keeps_files_bounded(
    line_len: usize,
    active_size: Option<u64>,
    backup_size: Option<u64>,
)
    requires
        spec_plan_append(line_len, active_size, backup_size) is Some,
    ensures
        ({
            let plan = spec_plan_append(line_len, active_size, backup_size)->0;
            &&& active_size_before_write(active_size, plan) + line_len + 1 <= MAX_FILE_BYTES
            &&& plan.rotate ==> (active_size->0 <= MAX_FILE_BYTES || plan.truncate_active)
            &&& !plan.rotate && backup_size is Some ==> (backup_size->0 <= MAX_FILE_BYTES
                || plan.truncate_backup)
        }),
{
}

} // verus!
