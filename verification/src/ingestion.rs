//! The Ingestion Handler's decisions: where an uploaded file lands, and
//! where the existing copy is backed up first — a `YYYYMMDD` bucket under
//! the backup root, a timestamped name inside it. The handler trusts the
//! master's change decision and never re-verifies content. Creating
//! directories, copying and overwriting happen outside the library, plan in
//! hand.

use vstd::prelude::*;

use crate::file_service::path_join;
use crate::file_service::spec_path_join;
use crate::file_service::FileServicePub;
use crate::time_utils::datetime_valid;
use crate::time_utils::format_yyyymmdd;
use crate::time_utils::spec_compact_datetime;
use crate::time_utils::spec_yyyymmdd;
use crate::time_utils::DateTime;

verus! {

/// Where one upload's pieces go.
pub struct UploadPlan {
    /// The destination the uploaded bytes overwrite: the watched directory
    /// joined with the received name.
    pub dest_path: String,
    /// Today's backup bucket under the backup root.
    pub backup_bucket: String,
    /// The timestamped backup copy inside the bucket.
    pub backup_file: String,
}

/// Plans one upload: the destination path, the day's backup bucket, and
/// the backup copy's name. The caller backs up any existing destination
/// file to `backup_file`, then creates or truncates `dest_path` and writes
/// the received bytes into it.
pub fn handle_upload(file_name: &str, watch_path: &str, backup_root: &str, now: &DateTime) -> (r:
    UploadPlan)
    requires
        datetime_valid(*now),
    ensures
        r.dest_path@ == spec_path_join(watch_path@, file_name@),
        r.backup_bucket@ == spec_path_join(backup_root@, spec_yyyymmdd(now.date)),
        r.backup_file@ == spec_path_join(
            spec_path_join(backup_root@, spec_yyyymmdd(now.date)),
            file_name@ + seq!['.'] + spec_compact_datetime(*now),
        ),
{
    let dest_path = path_join(watch_path, file_name);
    let bucket_name = format_yyyymmdd(&now.date);
    let backup_bucket = path_join(backup_root, bucket_name.as_str());
    let file_service = FileServicePub::new();
    let backup_file = file_service.copy_file_for_backup(backup_root, file_name, now);
    UploadPlan { dest_path, backup_bucket, backup_file }
}

} // verus!
