//! The audit trail: one record per transfer attempt and per ingestion,
//! appended to a day-bucketed index through the external sink. Building the
//! record and the index name is verified here; posting the document is the
//! sink's narrow interface, outside the library, and its failures are
//! logged but never fatal.

use vstd::prelude::*;

use crate::errors::SyncError;
use crate::text::push_str;
use crate::time_utils::datetime_valid;
use crate::time_utils::format_iso_datetime;
use crate::time_utils::get_currnet_utc_naivedatetime;
use crate::time_utils::spec_iso_datetime;
use crate::time_utils::DateTime;

verus! {

/// One append-only audit record.
pub struct ElasticMsg {
    pub timestamp: String,
    pub from_host: String,
    pub to_host: String,
    pub file_path: String,
    pub task_status: String,
    pub task_detail: String,
}

impl ElasticMsg {
    /// Builds the record for a known instant.
    pub fn with_timestamp(
        now: DateTime,
        from_host: &str,
        to_host: &str,
        file_path: &str,
        task_status: &str,
        task_detail: &str,
    ) -> (r: ElasticMsg)
        requires
            datetime_valid(now),
        ensures
            r.timestamp@ == spec_iso_datetime(now),
            r.from_host@ == from_host@,
            r.to_host@ == to_host@,
            r.file_path@ == file_path@,
            r.task_status@ == task_status@,
            r.task_detail@ == task_detail@,
    {
        ElasticMsg {
            timestamp: format_iso_datetime(&now),
            from_host: from_host.to_owned(),
            to_host: to_host.to_owned(),
            file_path: file_path.to_owned(),
            task_status: task_status.to_owned(),
            task_detail: task_detail.to_owned(),
        }
    }

    /// Builds the record, stamped with the current UTC instant; only a
    /// clock outside years 1..=9999 is rejected.
    pub fn new(
        from_host: &str,
        to_host: &str,
        file_path: &str,
        task_status: &str,
        task_detail: &str,
    ) -> (r: Result<ElasticMsg, SyncError>)
        ensures
            r is Err ==> r == Err::<ElasticMsg, SyncError>(SyncError::InvalidDate),
            r is Ok ==> r.unwrap().from_host@ == from_host@ && r.unwrap().to_host@ == to_host@
                && r.unwrap().file_path@ == file_path@ && r.unwrap().task_status@ == task_status@
                && r.unwrap().task_detail@ == task_detail@,
            r is Ok ==> exists|t: DateTime|
                datetime_valid(t) && r.unwrap().timestamp@ == spec_iso_datetime(t),
    {
        let now = get_currnet_utc_naivedatetime();
        if now.date.year < 1 || now.date.year > 9999 {
            return Err(SyncError::InvalidDate);
        }
        Ok(Self::with_timestamp(now, from_host, to_host, file_path, task_status, task_detail))
    }
}

/// The fixed part of the audit index's name.
pub open spec fn audit_index_prefix() -> Seq<char> {
    seq!['f', 'i', 'l', 'e', '_', 's', 'y', 'n', 'c', '_', 'l', 'o', 'g', '_']
}

/// The day-bucketed index an audit record is posted to.
pub fn audit_index_name(date_str: &str) -> (r: String)
    ensures
        r@ == audit_index_prefix() + date_str@,
{
    let mut s = String::new();
    push_str(&mut s, "file_sync_log_");
    push_str(&mut s, date_str);
    proof {
        reveal_strlit("file_sync_log_");
        assert("file_sync_log_"@ =~= audit_index_prefix());
        assert(s@ =~= audit_index_prefix() + date_str@);
    }
    s
}

/// One connection URL per audit-sink node, with the account woven in.
pub open spec fn spec_auth_url(id: Seq<char>, pw: Seq<char>, host: Seq<char>) -> Seq<char> {
    seq!['h', 't', 't', 'p', ':', '/', '/'] + id + seq![':'] + pw + seq!['@'] + host
}

/// The audit sink's node list, held as the connection URLs the external
/// client is built from.
pub struct EsRepositoryPub {
    pub hosts: Vec<String>,
    pub auth_urls: Vec<String>,
}

impl EsRepositoryPub {
    /// Lays out one authenticated connection URL per configured node; the
    /// connections themselves are made outside the library.
    pub fn new(hosts: Vec<String>, es_id: &str, es_pw: &str) -> (r: Result<Self, SyncError>)
        ensures
            r is Ok,
            r.unwrap().hosts@ == hosts@,
            r.unwrap().auth_urls@.len() == hosts@.len(),
            forall|i: int|
                0 <= i < hosts@.len() ==> (#[trigger] r.unwrap().auth_urls@[i])@ == spec_auth_url(
                    es_id@,
                    es_pw@,
                    hosts@[i]@,
                ),
    {
        let mut auth_urls: Vec<String> = Vec::new();
        let mut i: usize = 0;
        while i < hosts.len()
            invariant
                0 <= i <= hosts@.len(),
                auth_urls@.len() == i,
                forall|j: int|
                    0 <= j < i ==> (#[trigger] auth_urls@[j])@ == spec_auth_url(
                        es_id@,
                        es_pw@,
                        hosts@[j]@,
                    ),
            decreases hosts@.len() - i,
        {
            let mut u = String::new();
            push_str(&mut u, "http://");
            push_str(&mut u, es_id);
            push_str(&mut u, ":");
            push_str(&mut u, es_pw);
            push_str(&mut u, "@");
            push_str(&mut u, hosts[i].as_str());
            proof {
                reveal_strlit("http://");
                reveal_strlit(":");
                reveal_strlit("@");
                assert("http://"@ =~= seq!['h', 't', 't', 'p', ':', '/', '/']);
                assert(":"@ =~= seq![':']);
                assert("@"@ =~= seq!['@']);
                assert(u@ =~= spec_auth_url(es_id@, es_pw@, hosts@[i as int]@));
            }
            auth_urls.push(u);
            i += 1;
        }
        Ok(EsRepositoryPub { hosts, auth_urls })
    }
}

} // verus!
