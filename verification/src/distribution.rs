//! The Distribution Coordinator's decisions: which strategy to run, which
//! URL each slave is addressed under, one transfer task per configured
//! slave, and the aggregation of per-task outcomes where no failure aborts
//! a sibling. Spawning the tasks and awaiting them happens outside the
//! library.

use vstd::prelude::*;

use crate::config::ServerConfig;
use crate::errors::SyncError;
use crate::text::push_str;
use crate::text::str_to_chars;
use crate::text::chars_to_string;

verus! {

/// How a changed file's bytes reach the tasks: read once and shared, or
/// re-read by every task.
#[derive(Clone, Copy, PartialEq, Eq, Structural, Debug)]
pub enum DistributionStrategy {
    IoOptimized,
    MemoryOptimized,
}

/// What one per-slave upload attempt came to: delivered, failed (transport
/// error or non-success status), or the task itself died.
#[derive(Clone, Copy, PartialEq, Eq, Structural, Debug)]
pub enum TaskOutcome {
    Success,
    Failed,
    Panicked,
}

/// One ephemeral per-slave transfer: where the upload goes and which file
/// it carries.
pub struct TransferTask {
    pub slave: String,
    pub url: String,
    pub file_path: String,
}

/// Everything the fan-out needs for one changed file.
pub struct DistributionPlan {
    pub strategy: DistributionStrategy,
    pub file_name: String,
    pub tasks: Vec<TransferTask>,
}

pub open spec fn scheme_text(secure: bool) -> Seq<char> {
    if secure {
        seq!['h', 't', 't', 'p', 's', ':', '/', '/']
    } else {
        seq!['h', 't', 't', 'p', ':', '/', '/']
    }
}

pub open spec fn upload_path_text() -> Seq<char> {
    seq!['/', 'u', 'p', 'l', 'o', 'a', 'd', '?', 'f', 'i', 'l', 'e', 'n', 'a', 'm', 'e', '=']
}

/// The URL a slave's ingestion endpoint is addressed under.
pub open spec fn spec_upload_url(secure: bool, slave: Seq<char>, file_name: Seq<char>) -> Seq<char> {
    scheme_text(secure) + slave + upload_path_text() + file_name
}

/// Builds the upload URL for one slave.
pub fn upload_url(secure: bool, slave: &str, file_name: &str) -> (r: String)
    ensures
        r@ == spec_upload_url(secure, slave@, file_name@),
{
    let mut s = String::new();
    if secure {
        push_str(&mut s, "https://");
        proof {
            reveal_strlit("https://");
            assert("https://"@ =~= scheme_text(true));
        }
    } else {
        push_str(&mut s, "http://");
        proof {
            reveal_strlit("http://");
            assert("http://"@ =~= scheme_text(false));
        }
    }
    push_str(&mut s, slave);
    push_str(&mut s, "/upload?filename=");
    push_str(&mut s, file_name);
    proof {
        reveal_strlit("/upload?filename=");
        assert("/upload?filename="@ =~= upload_path_text());
        assert(s@ =~= spec_upload_url(secure, slave@, file_name@));
    }
    s
}

/// The part of a path after its last `/`; empty when the path ends in `/`.
pub open spec fn spec_file_name_of(s: Seq<char>) -> Seq<char>
    decreases s.len(),
{
    if s.len() == 0 {
        Seq::empty()
    } else if s[s.len() - 1] == '/' {
        Seq::empty()
    } else {
        spec_file_name_of(s.drop_last()).push(s[s.len() - 1])
    }
}

proof fn lemma_file_name_suffix(s: Seq<char>, cut: int)
    requires
        0 <= cut <= s.len(),
        forall|k: int| cut <= k < s.len() ==> s[k] != '/',
        cut > 0 ==> s[cut - 1] == '/',
    ensures
        spec_file_name_of(s) == s.skip(cut),
    decreases s.len(),
{
    if s.len() == cut {
        assert(s.skip(cut) =~= Seq::<char>::empty());
        if cut > 0 {
            assert(s[s.len() - 1] == '/');
        } else {
            assert(s.len() == 0);
        }
        assert(spec_file_name_of(s) =~= Seq::<char>::empty());
    } else {
        assert(s[s.len() - 1] != '/');
        lemma_file_name_suffix(s.drop_last(), cut);
        assert(s.drop_last().skip(cut).push(s[s.len() - 1]) =~= s.skip(cut));
    }
}

/// The file name a path resolves to, for the upload URL.
pub fn file_name_of_path(file_path: &str) -> (r: String)
    ensures
        r@ == spec_file_name_of(file_path@),
{
    let chars = str_to_chars(file_path);
    let n = chars.len();
    let mut cut: usize = n;
    loop
        invariant
            0 <= cut <= n,
            n == chars@.len(),
            chars@ == file_path@,
            forall|k: int| cut <= k < n ==> chars@[k] != '/',
        ensures
            0 <= cut <= n,
            forall|k: int| cut <= k < n ==> chars@[k] != '/',
            cut > 0 ==> chars@[cut - 1] == '/',
        decreases cut,
    {
        if cut == 0 {
            break ;
        }
        if chars[cut - 1] == '/' {
            break ;
        }
        cut -= 1;
    }
    proof {
        lemma_file_name_suffix(file_path@, cut as int);
    }
    let mut name: Vec<char> = Vec::new();
    let mut i: usize = cut;
    while i < n
        invariant
            cut <= i <= n,
            n == chars@.len(),
            chars@ == file_path@,
            name@ == file_path@.subrange(cut as int, i as int),
        decreases n - i,
    {
        name.push(chars[i]);
        proof {
            assert(file_path@.subrange(cut as int, i as int + 1) =~= file_path@.subrange(
                cut as int,
                i as int,
            ).push(file_path@[i as int]));
        }
        i += 1;
    }
    proof {
        assert(file_path@.subrange(cut as int, n as int) =~= file_path@.skip(cut as int));
    }
    chars_to_string(&name)
}

/// The Distribution Coordinator. It owns no state; every decision is a
/// function of the configuration and the event.
pub struct RequestServicePub {}

impl RequestServicePub {
    pub fn new() -> (r: Self) {
        RequestServicePub {  }
    }

    /// One transfer task per configured slave, every slave getting its own
    /// independent attempt whatever happens to the others.
    pub fn build_transfer_tasks(
        &self,
        file_path: &str,
        file_name: &str,
        slave_url: &Vec<String>,
        secure_mode: bool,
    ) -> (r: Vec<TransferTask>)
        ensures
            r@.len() == slave_url@.len(),
            forall|i: int|
                0 <= i < r@.len() ==> (#[trigger] r@[i]).slave@ == slave_url@[i]@ && r@[i].url@
                    == spec_upload_url(secure_mode, slave_url@[i]@, file_name@) && r@[i].file_path@
                    == file_path@,
    {
        let mut out: Vec<TransferTask> = Vec::new();
        let mut i: usize = 0;
        while i < slave_url.len()
            invariant
                0 <= i <= slave_url@.len(),
                out@.len() == i,
                forall|j: int|
                    0 <= j < i ==> (#[trigger] out@[j]).slave@ == slave_url@[j]@ && out@[j].url@
                        == spec_upload_url(secure_mode, slave_url@[j]@, file_name@)
                        && out@[j].file_path@ == file_path@,
            decreases slave_url@.len() - i,
        {
            let task = TransferTask {
                slave: slave_url[i].clone(),
                url: upload_url(secure_mode, slave_url[i].as_str(), file_name),
                file_path: file_path.to_owned(),
            };
            out.push(task);
            i += 1;
        }
        out
    }

    /// Plans the fan-out for one changed file: resolves the file name,
    /// picks the strategy the configuration asks for, and lays out one task
    /// per slave. Missing slave addresses are a configuration error; a path
    /// without a file name cannot be distributed.
    pub fn send_info_to_slave(&self, config: &ServerConfig, file_path: &str) -> (r: Result<
        DistributionPlan,
        SyncError,
    >)
        ensures
            config.slave_address is None ==> r == Err::<DistributionPlan, SyncError>(
                SyncError::ConfigError,
            ),
            config.slave_address is Some && spec_file_name_of(file_path@).len() == 0 ==> r == Err::<
                DistributionPlan,
                SyncError,
            >(SyncError::IoError),
            config.slave_address is Some && spec_file_name_of(file_path@).len() > 0 ==> r is Ok,
            r is Ok ==> r.unwrap().strategy == (if config.io_bound_improvement {
                DistributionStrategy::IoOptimized
            } else {
                DistributionStrategy::MemoryOptimized
            }),
            r is Ok ==> r.unwrap().file_name@ == spec_file_name_of(file_path@),
            r is Ok ==> r.unwrap().tasks@.len() == config.slave_address.unwrap()@.len(),
            r is Ok ==> forall|i: int|
                0 <= i < r.unwrap().tasks@.len() ==> (#[trigger] r.unwrap().tasks@[i]).slave@
                    == config.slave_address.unwrap()@[i]@ && r.unwrap().tasks@[i].url@
                    == spec_upload_url(
                    config.secure_mode == Some(true),
                    config.slave_address.unwrap()@[i]@,
                    spec_file_name_of(file_path@),
                ) && r.unwrap().tasks@[i].file_path@ == file_path@,
    {
        let slaves = match &config.slave_address {
            Some(v) => v,
            None => {
                return Err(SyncError::ConfigError);
            },
        };
        let file_name = file_name_of_path(file_path);
        if file_name.as_str().unicode_len() == 0 {
            return Err(SyncError::IoError);
        }
        let secure = config.is_secure_mode();
        let tasks = self.build_transfer_tasks(file_path, file_name.as_str(), slaves, secure);
        let strategy = if config.io_bound_improvement {
            DistributionStrategy::IoOptimized
        } else {
            DistributionStrategy::MemoryOptimized
        };
        Ok(DistributionPlan { strategy, file_name, tasks })
    }

    /// Aggregates the outcomes of the per-slave tasks: the call succeeds
    /// exactly when every task did, and any failure — a failed upload or a
    /// dead task — turns the whole call into one transport error while the
    /// other outcomes stand untouched.
    pub fn handle_async_function(&self, task_res: &Vec<TaskOutcome>) -> (r: Result<(), SyncError>)
        ensures
            r is Ok <==> (forall|i: int|
                0 <= i < task_res@.len() ==> (#[trigger] task_res@[i]) is Success),
            r is Err ==> r == Err::<(), SyncError>(SyncError::TransportError),
    {
        let mut all_good = true;
        let mut i: usize = 0;
        while i < task_res.len()
            invariant
                0 <= i <= task_res@.len(),
                all_good <==> (forall|j: int|
                    0 <= j < i ==> (#[trigger] task_res@[j]) is Success),
            decreases task_res@.len() - i,
        {
            match task_res[i] {
                TaskOutcome::Success => {},
                TaskOutcome::Failed => {
                    all_good = false;
                },
                TaskOutcome::Panicked => {
                    all_good = false;
                },
            }
            i += 1;
        }
        if all_good {
            Ok(())
        } else {
            Err(SyncError::TransportError)
        }
    }
}

} // verus!
