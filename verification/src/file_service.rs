//! File-side services: change detection against the Hash Store, the
//! retention rule that prunes date-bucketed backup directories, backup path
//! construction, and the cleaning of watcher event paths. Reading
//! directories, copying files and deleting directories happen outside the
//! library; the decisions are made here.

use vstd::prelude::*;

use crate::hash_store::observed_digest;
use crate::hash_store::spec_changed;
use crate::hash_store::HashStorage;
use crate::text::push_char;
use crate::text::push_str;
use crate::text::str_to_chars;
use crate::time_utils::date_difference;
use crate::time_utils::date_valid;
use crate::time_utils::datetime_valid;
use crate::time_utils::day_number;
use crate::time_utils::format_compact_datetime;
use crate::time_utils::format_yyyymmdd;
use crate::time_utils::parse_yyyymmdd;
use crate::time_utils::spec_compact_datetime;
use crate::time_utils::spec_parse_yyyymmdd;
use crate::time_utils::spec_yyyymmdd;
use crate::time_utils::Date;
use crate::time_utils::DateTime;

verus! {

/// What the retention manager reads of one entry of the backup root: the
/// entry's name and whether it is a directory.
pub struct BucketEntry {
    pub name: String,
    pub is_dir: bool,
}

/// Whether one backup bucket is pruned: it must be a directory whose name
/// parses as a `YYYYMMDD` date at least `backup_days` days before `today`.
/// Non-directories and unparsable names are left alone.
pub open spec fn spec_should_prune(
    name: Seq<char>,
    is_dir: bool,
    today: Date,
    backup_days: i64,
) -> bool {
    &&& is_dir
    &&& match spec_parse_yyyymmdd(name) {
        Some(d) => day_number(today) - day_number(d) >= backup_days,
        None => false,
    }
}

/// Joining a directory path and a name with `/`; an empty directory path
/// yields the bare name, and a trailing `/` is not doubled.
pub open spec fn spec_path_join(a: Seq<char>, b: Seq<char>) -> Seq<char> {
    if a.len() == 0 {
        b
    } else if a[a.len() - 1] == '/' {
        a + b
    } else {
        a + seq!['/'] + b
    }
}

/// Joins a directory path and a name.
pub fn path_join(a: &str, b: &str) -> (r: String)
    ensures
        r@ == spec_path_join(a@, b@),
{
    let n = a.unicode_len();
    let mut out = a.to_owned();
    if n > 0 && a.get_char(n - 1) != '/' {
        push_char(&mut out, '/');
    }
    push_str(&mut out, b);
    proof {
        if n == 0 {
            assert(a@ + b@ =~= b@);
        }
    }
    out
}

/// The windows long-path marker `\\?\` that the watcher may prefix paths
/// with.
pub open spec fn clean_pat() -> Seq<char> {
    seq!['\\', '\\', '?', '\\']
}

/// An event path with every occurrence of the `\\?\` marker removed,
/// scanning left to right.
pub open spec fn spec_clean_path(s: Seq<char>) -> Seq<char>
    decreases s.len(),
{
    if s.len() == 0 {
        Seq::empty()
    } else if s.len() >= 4 && s.subrange(0, 4) == clean_pat() {
        spec_clean_path(s.skip(4))
    } else {
        seq![s[0]] + spec_clean_path(s.drop_first())
    }
}

/// Concrete file-side service; it owns no state, all inputs come in as
/// arguments.
pub struct FileServicePub {}

impl FileServicePub {
    pub fn new() -> (r: Self) {
        FileServicePub {  }
    }

    /// Compares a changed file against the Hash Store: digests the observed
    /// content (the empty digest when the file was unreadable), reports
    /// whether it differs from what the store holds, and records the new
    /// digest on a difference. The caller persists the store after a
    /// reported change.
    pub fn comparison_file(
        &self,
        storage: &mut HashStorage,
        target_file_path: &str,
        content: Option<&Vec<u8>>,
    ) -> (changed: bool)
        requires
            old(storage).wf(),
        ensures
            final(storage).wf(),
            changed == spec_changed(
                old(storage).as_map(),
                target_file_path@,
                observed_digest(content),
            ),
            !old(storage).as_map().contains_key(target_file_path@) ==> changed,
            changed ==> final(storage).as_map() == old(storage).as_map().insert(
                target_file_path@,
                observed_digest(content),
            ),
            changed && content is Some ==> final(storage).as_map()[target_file_path@].len() == 32,
            !changed ==> *final(storage) == *old(storage),
            final(storage).dir_path@ == old(storage).dir_path@,
    {
        storage.detect_change(target_file_path, content)
    }

    /// Decides whether one backup bucket has aged past the retention
    /// horizon.
    pub fn should_prune(&self, entry: &BucketEntry, today: &Date, backup_days: i64) -> (r: bool)
        requires
            date_valid(*today),
        ensures
            r == spec_should_prune(entry.name@, entry.is_dir, *today, backup_days),
    {
        if !entry.is_dir {
            return false;
        }
        match parse_yyyymmdd(entry.name.as_str()) {
            Some(d) => date_difference(today, &d) >= backup_days,
            None => false,
        }
    }

    /// The Backup Retention Manager's decision: which entries of the backup
    /// root to delete. Exactly the directories whose date-named bucket is at
    /// least `backup_days` days old are selected, in the order given;
    /// deleting them happens outside the library.
    pub fn backup_file_delete(
        &self,
        entries: &Vec<BucketEntry>,
        today: &Date,
        backup_days: i64,
    ) -> (r: Vec<String>)
        requires
            date_valid(*today),
        ensures
            r@.map_values(|s: String| s@) == entries@.filter(
                |e: BucketEntry| spec_should_prune(e.name@, e.is_dir, *today, backup_days),
            ).map_values(|e: BucketEntry| e.name@),
    {
        let mut out: Vec<String> = Vec::new();
        let mut i: usize = 0;
        while i < entries.len()
            invariant
                0 <= i <= entries@.len(),
                date_valid(*today),
                out@.map_values(|s: String| s@) == entries@.subrange(0, i as int).filter(
                    |e: BucketEntry| spec_should_prune(e.name@, e.is_dir, *today, backup_days),
                ).map_values(|e: BucketEntry| e.name@),
            decreases entries@.len() - i,
        {
            let ghost prefix = entries@.subrange(0, i as int);
            let ghost prev = out@;
            if self.should_prune(&entries[i], today, backup_days) {
                out.push(entries[i].name.clone());
            }
            proof {
                reveal(Seq::filter);
                let e = entries@[i as int];
                assert(entries@.subrange(0, i as int + 1) =~= prefix.push(e));
                assert(prefix.push(e).drop_last() =~= prefix);
                if spec_should_prune(e.name@, e.is_dir, *today, backup_days) {
                    assert(prefix.push(e).filter(
                        |e: BucketEntry| spec_should_prune(e.name@, e.is_dir, *today, backup_days),
                    ) == prefix.filter(
                        |e: BucketEntry| spec_should_prune(e.name@, e.is_dir, *today, backup_days),
                    ).push(e));
                    assert(out@.map_values(|s: String| s@) =~= prev.map_values(
                        |s: String| s@,
                    ).push(e.name@));
                    assert(prefix.filter(
                        |e: BucketEntry| spec_should_prune(e.name@, e.is_dir, *today, backup_days),
                    ).push(e).map_values(|e: BucketEntry| e.name@) =~= prefix.filter(
                        |e: BucketEntry| spec_should_prune(e.name@, e.is_dir, *today, backup_days),
                    ).map_values(|e: BucketEntry| e.name@).push(e.name@));
                } else {
                    assert(prefix.push(e).filter(
                        |e: BucketEntry| spec_should_prune(e.name@, e.is_dir, *today, backup_days),
                    ) == prefix.filter(
                        |e: BucketEntry| spec_should_prune(e.name@, e.is_dir, *today, backup_days),
                    ));
                }
            }
            i += 1;
        }
        proof {
            assert(entries@.subrange(0, entries@.len() as int) =~= entries@);
        }
        out
    }

    /// Where a file is backed up before an overwrite: a `YYYYMMDD` bucket
    /// under the backup root, holding a copy named after the file with a
    /// timestamp suffix. The copy itself is made outside the library.
    pub fn copy_file_for_backup(
        &self,
        backup_dir_path: &str,
        modified_file_name: &str,
        now: &DateTime,
    ) -> (r: String)
        requires
            datetime_valid(*now),
        ensures
            r@ == spec_path_join(
                spec_path_join(backup_dir_path@, spec_yyyymmdd(now.date)),
                modified_file_name@ + seq!['.'] + spec_compact_datetime(*now),
            ),
    {
        let bucket = path_join(backup_dir_path, format_yyyymmdd(&now.date).as_str());
        let mut file_name = modified_file_name.to_owned();
        push_char(&mut file_name, '.');
        let stamp = format_compact_datetime(now);
        push_str(&mut file_name, stamp.as_str());
        path_join(bucket.as_str(), file_name.as_str())
    }

    /// The watcher hands paths that may carry the `\\?\` marker; the event
    /// forwarded to the change detector carries the cleaned path.
    pub fn clean_event_path(&self, file_path: &str) -> (r: String)
        ensures
            r@ == spec_clean_path(file_path@),
    {
        let chars = str_to_chars(file_path);
        let n = chars.len();
        let mut out = String::new();
        let mut i: usize = 0;
        proof {
            assert(file_path@.skip(0) =~= file_path@);
            assert(Seq::<char>::empty() + spec_clean_path(file_path@) =~= spec_clean_path(
                file_path@,
            ));
        }
        while i < n
            invariant
                n == chars@.len(),
                chars@ == file_path@,
                0 <= i <= n,
                spec_clean_path(file_path@) == out@ + spec_clean_path(file_path@.skip(i as int)),
            decreases n - i,
        {
            if n - i >= 4 && chars[i] == '\\' && chars[i + 1] == '\\' && chars[i + 2] == '?'
                && chars[i + 3] == '\\' {
                proof {
                    assert(file_path@.skip(i as int).subrange(0, 4) =~= clean_pat());
                    assert(file_path@.skip(i as int).skip(4) =~= file_path@.skip(i as int + 4));
                }
                i += 4;
            } else {
                let c = chars[i];
                proof {
                    let suf = file_path@.skip(i as int);
                    assert(suf[0] == file_path@[i as int]);
                    if suf.len() >= 4 && suf.subrange(0, 4) == clean_pat() {
                        assert(suf.subrange(0, 4)[0] == suf[0]);
                        assert(suf.subrange(0, 4)[1] == suf[1]);
                        assert(suf.subrange(0, 4)[2] == suf[2]);
                        assert(suf.subrange(0, 4)[3] == suf[3]);
                        assert(suf[1] == file_path@[i as int + 1]);
                        assert(suf[2] == file_path@[i as int + 2]);
                        assert(suf[3] == file_path@[i as int + 3]);
                        assert(false);
                    }
                    assert(suf.drop_first() =~= file_path@.skip(i as int + 1));
                    assert(out@ + (seq![c] + spec_clean_path(file_path@.skip(i as int + 1))) =~= (
                    out@ + seq![c]) + spec_clean_path(file_path@.skip(i as int + 1)));
                }
                push_char(&mut out, c);
                i += 1;
            }
        }
        proof {
            assert(file_path@.skip(n as int) =~= Seq::<char>::empty());
            assert(out@ + Seq::<char>::empty() =~= out@);
        }
        out
    }
}

} // verus!
