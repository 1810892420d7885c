//! Backup naming and layout: where backups live, how they are named and
//! recognised, where a restore stages its copy, and what a refused backup
//! or restore reports. The copying itself is file-system work done by the
//! caller.
use vstd::prelude::*;
use vstd::string::StringExecFns;

use crate::db::connect::DB_FILENAME;
use crate::text::{
    chars_of, decimal, sort_strings, sorted_lex, starts_with, starts_with_chars, string_views,
    u128_to_decimal,
};
use crate::util::{join_path, spec_join_path};

verus! {

/// Subdirectory under the data dir that holds backups.
pub const BACKUP_DIR: &'static str = "backups";

/// Result of creating a backup.
#[derive(Debug, Clone, PartialEq, Eq)]
pub struct BackupResult {
    pub path: String,
    pub size: u64,
}

/// A single available backup entry.
#[derive(Debug, Clone, PartialEq, Eq)]
pub struct BackupEntry {
    pub name: String,
    pub size: u64,
}

/// Result of listing backups.
#[derive(Debug, Clone, PartialEq, Eq)]
pub struct BackupList {
    /// The backups directory that was scanned.
    pub dir: String,
    /// Whether the backups directory does not exist at all.
    pub missing: bool,
    pub entries: Vec<BackupEntry>,
}

/// Result of restoring a backup.
#[derive(Debug, Clone, PartialEq, Eq)]
pub struct RestoreResult {
    pub backup_path: String,
    pub db_path: String,
}

/// The prefix of every backup's name: the database directory's name and a
/// dot.
pub open spec fn backup_prefix() -> Seq<char> {
    DB_FILENAME@ + "."@
}

/// The name of a backup taken at `timestamp_nanos` nanoseconds after the
/// Unix epoch: `<db name>.<timestamp>`.
pub fn backup_name(timestamp_nanos: u128) -> (s: String)
    ensures
        s@ == backup_prefix() + decimal(timestamp_nanos as nat),
{
    let mut s = DB_FILENAME.to_string();
    s.append(".");
    let digits = u128_to_decimal(timestamp_nanos);
    s.append(digits.as_str());
    s
}

/// Whether a directory entry's name is that of a backup.
pub fn is_backup_name(name: &str) -> (b: bool)
    ensures
        b == starts_with(name@, backup_prefix()),
{
    let mut prefix = DB_FILENAME.to_string();
    prefix.append(".");
    let n = chars_of(name);
    let p = chars_of(prefix.as_str());
    starts_with_chars(n.as_slice(), p.as_slice())
}

/// The backups among the names of the backup directory's subdirectories,
/// sorted by name.
pub fn select_backup_names(names: Vec<String>) -> (r: Vec<String>)
    ensures
        sorted_lex(string_views(r@)),
        string_views(r@).to_multiset() == string_views(names@).filter(
            |n: Seq<char>| starts_with(n, backup_prefix()),
        ).to_multiset(),
{
    let ghost views = string_views(names@);
    let mut kept: Vec<String> = Vec::new();
    let mut i: usize = 0;
    while i < names.len()
        invariant
            i <= names@.len(),
            views == string_views(names@),
            string_views(kept@) == views.take(i as int).filter(
                |n: Seq<char>| starts_with(n, backup_prefix()),
            ),
        decreases names@.len() - i,
    {
        let keep = is_backup_name(names[i].as_str());
        proof {
            assert(views.take(i + 1) =~= views.take(i as int).push(views[i as int]));
            views.take(i as int).lemma_filter_push(
                views[i as int],
                |n: Seq<char>| starts_with(n, backup_prefix()),
            );
        }
        if keep {
            let ghost before = string_views(kept@);
            kept.push(names[i].clone());
            assert(string_views(kept@) =~= before.push(views[i as int]));
        }
        i = i + 1;
    }
    assert(views.take(names@.len() as int) =~= views);
    sort_strings(kept)
}

/// Where the database, its lock file and the backups live under a data
/// directory.
#[derive(Debug, Clone, PartialEq, Eq)]
pub struct BackupLayout {
    pub db_path: String,
    pub lock_path: String,
    pub backups_dir: String,
}

/// The layout under `data_dir`: `<data_dir>/<db name>`, its `LOCK` file,
/// and `<data_dir>/backups`.
pub fn backup_layout(data_dir: &str) -> (l: BackupLayout)
    ensures
        l.db_path@ == spec_join_path(data_dir@, DB_FILENAME@),
        l.lock_path@ == spec_join_path(spec_join_path(data_dir@, DB_FILENAME@), "LOCK"@),
        l.backups_dir@ == spec_join_path(data_dir@, BACKUP_DIR@),
{
    let db_path = join_path(data_dir, DB_FILENAME);
    let lock_path = join_path(db_path.as_str(), "LOCK");
    let backups_dir = join_path(data_dir, BACKUP_DIR);
    BackupLayout { db_path, lock_path, backups_dir }
}

/// The database's name with its extension replaced by `ext`
/// (`Path::with_extension` on the database directory).
pub open spec fn db_sibling(ext: Seq<char>) -> Seq<char> {
    "mercury_cortex_global_knowledge."@ + ext
}

/// Where a restore stages its copy (`<db>.restore-tmp`) and where it moves
/// the replaced database (`<db>.old`), beside the database directory.
#[derive(Debug, Clone, PartialEq, Eq)]
pub struct RestoreLayout {
    pub db_path: String,
    pub lock_path: String,
    pub temp_path: String,
    pub old_path: String,
}

/// The restore layout under `data_dir`.
pub fn restore_layout(data_dir: &str) -> (l: RestoreLayout)
    ensures
        l.db_path@ == spec_join_path(data_dir@, DB_FILENAME@),
        l.lock_path@ == spec_join_path(spec_join_path(data_dir@, DB_FILENAME@), "LOCK"@),
        l.temp_path@ == spec_join_path(data_dir@, db_sibling("restore-tmp"@)),
        l.old_path@ == spec_join_path(data_dir@, db_sibling("old"@)),
{
    let db_path = join_path(data_dir, DB_FILENAME);
    let lock_path = join_path(db_path.as_str(), "LOCK");
    let mut temp_name = "mercury_cortex_global_knowledge.".to_string();
    temp_name.append("restore-tmp");
    let mut old_name = "mercury_cortex_global_knowledge.".to_string();
    old_name.append("old");
    let temp_path = join_path(data_dir, temp_name.as_str());
    let old_path = join_path(data_dir, old_name.as_str());
    RestoreLayout { db_path, lock_path, temp_path, old_path }
}

} // verus!
