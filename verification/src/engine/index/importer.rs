//! Importing AI-generated metadata files: which staged files are imported,
//! where each file's metadata may point, what an import reports, and when
//! the staging directory is cleared. Reading, hashing and storing are done
//! by the caller.
use vstd::prelude::*;
use vstd::string::StringExecFns;

use crate::engine::error::EngineError;
use crate::engine::index::mcignore::{decide, normalise, McIgnore};
use crate::text::{chars_of, has_char};
use crate::util::{
    join_within_root, record_id_to_string, record_text, spec_is_safe_relative_path,
    spec_join_path, RecordValue,
};

verus! {

/// Maximum number of imports that run at once.
pub const MAX_CONCURRENT_IMPORTS: usize = 8;

/// Result of importing a single metadata file.
#[derive(Debug, Clone, PartialEq, Eq)]
pub struct ImportResult {
    pub path: String,
    pub success: bool,
    pub error: Option<String>,
}

impl ImportResult {
    /// A successful import of `path`.
    pub fn succeeded(path: &str) -> (r: ImportResult)
        ensures
            r.path@ == path@,
            r.success,
            r.error is None,
    {
        ImportResult { path: path.to_string(), success: true, error: None }
    }

    /// A failed import of `path`, with the reason.
    pub fn failed(path: &str, error: String) -> (r: ImportResult)
        ensures
            r.path@ == path@,
            !r.success,
            r.error == Some(error),
    {
        ImportResult { path: path.to_string(), success: false, error: Some(error) }
    }

    /// The failure of a metadata file that could not be read.
    pub fn unreadable(json_path: &str, detail: &str) -> (r: ImportResult)
        ensures
            r.path@ == json_path@,
            !r.success,
            r.error matches Some(e) && e@ == "cannot read file: "@ + detail@,
    {
        let mut m = "cannot read file: ".to_string();
        m.append(detail);
        ImportResult::failed(json_path, m)
    }

    /// The failure of a metadata file that is not valid metadata JSON.
    pub fn invalid_json(json_path: &str, detail: &str) -> (r: ImportResult)
        ensures
            r.path@ == json_path@,
            !r.success,
            r.error matches Some(e) && e@ == "invalid JSON: "@ + detail@,
    {
        let mut m = "invalid JSON: ".to_string();
        m.append(detail);
        ImportResult::failed(json_path, m)
    }
}

/// Refuses a staging directory whose path is empty or holds a NUL
/// character. (Whether an existing directory is writable is probed by the
/// caller.)
pub fn validate_temp_dir(temp_dir: &str) -> (r: Result<(), EngineError>)
    ensures
        temp_dir@.len() == 0 ==> (r matches Err(EngineError::Internal(m)) && m@
            == "temp_dir is empty"@),
        temp_dir@.len() > 0 && temp_dir@.contains('\0') ==> (r matches Err(
            EngineError::Internal(m),
        ) && m@ == "temp_dir contains null bytes: "@ + temp_dir@),
        temp_dir@.len() > 0 && !temp_dir@.contains('\0') ==> r is Ok,
{
    let cs = chars_of(temp_dir);
    if cs.len() == 0 {
        return Err(EngineError::Internal("temp_dir is empty".to_string()));
    }
    if has_char(cs.as_slice(), '\0') {
        let mut m = "temp_dir contains null bytes: ".to_string();
        m.append(temp_dir);
        return Err(EngineError::Internal(m));
    }
    Ok(())
}

/// The extension of a file name (`Path::extension`): what follows its last
/// `.`, unless there is no `.`, the only `.` starts the name, or the name
/// is `..`.
pub open spec fn file_extension(name: Seq<char>) -> Option<Seq<char>> {
    if name == ".."@ {
        None
    } else {
        match last_dot(name, name.len() as int) {
            Some(i) => if i == 0 {
                None
            } else {
                Some(name.subrange(i + 1, name.len() as int))
            },
            None => None,
        }
    }
}

/// The position of the last `.` before position `n`.
pub open spec fn last_dot(name: Seq<char>, n: int) -> Option<int>
    decreases n,
{
    if n <= 0 {
        None
    } else if name[n - 1] == '.' {
        Some(n - 1)
    } else {
        last_dot(name, n - 1)
    }
}

/// Whether a directory entry is a metadata file to import: a file whose
/// extension is `json`.
pub fn is_metadata_file(is_file: bool, file_name: &str) -> (b: bool)
    ensures
        b == (is_file && file_extension(file_name@) == Some("json"@)),
{
    if !is_file {
        return false;
    }
    let cs = chars_of(file_name);
    let dots = chars_of("..");
    proof {
        reveal_strlit("..");
        reveal_strlit("json");
    }
    if crate::text::chars_eq(cs.as_slice(), dots.as_slice()) {
        return false;
    }
    let mut n: usize = cs.len();
    while n > 0 && cs[n - 1] != '.'
        invariant
            n <= cs@.len(),
            cs@ == file_name@,
            last_dot(cs@, cs@.len() as int) == last_dot(cs@, n as int),
        decreases n,
    {
        n = n - 1;
    }
    if n <= 1 {
        return false;
    }
    let tail = cs.len() - n;
    if tail != 4 {
        assert(cs@.subrange(n as int, cs@.len() as int).len() != "json"@.len());
        return false;
    }
    let r = cs[n] == 'j' && cs[n + 1] == 's' && cs[n + 2] == 'o' && cs[n + 3] == 'n';
    proof {
        let sub = cs@.subrange(n as int, cs@.len() as int);
        let json = seq!['j', 's', 'o', 'n'];
        assert("json"@ =~= json);
        if r {
            assert(sub =~= json);
        } else {
            assert(sub[0] != json[0] || sub[1] != json[1] || sub[2] != json[2] || sub[3] != json[3]);
            assert(sub != json);
        }
    }
    r
}

/// Whether the staging walk descends into (or keeps) an entry: the
/// staging directory itself, and anything whose name does not start with
/// `.`.
pub fn walk_keeps(depth: usize, file_name: &str) -> (b: bool)
    ensures
        b == (depth == 0 || !(file_name@.len() > 0 && file_name@[0] == '.')),
{
    if depth == 0 {
        return true;
    }
    let cs = chars_of(file_name);
    !(cs.len() > 0 && cs[0] == '.')
}

/// What an import does with a metadata file's `path`.
#[derive(Debug, Clone, PartialEq, Eq)]
pub enum ImportStep {
    /// The path leaves the project root: the import fails.
    Reject(ImportResult),
    /// The path is excluded by `.mcignore`: the staged file is removed and
    /// the import counts as handled.
    Ignored(ImportResult),
    /// The metadata is stored for the file at `absolute_path`.
    Store { absolute_path: String },
}

/// Decides what to do with metadata for `path` in the project at
/// `project_root`: refuse a path that is absolute or climbs out with `..`;
/// skip a path that `.mcignore` excludes; otherwise store it, against the
/// file at the root joined with the path.
pub fn plan_import(project_root: &str, path: &str, mcignore: &McIgnore) -> (s: ImportStep)
    ensures
        !spec_is_safe_relative_path(path@) ==> (s matches ImportStep::Reject(r) && r.path@ == path@
            && !r.success && (r.error matches Some(e) && e@
            == "path escapes project root (must be relative and inside "@ + project_root@ + "): "@
            + path@)),
        spec_is_safe_relative_path(path@) && decide(mcignore@, normalise(path@), false) ==> (
        s matches ImportStep::Ignored(r) && r.path@ == path@ && r.success && r.error is None),
        spec_is_safe_relative_path(path@) && !decide(mcignore@, normalise(path@), false) ==> (
        s matches ImportStep::Store { absolute_path } && absolute_path@ == spec_join_path(
            project_root@,
            path@,
        )),
{
    let absolute = match join_within_root(project_root, path) {
        Some(p) => p,
        None => {
            let mut m = "path escapes project root (must be relative and inside ".to_string();
            m.append(project_root);
            m.append("): ");
            m.append(path);
            return ImportStep::Reject(ImportResult::failed(path, m));
        },
    };
    if mcignore.is_ignored(path, false) {
        return ImportStep::Ignored(ImportResult::succeeded(path));
    }
    ImportStep::Store { absolute_path: absolute }
}

/// The report of an import whose storing finished: success, or the
/// failure's text.
pub fn finish_import(path: &str, outcome: Result<(), String>) -> (r: ImportResult)
    ensures
        r.path@ == path@,
        r.success == outcome is Ok,
        match outcome {
            Ok(()) => r.error is None,
            Err(e) => r.error == Some(e),
        },
{
    match outcome {
        Ok(()) => ImportResult::succeeded(path),
        Err(e) => ImportResult::failed(path, e),
    }
}

/// Every import succeeded, and there was at least one: the staging
/// directory can be removed.
pub open spec fn all_succeeded(results: Seq<ImportResult>) -> bool {
    results.len() > 0 && forall|i: int| 0 <= i < results.len() ==> (#[trigger] results[i]).success
}

/// Whether the staging directory is removed after a run with these
/// results.
pub fn should_clear_staging(results: &Vec<ImportResult>) -> (b: bool)
    ensures
        b == all_succeeded(results@),
{
    if results.len() == 0 {
        return false;
    }
    let mut i: usize = 0;
    while i < results.len()
        invariant
            i <= results@.len(),
            forall|k: int| 0 <= k < i ==> (#[trigger] results@[k]).success,
        decreases results@.len() - i,
    {
        if !results[i].success {
            return false;
        }
        i = i + 1;
    }
    true
}

/// The id text of a record-id value, as `record_id_to_string` gives it.
pub open spec fn value_id_text(v: RecordValue) -> Option<Seq<char>> {
    match v {
        RecordValue::Record(rid) => Some(record_text(rid)),
        RecordValue::Object(Some(rid)) => Some(record_text(rid)),
        _ => None,
    }
}

/// The id of the `file_data` record an update found.
pub fn existing_file_id(record: &RecordValue) -> (r: Result<String, EngineError>)
    ensures
        match value_id_text(*record) {
            Some(t) => r matches Ok(s) && s@ == t,
            None => r matches Err(EngineError::Internal(m)) && m@ == "existing record missing id"@,
        },
{
    match record_id_to_string(record) {
        Some(s) => Ok(s),
        None => Err(EngineError::Internal("existing record missing id".to_string())),
    }
}

/// The id of the `file_data` record a create returned (its first record).
pub fn created_file_id(record: Option<&RecordValue>) -> (r: Result<String, EngineError>)
    ensures
        match record {
            None => r matches Err(EngineError::Internal(m)) && m@ == "CREATE returned no records"@,
            Some(v) => match value_id_text(*v) {
                Some(t) => r matches Ok(s) && s@ == t,
                None => r matches Err(EngineError::Internal(m)) && m@
                    == "created record missing id"@,
            },
        },
{
    match record {
        None => Err(EngineError::Internal("CREATE returned no records".to_string())),
        Some(v) => match record_id_to_string(v) {
            Some(s) => Ok(s),
            None => Err(EngineError::Internal("created record missing id".to_string())),
        },
    }
}

} // verus!
