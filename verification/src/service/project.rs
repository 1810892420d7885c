//! Project registration, lookup and metadata: the decisions that the
//! project workflow makes between its database queries.
use vstd::prelude::*;
use vstd::string::StringExecFns;

use crate::service::ServiceError;
use crate::text::{chars_eq, chars_of, join, join_strs};
use crate::util::{
    canonicalize_root_path, record_id_parses, record_id_value, record_text,
    record_thing_to_string, spec_canonical_root, RecordKeyText, RecordValue,
};

verus! {

/// Parameters for registering a new project.
#[derive(Debug, Clone, PartialEq, Eq)]
pub struct RegisterParams {
    pub config_project_id: Option<String>,
    pub name: String,
    pub slug: String,
    pub root_path: String,
}

/// What a registration decided to do, for user-facing progress output.
#[derive(Debug, Clone, Copy, PartialEq, Eq, Structural)]
pub enum ProjectAction {
    Created,
    CreatedStaleConfig,
    Reused,
    ReusedStaleConfig,
    Moved,
}

/// Result returned after registering a project.
#[derive(Debug, Clone, PartialEq, Eq)]
pub struct RegisterResult {
    pub project_id: String,
    pub action: ProjectAction,
    /// Duplicate project records reconciled (deleted) at the same root path.
    pub duplicates_removed: usize,
}

/// Summary information about a registered project.
#[derive(Debug, Clone, PartialEq, Eq)]
pub struct ProjectInfo {
    pub id: String,
    pub root_path: String,
    pub slug: String,
}

/// Parameters for updating a project's language/framework metadata.
#[derive(Debug, Clone, PartialEq, Eq)]
pub struct UpdateMetadataParams {
    pub project_id: String,
    pub language: Option<String>,
    pub framework: Option<String>,
}

/// Service for project registration and metadata management.
#[derive(Debug, Clone, Copy, PartialEq, Eq)]
pub struct ProjectService;

/// A project record as read back from the database: whether it is an
/// object, its `id` field when it has one, and its `updated_at` in epoch
/// seconds (`0` when absent or not a datetime).
#[derive(Debug, Clone, PartialEq, Eq)]
pub struct ProjectRow {
    pub is_object: bool,
    pub id: Option<RecordValue>,
    pub updated_at: i64,
}

/// The record's `id` when it is an object that has one.
pub open spec fn row_id(row: ProjectRow) -> Option<RecordValue> {
    if row.is_object {
        row.id
    } else {
        None
    }
}

/// The canonical `table:key` text of a record's `id`, when it has one that
/// `record_thing_to_string` can spell.
pub open spec fn row_id_text(row: ProjectRow) -> Option<Seq<char>> {
    match row_id(row) {
        Some(RecordValue::Record(rid)) => match rid.key {
            RecordKeyText::Other(_) => None,
            _ => Some(record_text(rid)),
        },
        _ => None,
    }
}

fn row_id_string(row: &ProjectRow) -> (r: Option<String>)
    ensures
        match row_id_text(*row) {
            Some(t) => r matches Some(s) && s@ == t,
            None => r is None,
        },
{
    if !row.is_object {
        return None;
    }
    match &row.id {
        Some(v) => record_thing_to_string(v),
        None => None,
    }
}

/// The message refusing a registration at the filesystem root.
pub open spec fn root_refusal() -> Seq<char> {
    "root_path must not be the filesystem root (got an empty, '.', '..', or '/' path)"@
}

impl ProjectService {
    /// The root path a registration stores: the lexical canonical form of
    /// the given path, refused when it is the filesystem root (which is what
    /// an empty, `.`, `..` or `/` path, or one like `foo/..`, comes to).
    pub fn canonical_root(root_path: &str) -> (r: Result<String, ServiceError>)
        ensures
            spec_canonical_root(root_path@) == seq!['/'] ==> (r matches Err(
                ServiceError::Validation(m),
            ) && m@ == root_refusal()),
            spec_canonical_root(root_path@) != seq!['/'] ==> (r matches Ok(p) && p@
                == spec_canonical_root(root_path@)),
    {
        let root = canonicalize_root_path(root_path);
        let rc = chars_of(root.as_str());
        let slash = vec!['/'];
        assert(slash@ =~= seq!['/']);
        if chars_eq(rc.as_slice(), slash.as_slice()) {
            Err(
                ServiceError::Validation(
                    "root_path must not be the filesystem root (got an empty, '.', '..', or '/' path)".to_string(),
                ),
            )
        } else {
            Ok(root)
        }
    }
}

/// How the records found at one root path are reconciled: the record kept
/// (a position among them) and the positions of the duplicates that are
/// deleted, with their file data.
#[derive(Debug, Clone, PartialEq, Eq)]
pub struct Reconciled {
    pub canonical: Option<usize>,
    pub deleted: Vec<usize>,
}

/// Record `i` is the first of the most recently updated ones.
pub open spec fn is_newest(rows: Seq<ProjectRow>, i: int) -> bool {
    &&& 0 <= i < rows.len()
    &&& forall|k: int| 0 <= k < rows.len() ==> (#[trigger] rows[k]).updated_at <= rows[i].updated_at
    &&& forall|k: int| 0 <= k < i ==> (#[trigger] rows[k]).updated_at < rows[i].updated_at
}

/// Record `i` is the first one whose id is `pid`.
pub open spec fn first_with_id(rows: Seq<ProjectRow>, pid: Seq<char>, i: int) -> bool {
    &&& 0 <= i < rows.len()
    &&& row_id_text(rows[i]) == Some(pid)
    &&& forall|k: int| 0 <= k < i ==> row_id_text(#[trigger] rows[k]) != Some(pid)
}

/// Some record's id is `pid`.
pub open spec fn has_id(rows: Seq<ProjectRow>, pid: Seq<char>) -> bool {
    exists|k: int| 0 <= k < rows.len() && row_id_text(#[trigger] rows[k]) == Some(pid)
}

/// The record a reconciliation keeps among two or more: the one the
/// configuration names when it is among them, otherwise the most recently
/// updated one.
pub open spec fn is_canonical(rows: Seq<ProjectRow>, config: Option<Seq<char>>, i: int) -> bool {
    match config {
        Some(pid) => if has_id(rows, pid) {
            first_with_id(rows, pid, i)
        } else {
            is_newest(rows, i)
        },
        None => is_newest(rows, i),
    }
}

/// The positions below `n`, other than `kept`, whose record has an id, in
/// order.
pub open spec fn duplicates_below(rows: Seq<ProjectRow>, kept: int, n: int) -> Seq<int>
    decreases n,
{
    if n <= 0 {
        Seq::empty()
    } else if n - 1 != kept && row_id(rows[n - 1]) is Some {
        duplicates_below(rows, kept, n - 1).push(n - 1)
    } else {
        duplicates_below(rows, kept, n - 1)
    }
}

/// The positions other than `kept` whose record has an id, in order.
pub open spec fn duplicate_positions(rows: Seq<ProjectRow>, kept: int) -> Seq<int> {
    duplicates_below(rows, kept, rows.len() as int)
}

/// Reconciles the project records found at one root path. A single record
/// (or none) is kept as it is. Of several, the one the configuration's
/// project id names is kept when it is among them, otherwise the most
/// recently updated one (the first of them on a tie); every other record
/// with an id is deleted, so that registering again heals duplicates left
/// by a stale view of the database.
pub fn reconcile_root_records(config_project_id: Option<&str>, records: &Vec<ProjectRow>) -> (r:
    Reconciled)
    ensures
        records@.len() == 0 ==> r.canonical is None && r.deleted@.len() == 0,
        records@.len() == 1 ==> r.canonical == Some(0usize) && r.deleted@.len() == 0,
        records@.len() >= 2 ==> (r.canonical matches Some(c) && is_canonical(
            records@,
            match config_project_id {
                Some(s) => Some(s@),
                None => None::<Seq<char>>,
            },
            c as int,
        ) && r.deleted@.map_values(|u: usize| u as int) == duplicate_positions(records@, c as int)),
{
    let n = records.len();
    if n <= 1 {
        return Reconciled { canonical: if n == 1 { Some(0) } else { None }, deleted: Vec::new() };
    }
    let ghost rows = records@;
    let ghost config = match config_project_id {
        Some(s) => Some(s@),
        None => None::<Seq<char>>,
    };
    let mut found: Option<usize> = None;
    if let Some(pid) = config_project_id {
        let pv = chars_of(pid);
        let mut i: usize = 0;
        while i < n
            invariant_except_break
                found is None,
                forall|k: int| 0 <= k < i ==> row_id_text(#[trigger] rows[k]) != Some(pid@),
            invariant
                n == records@.len(),
                rows == records@,
                i <= n,
                pv@ == pid@,
            ensures
                found matches Some(j) ==> first_with_id(rows, pid@, j as int),
                found is None ==> forall|k: int| 0 <= k < n ==> row_id_text(#[trigger] rows[k]) != Some(pid@),
            decreases n - i,
        {
            match row_id_string(&records[i]) {
                Some(t) => {
                    let tv = chars_of(t.as_str());
                    if chars_eq(tv.as_slice(), pv.as_slice()) {
                        found = Some(i);
                        break;
                    }
                },
                None => {},
            }
            i = i + 1;
        }
        proof {
            if found is None {
                assert(!has_id(rows, pid@));
            } else {
                let j = found->0;
                assert(row_id_text(rows[j as int]) == Some(pid@));
                assert(has_id(rows, pid@));
            }
        }
    }
    assert(found matches Some(j) ==> (config matches Some(p) && first_with_id(rows, p, j as int)
        && has_id(rows, p)));
    assert(found is None ==> (config is None || !has_id(rows, config->0)));
    let c: usize = match found {
        Some(i) => i,
        None => {
            let mut best: usize = 0;
            let mut i: usize = 1;
            while i < n
                invariant
                    n == records@.len(),
                    rows == records@,
                    1 <= i <= n,
                    best < i,
                    forall|k: int| 0 <= k < i ==> (#[trigger] rows[k]).updated_at <= rows[best as int].updated_at,
                    forall|k: int| 0 <= k < best ==> (#[trigger] rows[k]).updated_at < rows[best as int].updated_at,
                decreases n - i,
            {
                if records[i].updated_at > records[best].updated_at {
                    best = i;
                }
                i = i + 1;
            }
            best
        },
    };
    let mut deleted: Vec<usize> = Vec::new();
    let mut k: usize = 0;
    while k < n
        invariant
            n == records@.len(),
            rows == records@,
            k <= n,
            c < n,
            deleted@.map_values(|u: usize| u as int) == duplicates_below(rows, c as int, k as int),
        decreases n - k,
    {
        if k != c && records[k].is_object && records[k].id.is_some() {
            let ghost before = deleted@.map_values(|u: usize| u as int);
            deleted.push(k);
            assert(deleted@.map_values(|u: usize| u as int) =~= before.push(k as int));
        }
        k = k + 1;
    }
    assert(found matches Some(j) ==> (config matches Some(p) && first_with_id(rows, p, j as int)));
    assert(is_canonical(rows, config, c as int));
    Reconciled { canonical: Some(c), deleted }
}

/// Which looked-up record a registration updates: the one at the root
/// path, or the one the configuration's project id names.
#[derive(Debug, Clone, Copy, PartialEq, Eq, Structural)]
pub enum UpdateTarget {
    ByRoot,
    ById,
}

/// What a registration does once its lookups are done: create a new
/// project record, or update an existing one (whose id is `project_id`).
#[derive(Debug, Clone, PartialEq, Eq)]
pub enum RegisterStep {
    Create(ProjectAction),
    Update { target: UpdateTarget, project_id: String, action: ProjectAction },
}

/// The first decision of a registration, from whether the configuration
/// names a project, whether a record exists at the root path, and whether
/// the configuration's project exists.
#[derive(Debug, Clone, Copy, PartialEq, Eq, Structural)]
pub enum RegisterChoice {
    Create(ProjectAction),
    Update(UpdateTarget, ProjectAction),
    /// Both exist: the root's record is reused only if it is the
    /// configuration's project.
    CheckIdentity,
}

/// The first decision of a registration. With no configured project, the
/// root's record is reused, or a project created. A configured project that
/// no longer exists leaves the root's record authoritative (reused) or a
/// project to create, both noted as a stale configuration. A configured
/// project that exists elsewhere while the root has no record has moved.
pub open spec fn register_choice(has_config: bool, at_root: bool, by_id: bool) -> RegisterChoice {
    if !has_config {
        if at_root {
            RegisterChoice::Update(UpdateTarget::ByRoot, ProjectAction::Reused)
        } else {
            RegisterChoice::Create(ProjectAction::Created)
        }
    } else if at_root {
        if by_id {
            RegisterChoice::CheckIdentity
        } else {
            RegisterChoice::Update(UpdateTarget::ByRoot, ProjectAction::ReusedStaleConfig)
        }
    } else if by_id {
        RegisterChoice::Update(UpdateTarget::ById, ProjectAction::Moved)
    } else {
        RegisterChoice::Create(ProjectAction::CreatedStaleConfig)
    }
}

/// The refusal when a directory's record and its configuration name
/// different projects.
pub open spec fn identity_conflict(existing: Seq<char>, configured: Seq<char>) -> Seq<char> {
    "Identity conflict: this directory is registered as project "@ + existing
        + ", but config.json identifies it as "@ + configured
        + ". The config's project exists at another location, so it was not reused here. Run `mercury-cortex project` in that other directory to keep it, or delete `.mercury-cortex/config.json` here to re-register this directory."@
}

/// The outcome of updating `row`: its id's text, or an internal error when
/// it is not an object or has no id that can be spelled.
pub open spec fn update_outcome(
    row: ProjectRow,
    target: UpdateTarget,
    action: ProjectAction,
    r: Result<RegisterStep, ServiceError>,
) -> bool {
    if !row.is_object {
        r matches Err(ServiceError::Internal(m)) && m@ == "Existing record not an object"@
    } else {
        match row_id_text(row) {
            None => r matches Err(ServiceError::Internal(m)) && m@
                == "Existing record missing id"@,
            Some(t) => r matches Ok(RegisterStep::Update { target: tg, project_id: p, action: a })
                && tg == target && p@ == t && a == action,
        }
    }
}

fn update_step(row: &ProjectRow, target: UpdateTarget, action: ProjectAction) -> (r: Result<
    RegisterStep,
    ServiceError,
>)
    ensures
        update_outcome(*row, target, action, r),
{
    if !row.is_object {
        return Err(ServiceError::Internal("Existing record not an object".to_string()));
    }
    match row_id_string(row) {
        Some(project_id) => Ok(RegisterStep::Update { target, project_id, action }),
        None => Err(ServiceError::Internal("Existing record missing id".to_string())),
    }
}

/// What a registration decides, given the configuration's project id, the
/// record at the root path and the record the configuration names (see
/// `register_choice`): a create, an update of the chosen record (through
/// `update_outcome`), or, when both records exist, reuse of the root's
/// record only if it is the configured project, and otherwise a refusal
/// naming both ids.
pub open spec fn register_outcome(
    config: Option<Seq<char>>,
    by_root: Option<ProjectRow>,
    by_id: Option<ProjectRow>,
    r: Result<RegisterStep, ServiceError>,
) -> bool {
    match register_choice(config is Some, by_root is Some, by_id is Some) {
        RegisterChoice::Create(a) => r == Ok::<RegisterStep, ServiceError>(RegisterStep::Create(a)),
        RegisterChoice::Update(UpdateTarget::ByRoot, a) => update_outcome(
            by_root->0,
            UpdateTarget::ByRoot,
            a,
            r,
        ),
        RegisterChoice::Update(UpdateTarget::ById, a) => update_outcome(
            by_id->0,
            UpdateTarget::ById,
            a,
            r,
        ),
        RegisterChoice::CheckIdentity => match row_id_text(by_root->0) {
            None => r matches Err(ServiceError::Internal(m)) && m@ == "Project record missing id"@,
            Some(t) => if t == config->0 {
                update_outcome(by_root->0, UpdateTarget::ByRoot, ProjectAction::Reused, r)
            } else {
                r matches Err(ServiceError::Validation(m)) && m@ == identity_conflict(t, config->0)
            },
        },
    }
}

/// Registering a directory again, with the configuration naming the
/// project recorded at its root (which the lookup by id therefore finds),
/// reuses that project: the registration updates the root's record and
/// reports its id.
pub proof fn lemma_reregister_reuses(
    pid: Seq<char>,
    root: ProjectRow,
    configured: ProjectRow,
    r: Result<RegisterStep, ServiceError>,
)
    requires
        register_outcome(Some(pid), Some(root), Some(configured), r),
        row_id_text(root) == Some(pid),
    ensures
        r matches Ok(RegisterStep::Update { target, project_id, action }) && target
            == UpdateTarget::ByRoot && project_id@ == pid && action == ProjectAction::Reused,
{
}

/// A directory whose record is another existing project than the one its
/// configuration names is never reassigned: the registration is refused
/// with the identity conflict naming both ids.
pub proof fn lemma_identity_conflict_refused(
    pid: Seq<char>,
    root: ProjectRow,
    configured: ProjectRow,
    existing: Seq<char>,
    r: Result<RegisterStep, ServiceError>,
)
    requires
        register_outcome(Some(pid), Some(root), Some(configured), r),
        row_id_text(root) == Some(existing),
        existing != pid,
    ensures
        r matches Err(ServiceError::Validation(m)) && m@ == identity_conflict(existing, pid),
{
}

/// A configured project that exists elsewhere, when the directory has no
/// record, has moved: its record is updated (with this root) and kept.
pub proof fn lemma_moved_project_kept(
    pid: Seq<char>,
    configured: ProjectRow,
    id_text: Seq<char>,
    r: Result<RegisterStep, ServiceError>,
)
    requires
        register_outcome(Some(pid), None, Some(configured), r),
        configured.is_object,
        row_id_text(configured) == Some(id_text),
    ensures
        r matches Ok(RegisterStep::Update { target, project_id, action }) && target
            == UpdateTarget::ById && project_id@ == id_text && action == ProjectAction::Moved,
{
}

/// With no record at the root and none for the configuration, a new
/// project is created (noting a stale configuration when it named one).
pub proof fn lemma_unknown_directory_created(
    config: Option<Seq<char>>,
    r: Result<RegisterStep, ServiceError>,
)
    requires
        register_outcome(config, None, None, r),
    ensures
        r == Ok::<RegisterStep, ServiceError>(
            RegisterStep::Create(
                if config is Some {
                    ProjectAction::CreatedStaleConfig
                } else {
                    ProjectAction::Created
                },
            ),
        ),
{
}

impl ProjectService {
    /// Refuses a registration when no user profile exists yet.
    pub fn require_owner(has_owner: bool) -> (r: Result<(), ServiceError>)
        ensures
            has_owner ==> r is Ok,
            !has_owner ==> (r matches Err(ServiceError::Validation(m)) && m@
                == "No user profile found. Run `mercury-cortex profile` first."@),
    {
        if has_owner {
            Ok(())
        } else {
            Err(
                ServiceError::Validation(
                    "No user profile found. Run `mercury-cortex profile` first.".to_string(),
                ),
            )
        }
    }

    /// Parses a project id, refusing text that is not a record id.
    pub fn parse_project_id(project_id: &str) -> (r: Result<surrealdb_types::RecordId, ServiceError>)
        ensures
            r is Ok <==> record_id_parses(project_id@),
            r matches Ok(rid) ==> crate::util::parsed_record_id(project_id@) == Some(rid),
            r matches Err(e) ==> (e matches ServiceError::Validation(m) && m@ == "Invalid project_id: "@
                + project_id@),
    {
        match record_id_value(project_id) {
            Ok(rid) => Ok(rid),
            Err(_) => {
                let mut m = "Invalid project_id: ".to_string();
                m.append(project_id);
                Err(ServiceError::Validation(m))
            },
        }
    }

    /// Decides what a registration does, given the configuration's project
    /// id, the (reconciled) record at the root path, and the record the
    /// configuration's id names (looked up only when there is one).
    pub fn plan_register(
        config_project_id: Option<&str>,
        by_root: Option<&ProjectRow>,
        by_id: Option<&ProjectRow>,
    ) -> (r: Result<RegisterStep, ServiceError>)
        ensures
            register_outcome(
                match config_project_id {
                    Some(c) => Some(c@),
                    None => None,
                },
                match by_root {
                    Some(row) => Some(*row),
                    None => None,
                },
                match by_id {
                    Some(row) => Some(*row),
                    None => None,
                },
                r,
            ),
    {
        match (config_project_id, by_root, by_id) {
            (None, Some(root), _) => update_step(root, UpdateTarget::ByRoot, ProjectAction::Reused),
            (Some(_), Some(root), None) => update_step(
                root,
                UpdateTarget::ByRoot,
                ProjectAction::ReusedStaleConfig,
            ),
            (Some(pid), Some(root), Some(_)) => {
                match row_id_string(root) {
                    None => Err(ServiceError::Internal("Project record missing id".to_string())),
                    Some(existing) => {
                        let ev = chars_of(existing.as_str());
                        let pv = chars_of(pid);
                        if chars_eq(ev.as_slice(), pv.as_slice()) {
                            update_step(root, UpdateTarget::ByRoot, ProjectAction::Reused)
                        } else {
                            let mut m = "Identity conflict: this directory is registered as project ".to_string();
                            m.append(existing.as_str());
                            m.append(", but config.json identifies it as ");
                            m.append(pid);
                            m.append(". The config's project exists at another location, so it was not reused here. Run `mercury-cortex project` in that other directory to keep it, or delete `.mercury-cortex/config.json` here to re-register this directory.");
                            Err(ServiceError::Validation(m))
                        }
                    },
                }
            },
            (Some(_), None, Some(moved)) => update_step(moved, UpdateTarget::ById, ProjectAction::Moved),
            (None, None, _) => Ok(RegisterStep::Create(ProjectAction::Created)),
            (Some(_), None, None) => Ok(RegisterStep::Create(ProjectAction::CreatedStaleConfig)),
        }
    }

    /// The id of a freshly created project, from the first record the
    /// create returned: internal errors when there is none or it has no id
    /// that can be spelled.
    pub fn created_project_id(created: Option<&ProjectRow>) -> (r: Result<String, ServiceError>)
        ensures
            match created {
                None => r matches Err(ServiceError::Internal(m)) && m@ == "Create returned no data"@,
                Some(row) => match row_id_text(*row) {
                    None => r matches Err(ServiceError::Internal(m)) && m@
                        == "Created record missing id"@,
                    Some(t) => r matches Ok(p) && p@ == t,
                },
            },
    {
        match created {
            None => Err(ServiceError::Internal("Create returned no data".to_string())),
            Some(row) => match row_id_string(row) {
                Some(p) => Ok(p),
                None => Err(ServiceError::Internal("Created record missing id".to_string())),
            },
        }
    }
}

/// A project record read for lookup: whether it is an object, and its
/// `root_path` and `slug` fields when they are strings.
#[derive(Debug, Clone, PartialEq, Eq)]
pub struct ProjectInfoRow {
    pub is_object: bool,
    pub root_path: Option<String>,
    pub slug: Option<String>,
}

/// The `SET` clauses of a metadata update: the update time always, then
/// the language and the framework when given.
pub open spec fn metadata_clauses(language: bool, framework: bool) -> Seq<Seq<char>> {
    let base = seq!["updated_at = time::now()"@];
    let with_language = if language {
        base.push("language = $language"@)
    } else {
        base
    };
    if framework {
        with_language.push("framework = $framework"@)
    } else {
        with_language
    }
}

impl ProjectService {
    /// The project info for `project_id` from the first record its lookup
    /// returned: not found when there is none; internal errors when the
    /// record is not an object or lacks a string `root_path` or `slug`.
    pub fn project_info(project_id: &str, record: Option<&ProjectInfoRow>) -> (r: Result<
        ProjectInfo,
        ServiceError,
    >)
        ensures
            match record {
                None => r matches Err(ServiceError::NotFound(m)) && m@ == "Project not found: "@
                    + project_id@,
                Some(row) => if !row.is_object {
                    r matches Err(ServiceError::Internal(m)) && m@
                        == "project record not an object"@
                } else {
                    match (row.root_path, row.slug) {
                        (None, _) => r matches Err(ServiceError::Internal(m)) && m@
                            == "project record missing root_path"@,
                        (Some(_), None) => r matches Err(ServiceError::Internal(m)) && m@
                            == "project record missing slug"@,
                        (Some(rp), Some(sl)) => r matches Ok(info) && info.id@ == project_id@
                            && info.root_path@ == rp@ && info.slug@ == sl@,
                    }
                },
            },
    {
        match record {
            None => {
                let mut m = "Project not found: ".to_string();
                m.append(project_id);
                Err(ServiceError::NotFound(m))
            },
            Some(row) => {
                if !row.is_object {
                    return Err(ServiceError::Internal("project record not an object".to_string()));
                }
                let root_path = match &row.root_path {
                    Some(p) => p.clone(),
                    None => {
                        return Err(
                            ServiceError::Internal("project record missing root_path".to_string()),
                        );
                    },
                };
                let slug = match &row.slug {
                    Some(sl) => sl.clone(),
                    None => {
                        return Err(ServiceError::Internal("project record missing slug".to_string()));
                    },
                };
                Ok(ProjectInfo { id: project_id.to_string(), root_path, slug })
            },
        }
    }

    /// The statement of a metadata update: `UPDATE $id SET ` and the
    /// clauses joined by `, `.
    pub fn metadata_update_sql(params: &UpdateMetadataParams) -> (s: String)
        ensures
            s@ == "UPDATE $id SET "@ + join(
                metadata_clauses(params.language is Some, params.framework is Some),
                ", "@,
            ),
    {
        let mut clauses: Vec<&str> = vec!["updated_at = time::now()"];
        if params.language.is_some() {
            clauses.push("language = $language");
        }
        if params.framework.is_some() {
            clauses.push("framework = $framework");
        }
        assert(clauses@.map_values(|c: &str| c@) =~= metadata_clauses(
            params.language is Some,
            params.framework is Some,
        ));
        let mut s = "UPDATE $id SET ".to_string();
        let joined = join_strs(&clauses, ", ");
        s.append(joined.as_str());
        s
    }
}

} // verus!
