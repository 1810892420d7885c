//! User profile reading and upserting: how a profile record is read, the
//! statements that create or update one, and what the upsert reports.
use vstd::prelude::*;
use vstd::string::StringExecFns;

use crate::db::export::InfoReply;
use crate::service::project::{row_id, row_id_text, ProjectRow};
use crate::service::ServiceError;
use crate::text::{contains_string, str_eq, string_views};
use crate::util::{record_id_parses, record_id_value, record_thing_to_string, RecordValue};

verus! {

/// A user profile record.
#[derive(Debug, Clone, PartialEq, Eq)]
pub struct ProfileData {
    pub id: Option<String>,
    pub name: String,
    pub email: String,
    pub agent_name: String,
    pub profile_type: String,
    pub created_at: Option<String>,
}

/// Parameters for creating or updating a user profile.
#[derive(Debug, Clone, PartialEq, Eq)]
pub struct UpsertParams {
    pub id: Option<String>,
    pub name: String,
    pub email: String,
    pub agent_name: String,
    pub profile_type: String,
}

/// Service for user profile operations.
#[derive(Debug, Clone, Copy, PartialEq, Eq)]
pub struct ProfileService;

/// A user record as read back from the database: whether it is an object,
/// its `id` field when present, its string fields when they are strings,
/// and its `created_at` when it serialises to a JSON string.
#[derive(Debug, Clone, PartialEq, Eq)]
pub struct UserRow {
    pub is_object: bool,
    pub id: Option<RecordValue>,
    pub name: Option<String>,
    pub email: Option<String>,
    pub agent_name: Option<String>,
    pub profile_type: Option<String>,
    pub created_at: Option<String>,
}

/// A string field's value, or the empty string when it is absent.
pub open spec fn or_empty(s: Option<String>) -> Seq<char> {
    match s {
        Some(v) => v@,
        None => Seq::empty(),
    }
}

fn string_or_empty(s: &Option<String>) -> (r: String)
    ensures
        r@ == or_empty(*s),
{
    match s {
        Some(v) => v.clone(),
        None => String::new(),
    }
}

/// The `SET` clause shared by the profile's create and update.
pub open spec fn profile_set_clause() -> Seq<char> {
    "name = $name, email = $email, agent_name = $agent_name, type = $type, updated_at = time::now()"@
}

impl ProfileService {
    /// Whether an `INFO FOR DB` reply lists a `users` table; a fresh,
    /// unmigrated database has none, which reads as "no profile".
    pub fn users_table_exists(info: &InfoReply) -> (b: bool)
        ensures
            b == match *info {
                InfoReply::Object(Some(keys)) => string_views(keys@).contains("users"@),
                _ => false,
            },
    {
        match info {
            InfoReply::Object(Some(keys)) => {
                let found = contains_string(keys.as_slice(), "users");
                proof {
                    let kv = string_views(keys@);
                    if found {
                        let i = choose|i: int| 0 <= i < keys@.len() && (#[trigger] keys@[i])@ == "users"@;
                        assert(kv[i] == "users"@);
                    }
                    if kv.contains("users"@) {
                        let i = choose|i: int| 0 <= i < kv.len() && kv[i] == "users"@;
                        assert(keys@[i]@ == "users"@);
                    }
                }
                found
            },
            _ => false,
        }
    }

    /// The profile read from the first user record: none when there is no
    /// record; an internal error when it is not an object; otherwise its
    /// id's text (when it can be spelled), its string fields (empty when
    /// absent) and its creation time.
    pub fn profile_from_row(row: Option<&UserRow>) -> (r: Result<Option<ProfileData>, ServiceError>)
        ensures
            match row {
                None => r == Ok::<Option<ProfileData>, ServiceError>(None),
                Some(u) => if !u.is_object {
                    r matches Err(ServiceError::Internal(m)) && m@ == "User record not an object"@
                } else {
                    r matches Ok(Some(p)) && p.name@ == or_empty(u.name) && p.email@ == or_empty(
                        u.email,
                    ) && p.agent_name@ == or_empty(u.agent_name) && p.profile_type@ == or_empty(
                        u.profile_type,
                    ) && p.created_at == u.created_at && match row_id_text(
                        ProjectRow { is_object: true, id: u.id, updated_at: 0 },
                    ) {
                        Some(t) => p.id matches Some(i) && i@ == t,
                        None => p.id is None,
                    }
                },
            },
    {
        match row {
            None => Ok(None),
            Some(u) => {
                if !u.is_object {
                    return Err(ServiceError::Internal("User record not an object".to_string()));
                }
                let id = match &u.id {
                    Some(v) => record_thing_to_string(v),
                    None => None,
                };
                Ok(
                    Some(
                        ProfileData {
                            id,
                            name: string_or_empty(&u.name),
                            email: string_or_empty(&u.email),
                            agent_name: string_or_empty(&u.agent_name),
                            profile_type: string_or_empty(&u.profile_type),
                            created_at: u.created_at.clone(),
                        },
                    ),
                )
            },
        }
    }

    /// The statement of an upsert: an update of the given record, or the
    /// creation of a new user, both returning the record's id.
    pub fn upsert_sql(updating: bool) -> (s: String)
        ensures
            updating ==> s@ == "UPDATE $id SET "@ + profile_set_clause() + " RETURN id"@,
            !updating ==> s@ == "CREATE users SET "@ + profile_set_clause()
                + ", created_at = time::now() RETURN id"@,
    {
        let clause = "name = $name, email = $email, agent_name = $agent_name, type = $type, updated_at = time::now()";
        if updating {
            let mut s = "UPDATE $id SET ".to_string();
            s.append(clause);
            s.append(" RETURN id");
            s
        } else {
            let mut s = "CREATE users SET ".to_string();
            s.append(clause);
            s.append(", created_at = time::now() RETURN id");
            s
        }
    }

    /// Parses the id of the profile to update, refusing text that is not a
    /// record id.
    pub fn parse_profile_id(id: &str) -> (r: Result<surrealdb_types::RecordId, ServiceError>)
        ensures
            r is Ok <==> record_id_parses(id@),
            r matches Ok(rid) ==> crate::util::parsed_record_id(id@) == Some(rid),
            r matches Err(e) ==> (e matches ServiceError::Validation(m) && m@ == "Invalid id: "@
                + id@),
    {
        match record_id_value(id) {
            Ok(rid) => Ok(rid),
            Err(_) => {
                let mut m = "Invalid id: ".to_string();
                m.append(id);
                Err(ServiceError::Validation(m))
            },
        }
    }

    /// The id an upsert reports, from the id it was asked to update (if
    /// any) and the first record the statement returned: an update that
    /// returned nothing did not find its profile; a create that returned
    /// nothing, or a record without an id, is an internal error, as is an
    /// id that cannot be spelled.
    pub fn upserted_id(id: Option<&str>, first: Option<&ProjectRow>) -> (r: Result<String, ServiceError>)
        ensures
            match (id, first) {
                (Some(i), None) => r matches Err(ServiceError::Validation(m)) && m@
                    == "Profile not found: "@ + i@,
                (None, None) => r matches Err(ServiceError::Internal(m)) && m@
                    == "User record missing id"@,
                (_, Some(rec)) => if row_id(*rec) is None {
                    r matches Err(ServiceError::Internal(m)) && m@ == "User record missing id"@
                } else {
                    match row_id_text(*rec) {
                        Some(t) => r matches Ok(p) && p@ == t,
                        None => r matches Err(ServiceError::Internal(m)) && m@
                            == "User record returned an unexpected id"@,
                    }
                },
            },
    {
        match (id, first) {
            (Some(i), None) => {
                let mut m = "Profile not found: ".to_string();
                m.append(i);
                Err(ServiceError::Validation(m))
            },
            (None, None) => Err(ServiceError::Internal("User record missing id".to_string())),
            (_, Some(rec)) => {
                if !rec.is_object || rec.id.is_none() {
                    return Err(ServiceError::Internal("User record missing id".to_string()));
                }
                match &rec.id {
                    Some(v) => match record_thing_to_string(v) {
                        Some(p) => Ok(p),
                        None => Err(
                            ServiceError::Internal(
                                "User record returned an unexpected id".to_string(),
                            ),
                        ),
                    },
                    None => Err(ServiceError::Internal("User record missing id".to_string())),
                }
            },
        }
    }

    /// Whether checking an email for use needs a lookup: an email equal to
    /// the caller's current one is its own and never counts as taken.
    pub fn email_needs_lookup(email: &str, current_email: Option<&str>) -> (b: bool)
        ensures
            b == match current_email {
                Some(c) => c@ != email@,
                None => true,
            },
    {
        match current_email {
            Some(c) => !str_eq(c, email),
            None => true,
        }
    }
}

} // verus!
