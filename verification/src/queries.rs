//! The lists that are asked of control state: what a record must hold to be
//! listed, in which order, and how many at most.

use vstd::prelude::*;

use crate::desired::Desired;
use crate::error::{EnvironmentError, Refusal};
use crate::lifecycle::{found_membership, membership};
use crate::state::{EnvironmentProjectRecord, Stored};
use crate::text::opt_text;
use crate::views::environment_reference;

verus! {

/// A field records are listed by.
#[derive(Debug, Clone, Copy, PartialEq, Eq, Structural)]
pub enum Field {
    EnvironmentId,
    ProjectId,
    OperatorId,
    ProviderId,
    Name,
    At,
    StartedAt,
    CreatedAt,
}

impl Field {
    pub open spec fn name(self) -> Seq<char> {
        match self {
            Field::EnvironmentId => "environment_id"@,
            Field::ProjectId => "project_id"@,
            Field::OperatorId => "operator_id"@,
            Field::ProviderId => "provider_id"@,
            Field::Name => "name"@,
            Field::At => "at"@,
            Field::StartedAt => "started_at"@,
            Field::CreatedAt => "created_at"@,
        }
    }

    /// The field as control state names it.
    pub fn as_str(self) -> (r: &'static str)
        ensures
            r@ == self.name(),
    {
        match self {
            Field::EnvironmentId => "environment_id",
            Field::ProjectId => "project_id",
            Field::OperatorId => "operator_id",
            Field::ProviderId => "provider_id",
            Field::Name => "name",
            Field::At => "at",
            Field::StartedAt => "started_at",
            Field::CreatedAt => "created_at",
        }
    }
}

/// A list of records.
#[derive(Debug, PartialEq, Eq)]
pub struct ListQuery {
    /// Only records that hold each of these values.
    pub equal: Vec<(Field, String)>,
    pub order: Field,
    /// Whether the greatest comes first.
    pub descending: bool,
    /// How many at most; all of them otherwise.
    pub limit: Option<usize>,
}

/// A list of records, as plain values.
pub ghost struct QueryText {
    pub equal: Seq<(Field, Seq<char>)>,
    pub order: Field,
    pub descending: bool,
    pub limit: Option<usize>,
}

pub open spec fn equalities(list: Seq<(Field, String)>) -> Seq<(Field, Seq<char>)> {
    list.map_values(|row: (Field, String)| (row.0, row.1@))
}

impl View for ListQuery {
    type V = QueryText;

    open spec fn view(&self) -> QueryText {
        QueryText {
            equal: equalities(self.equal@),
            order: self.order,
            descending: self.descending,
            limit: self.limit,
        }
    }
}

/// Records that hold nothing in particular, in order of a field.
fn all_by(order: Field, descending: bool, limit: Option<usize>) -> (r: ListQuery)
    ensures
        r@ == (QueryText { equal: Seq::empty(), order, descending, limit }),
{
    let r = ListQuery { equal: Vec::new(), order, descending, limit };
    proof {
        assert(equalities(r.equal@) =~= Seq::<(Field, Seq<char>)>::empty());
    }
    r
}

/// Only the listed records that hold a value, too.
fn only(query: ListQuery, field: Field, value: String) -> (r: ListQuery)
    ensures
        r@ == (QueryText { equal: query@.equal.push((field, value@)), ..query@ }),
{
    let mut r = query;
    let ghost before = r.equal@;
    r.equal.push((field, value));
    proof {
        assert(equalities(r.equal@) =~= equalities(before).push((field, value@)));
    }
    r
}

// ---- Releases and revisions -------------------------------------------------

/// The releases of an environment, of a project, or of both, newest first.
pub open spec fn deployments_asked(
    desired: Desired,
    environment: Option<Seq<char>>,
    project_id: Option<Seq<char>>,
    limit: Option<usize>,
) -> QueryText {
    let of_environment = match environment {
        Some(environment) => seq![
            (
                Field::EnvironmentId,
                match desired.environment_named(environment) {
                    Some(record) => record.id@,
                    None => environment,
                },
            ),
        ],
        None => Seq::empty(),
    };
    QueryText {
        equal: match project_id {
            Some(id) => of_environment.push((Field::ProjectId, id)),
            None => of_environment,
        },
        order: Field::CreatedAt,
        descending: true,
        limit,
    }
}

/// Ask for releases, newest first: of an environment, given by name or by
/// identifier, and of a project, where they are named.
pub fn deployments(
    desired: &Desired,
    environment: Option<String>,
    project_id: Option<String>,
    limit: Option<usize>,
) -> (r: ListQuery)
    ensures
        r@ == deployments_asked(*desired, opt_text(environment), opt_text(project_id), limit),
{
    let mut query = all_by(Field::CreatedAt, true, limit);
    if let Some(environment) = environment {
        query = only(query, Field::EnvironmentId, environment_reference(desired, environment));
        proof {
            assert(query@.equal =~= deployments_asked(
                *desired,
                Some(environment@),
                None,
                limit,
            ).equal);
        }
    }
    if let Some(id) = project_id {
        query = only(query, Field::ProjectId, id);
    }
    query
}

/// Ask for the revisions of a project, newest first.
pub fn revisions(project_id: String) -> (r: ListQuery)
    ensures
        r@ == (QueryText {
            equal: seq![(Field::ProjectId, project_id@)],
            order: Field::CreatedAt,
            descending: true,
            limit: None,
        }),
{
    let r = only(all_by(Field::CreatedAt, true, None), Field::ProjectId, project_id);
    proof {
        assert(r@.equal =~= seq![(Field::ProjectId, project_id@)]);
    }
    r
}

// ---- Evidence ---------------------------------------------------------------

/// What is listed of a project in an environment.
pub open spec fn placed(
    membership: EnvironmentProjectRecord,
    order: Field,
    limit: usize,
) -> QueryText {
    QueryText {
        equal: seq![
            (Field::ProjectId, membership.project_id@),
            (Field::EnvironmentId, membership.environment_id@),
        ],
        order,
        descending: true,
        limit: Some(limit),
    }
}

/// Whether a list is the one asked for of a project in an environment, or
/// the report that the project is not there.
pub open spec fn is_placed(
    r: Result<ListQuery, EnvironmentError>,
    found: Result<Stored<EnvironmentProjectRecord>, Refusal>,
    order: Field,
    limit: usize,
) -> bool {
    match found {
        Ok(record) => r matches Ok(query) && query@ == placed(record.value, order, limit),
        Err(refusal) => r matches Err(error) && error.reports(refusal),
    }
}

fn in_place(
    desired: &Desired,
    environment: &str,
    project: &str,
    order: Field,
    limit: usize,
) -> (r: Result<ListQuery, EnvironmentError>)
    ensures
        is_placed(r, found_membership(*desired, environment@, project@), order, limit),
{
    let record = match membership(desired, environment, project) {
        Ok(record) => record,
        Err(error) => {
            return Err(error);
        },
    };
    let of_project = only(
        all_by(order, true, Some(limit)),
        Field::ProjectId,
        record.value.project_id.clone(),
    );
    let query = only(of_project, Field::EnvironmentId, record.value.environment_id.clone());
    proof {
        assert(query@.equal =~= placed(record.value, order, limit).equal);
    }
    Ok(query)
}

/// Ask for the executions of a project in an environment, newest first.
pub fn executions(desired: &Desired, environment: &str, project: &str, limit: usize) -> (r: Result<
    ListQuery,
    EnvironmentError,
>)
    ensures
        is_placed(
            r,
            found_membership(*desired, environment@, project@),
            Field::StartedAt,
            limit,
        ),
{
    in_place(desired, environment, project, Field::StartedAt, limit)
}

/// Ask for the receipts of a project in an environment, newest first.
pub fn receipts(desired: &Desired, environment: &str, project: &str, limit: usize) -> (r: Result<
    ListQuery,
    EnvironmentError,
>)
    ensures
        is_placed(
            r,
            found_membership(*desired, environment@, project@),
            Field::CreatedAt,
            limit,
        ),
{
    in_place(desired, environment, project, Field::CreatedAt, limit)
}

/// Ask for what operators did, newest first: all of them, or one.
pub fn audit_records(operator: Option<String>, limit: usize) -> (r: ListQuery)
    ensures
        r@ == (QueryText {
            equal: match opt_text(operator) {
                Some(operator) => seq![(Field::OperatorId, operator)],
                None => Seq::empty(),
            },
            order: Field::At,
            descending: true,
            limit: Some(limit),
        }),
{
    let query = all_by(Field::At, true, Some(limit));
    match operator {
        Some(operator) => {
            let r = only(query, Field::OperatorId, operator);
            proof {
                assert(r@.equal =~= seq![(Field::OperatorId, operator@)]);
            }
            r
        },
        None => query,
    }
}

// ---- The node ---------------------------------------------------------------

/// Ask for the shared services, by name.
pub fn services() -> (r: ListQuery)
    ensures
        r@ == (QueryText {
            equal: Seq::empty(),
            order: Field::Name,
            descending: false,
            limit: None,
        }),
{
    all_by(Field::Name, false, None)
}

/// Ask for the providers that are registered, by identifier.
pub fn providers() -> (r: ListQuery)
    ensures
        r@ == (QueryText {
            equal: Seq::empty(),
            order: Field::ProviderId,
            descending: false,
            limit: None,
        }),
{
    all_by(Field::ProviderId, false, None)
}

// ---- Laws -------------------------------------------------------------------

/// Releases are asked for newest first, of the project and the environment
/// that are named and of nothing else: the environment by its identifier,
/// where its name is known.
pub proof fn law_releases_are_asked_for_where_named(
    desired: Desired,
    environment: Option<Seq<char>>,
    project_id: Option<Seq<char>>,
    limit: Option<usize>,
)
    ensures
        ({
            let asked = deployments_asked(desired, environment, project_id, limit);
            &&& asked.order == Field::CreatedAt
            &&& asked.descending
            &&& asked.limit == limit
            &&& environment is None && project_id is None ==> asked.equal.len() == 0
            &&& forall|value: Seq<char>|
                #![trigger asked.equal.contains((Field::ProjectId, value))]
                asked.equal.contains((Field::ProjectId, value)) <==> project_id == Some(value)
            &&& environment is None ==> forall|value: Seq<char>|
                !#[trigger] asked.equal.contains((Field::EnvironmentId, value))
            &&& environment matches Some(name) ==> match desired.environment_named(name) {
                Some(record) => asked.equal.contains((Field::EnvironmentId, record.id@)),
                None => asked.equal.contains((Field::EnvironmentId, name)),
            }
        }),
{
    let asked = deployments_asked(desired, environment, project_id, limit);
    match environment {
        Some(name) => {
            assert(asked.equal[0].0 == Field::EnvironmentId);
            assert(asked.equal.contains(asked.equal[0]));
        },
        None => {},
    }
    match project_id {
        Some(id) => {
            assert(asked.equal[asked.equal.len() - 1] == (Field::ProjectId, id));
        },
        None => {},
    }
}

/// The evidence of a project in an environment is asked for by both, newest
/// first and as much as is wanted.
pub proof fn law_evidence_is_asked_for_in_its_place(
    r: Result<ListQuery, EnvironmentError>,
    record: Stored<EnvironmentProjectRecord>,
    order: Field,
    limit: usize,
)
    requires
        is_placed(r, Ok(record), order, limit),
    ensures
        r matches Ok(query) && query.descending && query.limit == Some(limit) && query.order
            == order && query.equal@.len() == 2 && query.equal@[0].0 == Field::ProjectId
            && query.equal@[0].1@ == record.value.project_id@ && query.equal@[1].0
            == Field::EnvironmentId && query.equal@[1].1@ == record.value.environment_id@,
{
    let query = r->Ok_0;
    let wanted = placed(record.value, order, limit);
    assert(query@.equal == wanted.equal);
    assert(query@.equal.len() == 2);
    assert(query@.equal[0] == (query.equal@[0].0, query.equal@[0].1@));
    assert(query@.equal[1] == (query.equal@[1].0, query.equal@[1].1@));
    assert(wanted.equal[0] == (Field::ProjectId, record.value.project_id@));
    assert(wanted.equal[1] == (Field::EnvironmentId, record.value.environment_id@));
}

} // verus!
