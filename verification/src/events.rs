//! Lifecycle events: who they are about, and the changes that record them.

use vstd::prelude::*;

use crate::dataplane::DataPlaneInfo;
use crate::model::{PortBinding, ReadinessCheck};
use crate::results::{
    moved_texts, readiness_texts, MovedEndpoint, MovedText, ReadinessResults, ReadinessText,
};
use crate::table::{key1, Table};
use crate::text::{copy_option, opt_text, texts};
use crate::upgrade::{UpgradeRecord, UpgradeText};

verus! {

/// What happened.
#[derive(Debug, Clone, Copy, PartialEq, Eq, Structural)]
pub enum EventKind {
    CertificateFailed,
    CertificateIssued,
    CertificateRenewed,
    ControllerDegraded,
    ControllerStopped,
    CredentialBootstrapped,
    CredentialCreated,
    CredentialRevoked,
    CredentialRotated,
    DaemonStarted,
    DaemonStopped,
    DataPlaneRestarted,
    DeploymentActivated,
    DeploymentAdmitted,
    DeploymentCompleted,
    DeploymentDraining,
    DeploymentFailed,
    DeploymentPlaced,
    DeploymentPromoted,
    DeploymentReady,
    DeploymentRolledBack,
    DeploymentStarted,
    DeploymentSwitched,
    DnsApplied,
    DnsDrifted,
    DnsFailed,
    DomainCreated,
    DomainRemoved,
    EndpointUnavailable,
    EnvironmentCreated,
    EnvironmentDestroyed,
    EnvironmentRestarted,
    EnvironmentStarted,
    EnvironmentStopped,
    FeltDbRecovered,
    FeltDbUnavailable,
    InstanceReady,
    InstanceStopped,
    ProjectAdded,
    ProjectRegistered,
    ProjectRemoved,
    ProjectRestarted,
    ProjectRevisionCreated,
    ProjectStarted,
    ProjectStopped,
    ReconcileFinished,
    ReconcileStarted,
    RouteSwitched,
    ServiceDenied,
    ServiceFailed,
    ServiceHealthy,
    ServiceStarted,
    ServiceStopped,
    ServiceUnhealthy,
    SharedServiceRegistered,
    SharedServiceRemoved,
    TaskCompleted,
    TaskDenied,
    TaskFailed,
    UpgradeCompleted,
    UpgradeFailed,
    UpgradeReady,
    UpgradeRolledBack,
    UpgradeStarted,
    WorkloadDiscovered,
    WorkloadOrphaned,
    WorkloadReattached,
    WorkloadStarted,
    WorkloadStopped,
}

/// (environment, project, workload) names.
pub type Key = (String, String, String);

pub fn copy_key(key: &Key) -> (r: Key)
    ensures
        r == *key,
{
    (key.0.clone(), key.1.clone(), key.2.clone())
}

/// Who a lifecycle event is about.
#[derive(Debug)]
pub struct Scope {
    pub environment: Option<String>,
    pub project: Option<String>,
    pub workload: Option<String>,
    pub deployment_id: Option<String>,
    pub execution_id: Option<String>,
}

/// A scope as plain text.
pub ghost struct ScopeText {
    pub environment: Option<Seq<char>>,
    pub project: Option<Seq<char>>,
    pub workload: Option<Seq<char>>,
    pub deployment_id: Option<Seq<char>>,
    pub execution_id: Option<Seq<char>>,
}

impl View for Scope {
    type V = ScopeText;

    open spec fn view(&self) -> ScopeText {
        ScopeText {
            environment: opt_text(self.environment),
            project: opt_text(self.project),
            workload: opt_text(self.workload),
            deployment_id: opt_text(self.deployment_id),
            execution_id: opt_text(self.execution_id),
        }
    }
}

pub open spec fn no_scope() -> ScopeText {
    ScopeText { environment: None, project: None, workload: None, deployment_id: None, execution_id: None }
}

pub open spec fn environment_scope(environment: Seq<char>) -> ScopeText {
    ScopeText { environment: Some(environment), ..no_scope() }
}

pub open spec fn project_scope(environment: Seq<char>, project: Seq<char>) -> ScopeText {
    ScopeText { project: Some(project), ..environment_scope(environment) }
}

pub open spec fn workload_scope(
    environment: Seq<char>,
    project: Seq<char>,
    workload: Seq<char>,
) -> ScopeText {
    ScopeText { workload: Some(workload), ..project_scope(environment, project) }
}

impl Default for Scope {
    /// Nobody in particular.
    fn default() -> (r: Self)
        ensures
            r@ == no_scope(),
    {
        Scope {
            environment: None,
            project: None,
            workload: None,
            deployment_id: None,
            execution_id: None,
        }
    }
}

impl Scope {
    pub fn environment(environment: &str) -> (r: Self)
        ensures
            r@ == environment_scope(environment@),
    {
        Scope {
            environment: Some(environment.to_owned()),
            project: None,
            workload: None,
            deployment_id: None,
            execution_id: None,
        }
    }

    pub fn project(environment: &str, project: &str) -> (r: Self)
        ensures
            r@ == project_scope(environment@, project@),
    {
        let mut scope = Scope::environment(environment);
        scope.project = Some(project.to_owned());
        scope
    }

    pub fn workload(key: &Key) -> (r: Self)
        ensures
            r@ == workload_scope(key.0@, key.1@, key.2@),
    {
        let mut scope = Scope::project(&key.0, &key.1);
        scope.workload = Some(key.2.clone());
        scope
    }

    /// The same scope, about one deployment.
    pub fn deployment(self, deployment_id: &str) -> (r: Self)
        ensures
            r@ == (ScopeText { deployment_id: Some(deployment_id@), ..self@ }),
    {
        let mut scope = self;
        scope.deployment_id = Some(deployment_id.to_owned());
        scope
    }

    /// The same scope, about one execution.
    pub fn execution(self, execution_id: &str) -> (r: Self)
        ensures
            r@ == (ScopeText { execution_id: Some(execution_id@), ..self@ }),
    {
        let mut scope = self;
        scope.execution_id = Some(execution_id.to_owned());
        scope
    }
}

/// One value of an event's data.
#[derive(Debug)]
pub enum Datum {
    Null,
    Text(String),
    Texts(Vec<String>),
    /// Texts of which some are not known.
    Options(Vec<Option<String>>),
    Flag(bool),
    Number(u64),
    Integer(i64),
    /// A moment, in nanoseconds.
    Moment(i64),
    Check(ReadinessCheck),
    Ports(Vec<PortBinding>),
    Readiness(ReadinessResults),
    Endpoints(Vec<MovedEndpoint>),
    Plane(Option<DataPlaneInfo>),
    Upgrade(UpgradeRecord),
    /// A JSON document.
    Json(String),
}

pub ghost enum DatumText {
    Null,
    Text(Seq<char>),
    Texts(Seq<Seq<char>>),
    Options(Seq<Option<Seq<char>>>),
    Flag(bool),
    Number(int),
    Integer(int),
    Moment(i64),
    Check(ReadinessCheck),
    Ports(Seq<PortBinding>),
    Readiness(Map<Seq<Seq<char>>, ReadinessText>),
    Endpoints(Seq<MovedText>),
    Plane(Option<DataPlaneInfo>),
    Upgrade(UpgradeText),
    Json(Seq<char>),
}

pub open spec fn opt_texts(values: Seq<Option<String>>) -> Seq<Option<Seq<char>>> {
    values.map_values(|value: Option<String>| opt_text(value))
}

impl View for Datum {
    type V = DatumText;

    open spec fn view(&self) -> DatumText {
        match *self {
            Datum::Null => DatumText::Null,
            Datum::Text(text) => DatumText::Text(text@),
            Datum::Texts(list) => DatumText::Texts(texts(list@)),
            Datum::Options(values) => DatumText::Options(opt_texts(values@)),
            Datum::Flag(flag) => DatumText::Flag(flag),
            Datum::Number(number) => DatumText::Number(number as int),
            Datum::Integer(number) => DatumText::Integer(number as int),
            Datum::Moment(at) => DatumText::Moment(at),
            Datum::Check(check) => DatumText::Check(check),
            Datum::Ports(ports) => DatumText::Ports(ports@),
            Datum::Readiness(results) => DatumText::Readiness(readiness_texts(results@)),
            Datum::Endpoints(moved) => DatumText::Endpoints(moved_texts(moved@)),
            Datum::Plane(info) => DatumText::Plane(info),
            Datum::Upgrade(record) => DatumText::Upgrade(record@),
            Datum::Json(text) => DatumText::Json(text@),
        }
    }
}

/// A text that may be missing, as a value of an event's data.
pub open spec fn datum_option(value: Option<Seq<char>>) -> DatumText {
    match value {
        Some(text) => DatumText::Text(text),
        None => DatumText::Null,
    }
}

/// A moment that may be missing, as a value of an event's data.
pub open spec fn datum_moment(at: Option<i64>) -> DatumText {
    match at {
        Some(at) => DatumText::Moment(at),
        None => DatumText::Null,
    }
}

impl Datum {
    pub fn moment(at: Option<i64>) -> (r: Self)
        ensures
            r@ == datum_moment(at),
    {
        match at {
            Some(at) => Datum::Moment(at),
            None => Datum::Null,
        }
    }

    pub fn text(text: &str) -> (r: Self)
        ensures
            r@ == DatumText::Text(text@),
    {
        Datum::Text(text.to_owned())
    }

    pub fn option(value: &Option<String>) -> (r: Self)
        ensures
            r@ == datum_option(opt_text(*value)),
    {
        match value {
            Some(text) => Datum::Text(text.clone()),
            None => Datum::Null,
        }
    }
}

/// A named value of an event's data.
#[derive(Debug)]
pub struct Fact {
    pub name: String,
    pub value: Datum,
}

pub ghost struct FactText {
    pub name: Seq<char>,
    pub value: DatumText,
}

impl View for Fact {
    type V = FactText;

    open spec fn view(&self) -> FactText {
        FactText { name: self.name@, value: self.value@ }
    }
}

/// A named value.
pub open spec fn fact(name: Seq<char>, value: DatumText) -> FactText {
    FactText { name, value }
}

/// A named text.
pub open spec fn text_fact(name: Seq<char>, text: Seq<char>) -> FactText {
    FactText { name, value: DatumText::Text(text) }
}

pub open spec fn fact_texts(facts: Seq<Fact>) -> Seq<FactText> {
    facts.map_values(|fact: Fact| fact@)
}

/// What an event carries besides its message.
pub enum EventData {
    Null,
    Object(Table<String, Datum>),
    Other(String),
}

/// Who asked for a change.
#[derive(Debug)]
pub struct RequestContext {
    pub request_id: String,
    pub operator_id: String,
    pub credential_id: Option<String>,
}

impl Clone for RequestContext {
    fn clone(&self) -> (r: Self)
        ensures
            r == *self,
    {
        RequestContext {
            request_id: self.request_id.clone(),
            operator_id: self.operator_id.clone(),
            credential_id: copy_option(&self.credential_id),
        }
    }
}

/// One lifecycle event.
pub struct EventRecord {
    pub sequence: u64,
    pub kind: EventKind,
    pub at: i64,
    pub scope: Scope,
    pub message: String,
    pub data: EventData,
}

/// An event to record: what happened, to whom, in words, and the facts of
/// it.
#[derive(Debug)]
pub struct Notice {
    pub kind: EventKind,
    pub scope: Scope,
    pub message: String,
    pub facts: Vec<Fact>,
}

impl Notice {
    /// Whether the notice reports this, about this, in these words, with
    /// these facts.
    pub open spec fn says(
        self,
        kind: EventKind,
        scope: ScopeText,
        message: Seq<char>,
        facts: Seq<FactText>,
    ) -> bool {
        &&& self.kind == kind
        &&& self.scope@ == scope
        &&& self.message@ == message
        &&& fact_texts(self.facts@) =~= facts
    }

    pub fn new(kind: EventKind, scope: Scope, message: String) -> (r: Self)
        ensures
            r.says(kind, scope@, message@, seq![]),
    {
        let facts: Vec<Fact> = Vec::new();
        proof {
            assert(fact_texts(facts@) =~= seq![]);
        }
        Notice { kind, scope, message, facts }
    }

    /// The same notice, with one more fact.
    pub fn with(self, name: &str, value: Datum) -> (r: Self)
        ensures
            r.says(
                self.kind,
                self.scope@,
                self.message@,
                fact_texts(self.facts@).push(fact(name@, value@)),
            ),
    {
        let mut r = self;
        let ghost before = r.facts@;
        let added = Fact { name: name.to_owned(), value };
        r.facts.push(added);
        proof {
            assert(fact_texts(r.facts@) =~= fact_texts(before).push(added@));
        }
        r
    }
}

/// The data that the first `n` facts make: each under its name, a later one
/// in place of an earlier one of the same name.
pub open spec fn data_upto(facts: Seq<Fact>, n: nat) -> Map<Seq<Seq<char>>, Datum>
    decreases n,
{
    if n == 0 {
        Map::empty()
    } else {
        data_upto(facts, (n - 1) as nat).insert(key1(facts[n - 1].name@), facts[n - 1].value)
    }
}

/// The data of an event with these facts.
pub fn object(facts: Vec<Fact>) -> (r: EventData)
    ensures
        r matches EventData::Object(data) && data@ == data_upto(facts@, facts@.len()),
{
    let ghost all = facts@;
    let ghost mut taken: nat = 0;
    let mut rest = facts;
    let mut data: Table<String, Datum> = Table::new();
    while rest.len() > 0
        invariant
            taken <= all.len(),
            rest@ == all.skip(taken as int),
            data@ == data_upto(all, taken),
        decreases rest@.len(),
    {
        let next = rest.remove(0);
        proof {
            assert(next == all[taken as int]);
            taken = taken + 1;
            assert(rest@ =~= all.skip(taken as int));
        }
        data.insert(next.name, next.value);
    }
    EventData::Object(data)
}

/// Whether a value is the given text.
pub open spec fn is_text(datum: Datum, text: Seq<char>) -> bool {
    datum matches Datum::Text(held) && held@ == text
}

/// Whether `after` is `before` with `name` added, holding `text`, unless
/// `before` already had it.
pub open spec fn defaulted(
    before: Map<Seq<Seq<char>>, Datum>,
    after: Map<Seq<Seq<char>>, Datum>,
    name: Seq<char>,
    text: Seq<char>,
) -> bool {
    if before.contains_key(key1(name)) {
        after == before
    } else {
        &&& after.contains_key(key1(name))
        &&& is_text(after[key1(name)], text)
        &&& after.remove(key1(name)) == before
    }
}

fn default_text(data: &mut Table<String, Datum>, name: &str, text: &str)
    ensures
        defaulted(old(data)@, final(data)@, name@, text@),
{
    let ghost before = data@;
    if data.at(name).is_none() {
        data.insert(name.to_owned(), Datum::Text(text.to_owned()));
        proof {
            assert(data@.remove(key1(name@)) =~= before);
        }
    }
}

/// What an event's data becomes when a request caused it: an object also
/// says which request, operator and credential, unless it already did; data
/// that is absent becomes an object of the request and operator, or, with no
/// request, an empty object.
pub open spec fn attributed(
    before: EventData,
    request: Option<RequestContext>,
    after: EventData,
) -> bool {
    match (request, before) {
        (Some(request), EventData::Object(map)) => {
            &&& after matches EventData::Object(result)
            &&& exists|first: Map<Seq<Seq<char>>, Datum>, second: Map<Seq<Seq<char>>, Datum>|
                {
                    &&& #[trigger] defaulted(map@, first, "request_id"@, request.request_id@)
                    &&& #[trigger] defaulted(first, second, "operator_id"@, request.operator_id@)
                    &&& match request.credential_id {
                        Some(credential) => defaulted(
                            second,
                            result@,
                            "credential_id"@,
                            credential@,
                        ),
                        None => result@ == second,
                    }
                }
        },
        (Some(request), EventData::Null) => {
            &&& after matches EventData::Object(result)
            &&& exists|first: Map<Seq<Seq<char>>, Datum>|
                {
                    &&& #[trigger] defaulted(
                        Map::empty(),
                        first,
                        "request_id"@,
                        request.request_id@,
                    )
                    &&& defaulted(first, result@, "operator_id"@, request.operator_id@)
                }
        },
        (None, EventData::Null) => after matches EventData::Object(result) && result@
            == Map::<Seq<Seq<char>>, Datum>::empty(),
        _ => after == before,
    }
}

/// Attribute an event's data to the request that caused it.
pub fn attribute(data: EventData, request: &Option<RequestContext>) -> (r: EventData)
    ensures
        attributed(data, *request, r),
{
    match (request, data) {
        (Some(request), EventData::Object(map)) => {
            let mut map = map;
            let ghost start = map@;
            default_text(&mut map, "request_id", &request.request_id);
            let ghost first = map@;
            default_text(&mut map, "operator_id", &request.operator_id);
            let ghost second = map@;
            if let Some(credential) = &request.credential_id {
                default_text(&mut map, "credential_id", credential);
            }
            proof {
                assert(defaulted(start, first, "request_id"@, request.request_id@));
                assert(defaulted(first, second, "operator_id"@, request.operator_id@));
            }
            EventData::Object(map)
        },
        (Some(request), EventData::Null) => {
            let mut map: Table<String, Datum> = Table::new();
            default_text(&mut map, "request_id", &request.request_id);
            let ghost first = map@;
            default_text(&mut map, "operator_id", &request.operator_id);
            proof {
                assert(defaulted(Map::empty(), first, "request_id"@, request.request_id@));
            }
            EventData::Object(map)
        },
        (None, EventData::Null) => EventData::Object(Table::new()),
        (_, data) => data,
    }
}

/// The events a change records, in the order they were added.
pub struct Change {
    pub events: Vec<EventRecord>,
}

impl Change {
    pub fn new() -> (r: Self)
        ensures
            r.events@.len() == 0,
    {
        Change { events: Vec::new() }
    }
}

/// Numbers events: each gets the next sequence number.
pub struct Sequence {
    pub last: u64,
}

impl Sequence {
    /// Add an event to a change. It is numbered after every event numbered
    /// before it.
    pub fn event(
        &mut self,
        change: &mut Change,
        kind: EventKind,
        scope: Scope,
        message: String,
        data: EventData,
        request: &Option<RequestContext>,
        at: i64,
    )
        requires
            old(self).last < u64::MAX,
        ensures
            final(self).last == old(self).last + 1,
            final(change).events@.len() == old(change).events@.len() + 1,
            final(change).events@.drop_last() == old(change).events@,
            final(change).events@.last().sequence == final(self).last,
            final(change).events@.last().kind == kind,
            final(change).events@.last().at == at,
            final(change).events@.last().scope == scope,
            final(change).events@.last().message == message,
            attributed(data, *request, final(change).events@.last().data),
    {
        self.last = self.last + 1;
        let ghost before = change.events@;
        let record = EventRecord {
            sequence: self.last,
            kind,
            at,
            scope,
            message,
            data: attribute(data, request),
        };
        change.events.push(record);
        proof {
            assert(change.events@.drop_last() =~= before);
        }
    }

    /// Add the event a notice reports to a change, with its facts as data.
    pub fn report(
        &mut self,
        change: &mut Change,
        notice: Notice,
        request: &Option<RequestContext>,
        at: i64,
    )
        requires
            old(self).last < u64::MAX,
        ensures
            final(self).last == old(self).last + 1,
            final(change).events@.len() == old(change).events@.len() + 1,
            final(change).events@.drop_last() == old(change).events@,
            final(change).events@.last().sequence == final(self).last,
            final(change).events@.last().kind == notice.kind,
            final(change).events@.last().at == at,
            final(change).events@.last().scope == notice.scope,
            final(change).events@.last().message == notice.message,
            exists|data: Table<String, Datum>|
                #![trigger data@]
                data@ == data_upto(notice.facts@, notice.facts@.len()) && attributed(
                    EventData::Object(data),
                    *request,
                    final(change).events@.last().data,
                ),
    {
        let data = object(notice.facts);
        self.event(change, notice.kind, notice.scope, notice.message, data, request, at)
    }

    /// Continue after a sequence number already in use.
    pub fn continue_after(&mut self, sequence: u64)
        ensures
            final(self).last == (if old(self).last < sequence {
                sequence
            } else {
                old(self).last
            }),
    {
        if self.last < sequence {
            self.last = sequence;
        }
    }
}

/// Whether events are numbered in strictly ascending order, all after
/// `after` and none after `last`.
pub open spec fn numbered(events: Seq<EventRecord>, after: u64, last: u64) -> bool {
    &&& forall|i: int, j: int|
        0 <= i < j < events.len() ==> (#[trigger] events[i]).sequence < (#[trigger] events[j]).sequence
    &&& forall|i: int|
        0 <= i < events.len() ==> after < (#[trigger] events[i]).sequence <= last
}

/// Adding an event to events numbered up to the sequence keeps them
/// numbered: no number is ever used twice, and later events have larger
/// numbers.
pub proof fn law_events_are_numbered(
    before: Seq<EventRecord>,
    after: Seq<EventRecord>,
    start: u64,
    last: u64,
    next: u64,
)
    requires
        start <= last,
        numbered(before, start, last),
        next == last + 1,
        after.len() == before.len() + 1,
        after.drop_last() == before,
        after.last().sequence == next,
    ensures
        numbered(after, start, next),
{
    assert forall|i: int| 0 <= i < before.len() implies after[i] == before[i] by {
        assert(after.drop_last()[i] == after[i]);
    }
}

/// An event that a request caused says which request and which operator,
/// and loses nothing that it said itself.
pub proof fn law_events_name_their_request(
    before: Table<String, Datum>,
    request: RequestContext,
    after: Table<String, Datum>,
    name: Seq<Seq<char>>,
)
    requires
        attributed(EventData::Object(before), Some(request), EventData::Object(after)),
    ensures
        before@.contains_key(name) ==> after@.contains_key(name) && after@[name] == before@[name],
        after@.contains_key(key1("request_id"@)),
        after@.contains_key(key1("operator_id"@)),
        !before@.contains_key(key1("request_id"@)) ==> is_text(
            after@[key1("request_id"@)],
            request.request_id@,
        ),
        !before@.contains_key(key1("operator_id"@)) ==> is_text(
            after@[key1("operator_id"@)],
            request.operator_id@,
        ),
        request.credential_id matches Some(credential) ==> after@.contains_key(
            key1("credential_id"@),
        ) && (!before@.contains_key(key1("credential_id"@)) ==> is_text(
            after@[key1("credential_id"@)],
            credential@,
        )),
{
    reveal_strlit("request_id");
    reveal_strlit("operator_id");
    reveal_strlit("credential_id");
    assert(key1("request_id"@)[0] == "request_id"@);
    assert(key1("operator_id"@)[0] == "operator_id"@);
    assert(key1("credential_id"@)[0] == "credential_id"@);
    let (first, second) = choose|
        first: Map<Seq<Seq<char>>, Datum>,
        second: Map<Seq<Seq<char>>, Datum>,
    |
        {
            &&& #[trigger] defaulted(before@, first, "request_id"@, request.request_id@)
            &&& #[trigger] defaulted(first, second, "operator_id"@, request.operator_id@)
            &&& match request.credential_id {
                Some(credential) => defaulted(second, after@, "credential_id"@, credential@),
                None => after@ == second,
            }
        };
    let request_key = key1("request_id"@);
    let operator_key = key1("operator_id"@);
    assert("request_id"@ != "operator_id"@);
    lemma_defaulted_keeps(before@, first, "request_id"@, request.request_id@, name);
    lemma_defaulted_keeps(first, second, "operator_id"@, request.operator_id@, name);
    lemma_defaulted_keeps(first, second, "operator_id"@, request.operator_id@, request_key);
    lemma_defaulted_keeps(before@, first, "request_id"@, request.request_id@, operator_key);
    lemma_defaulted_keeps(
        before@,
        first,
        "request_id"@,
        request.request_id@,
        key1("credential_id"@),
    );
    lemma_defaulted_keeps(
        first,
        second,
        "operator_id"@,
        request.operator_id@,
        key1("credential_id"@),
    );
    match request.credential_id {
        Some(credential) => {
            lemma_defaulted_keeps(second, after@, "credential_id"@, credential@, name);
            lemma_defaulted_keeps(second, after@, "credential_id"@, credential@, request_key);
            lemma_defaulted_keeps(second, after@, "credential_id"@, credential@, operator_key);
        },
        None => {},
    }
    assert("credential_id"@.len() != "operator_id"@.len());
    assert("request_id"@.len() != "operator_id"@.len());
}

/// Defaulting a value keeps every other one as it is.
proof fn lemma_defaulted_keeps(
    before: Map<Seq<Seq<char>>, Datum>,
    after: Map<Seq<Seq<char>>, Datum>,
    name: Seq<char>,
    text: Seq<char>,
    other: Seq<Seq<char>>,
)
    requires
        defaulted(before, after, name, text),
    ensures
        before.contains_key(other) ==> after.contains_key(other) && after[other] == before[other],
        other != key1(name) ==> after.contains_key(other) == before.contains_key(other),
        after.contains_key(key1(name)),
        !before.contains_key(key1(name)) ==> is_text(after[key1(name)], text),
{
    if !before.contains_key(key1(name)) {
        if other != key1(name) {
            assert(after.remove(key1(name)).contains_key(other) == after.contains_key(other));
            assert(after.contains_key(other) ==> after.remove(key1(name))[other] == after[other]);
        }
    }
}

/// An event's data holds every fact of its notice by name, and nothing
/// else; of two facts of one name it holds the later.
pub proof fn law_events_hold_their_facts(facts: Seq<Fact>, n: nat, name: Seq<char>)
    requires
        n <= facts.len(),
    ensures
        data_upto(facts, n).contains_key(seq![name]) <==> exists|i: int|
            0 <= i < n && (#[trigger] facts[i]).name@ == name,
        forall|i: int|
            (0 <= i < n && (#[trigger] facts[i]).name@ == name && (forall|j: int|
                i < j < n ==> (#[trigger] facts[j]).name@ != name)) ==> data_upto(
                facts,
                n,
            )[seq![name]] == facts[i].value,
    decreases n,
{
    assert(key1(name) =~= seq![name]);
    assert(key1(name)[0] == name);
    if n > 0 {
        law_events_hold_their_facts(facts, (n - 1) as nat, name);
        let last = facts[n - 1];
        assert(key1(last.name@)[0] == last.name@);
        let before = data_upto(facts, (n - 1) as nat);
        let after = data_upto(facts, n);
        if last.name@ == name {
            assert(after.contains_key(seq![name]));
        } else {
            assert(after.contains_key(seq![name]) == before.contains_key(seq![name]));
            if before.contains_key(seq![name]) {
                let i = choose|i: int| 0 <= i < n - 1 && (#[trigger] facts[i]).name@ == name;
                assert(0 <= i < n && facts[i].name@ == name);
            }
            assert forall|i: int|
                (0 <= i < n && (#[trigger] facts[i]).name@ == name && (forall|j: int|
                    i < j < n ==> (#[trigger] facts[j]).name@ != name)) implies after[seq![name]]
                == facts[i].value by {
                assert(i < n - 1);
            }
        }
    }
}

/// What an event is about is named at every level: an environment alone, a
/// project in it, or a workload in that.
pub proof fn law_scopes_name_every_level(
    environment: Seq<char>,
    project: Seq<char>,
    workload: Seq<char>,
)
    ensures
        no_scope().environment is None && no_scope().project is None && no_scope().workload is None
            && no_scope().deployment_id is None && no_scope().execution_id is None,
        environment_scope(environment) == (ScopeText {
            environment: Some(environment),
            project: None,
            workload: None,
            deployment_id: None,
            execution_id: None,
        }),
        project_scope(environment, project) == (ScopeText {
            environment: Some(environment),
            project: Some(project),
            workload: None,
            deployment_id: None,
            execution_id: None,
        }),
        workload_scope(environment, project, workload) == (ScopeText {
            environment: Some(environment),
            project: Some(project),
            workload: Some(workload),
            deployment_id: None,
            execution_id: None,
        }),
{
}

/// A notice says one thing: its kind, whom it is about, its message and its
/// facts are all of what it says.
pub proof fn law_notices_say_one_thing(
    notice: Notice,
    kind: EventKind,
    scope: ScopeText,
    message: Seq<char>,
    facts: Seq<FactText>,
)
    ensures
        notice.says(kind, scope, message, facts) <==> notice.kind == kind && notice.scope@ == scope
            && notice.message@ == message && notice.facts@.len() == facts.len() && forall|i: int|
            0 <= i < facts.len() ==> (#[trigger] notice.facts@[i]).name@ == facts[i].name
                && notice.facts@[i].value@ == facts[i].value,
{
    let held = fact_texts(notice.facts@);
    assert forall|i: int| 0 <= i < notice.facts@.len() implies held[i].name
        == (#[trigger] notice.facts@[i]).name@ && held[i].value == notice.facts@[i].value@ by {}
    if notice.facts@.len() == facts.len() && forall|i: int|
        0 <= i < facts.len() ==> (#[trigger] notice.facts@[i]).name@ == facts[i].name
            && notice.facts@[i].value@ == facts[i].value {
        assert forall|i: int| 0 <= i < facts.len() implies held[i] == facts[i] by {
            assert(notice.facts@[i].name@ == facts[i].name);
        }
        assert(held =~= facts);
    }
}

} // verus!
