//! Names of things that are made of other names.

use vstd::prelude::*;

verus! {

/// The name of an endpoint: the environment, project, workload and port it
/// belongs to. Control state names endpoints too, in the assignments it
/// keeps; that it writes them in this form is assumed, and nothing here
/// shows it.
pub open spec fn endpoint_text(
    environment: Seq<char>,
    project: Seq<char>,
    workload: Seq<char>,
    port: Seq<char>,
) -> Seq<char> {
    environment + "/"@ + project + "/"@ + workload + "/"@ + port
}

pub fn endpoint(environment: &str, project: &str, workload: &str, port: &str) -> (r: String)
    ensures
        r@ == endpoint_text(environment@, project@, workload@, port@),
        r@ == environment@ + "/"@ + project@ + "/"@ + workload@ + "/"@ + port@,
{
    let mut r = environment.to_owned();
    r.append("/");
    r.append(project);
    r.append("/");
    r.append(workload);
    r.append("/");
    r.append(port);
    r
}

/// A workload as people read it.
pub open spec fn label_text(environment: Seq<char>, project: Seq<char>, workload: Seq<char>) -> Seq<
    char,
> {
    environment + "/"@ + project + "/"@ + workload
}

pub fn label(environment: &str, project: &str, workload: &str) -> (r: String)
    ensures
        r@ == label_text(environment@, project@, workload@),
        r@ == environment@ + "/"@ + project@ + "/"@ + workload@,
{
    let mut r = environment.to_owned();
    r.append("/");
    r.append(project);
    r.append("/");
    r.append(workload);
    r
}

// ---- Laws -------------------------------------------------------------------

/// Whether a name holds no slash.
pub open spec fn is_one_part(name: Seq<char>) -> bool {
    forall|i: int| 0 <= i < name.len() ==> (#[trigger] name[i]) != '/'
}

/// What stands before the first slash of two equal texts is equal, and so is
/// what stands after it.
proof fn lemma_first_parts(a: Seq<char>, rest: Seq<char>, b: Seq<char>, other: Seq<char>)
    requires
        is_one_part(a),
        is_one_part(b),
        a + "/"@ + rest == b + "/"@ + other,
    ensures
        a == b,
        rest == other,
{
    reveal_strlit("/");
    let left = a + "/"@ + rest;
    let right = b + "/"@ + other;
    assert(left[a.len() as int] == '/');
    assert(right[b.len() as int] == '/');
    if a.len() < b.len() {
        assert(right[a.len() as int] == b[a.len() as int]);
    }
    if b.len() < a.len() {
        assert(left[b.len() as int] == a[b.len() as int]);
    }
    assert(left.take(a.len() as int) =~= a);
    assert(right.take(b.len() as int) =~= b);
    assert(left.skip(a.len() as int + 1) =~= rest);
    assert(right.skip(b.len() as int + 1) =~= other);
}

/// Endpoints have one name only where they are one: of one environment,
/// project, workload and port. No name holds a slash.
pub proof fn law_endpoints_are_told_apart(
    environment: Seq<char>,
    project: Seq<char>,
    workload: Seq<char>,
    port: Seq<char>,
    other_environment: Seq<char>,
    other_project: Seq<char>,
    other_workload: Seq<char>,
    other_port: Seq<char>,
)
    requires
        is_one_part(environment),
        is_one_part(project),
        is_one_part(workload),
        is_one_part(other_environment),
        is_one_part(other_project),
        is_one_part(other_workload),
    ensures
        endpoint_text(environment, project, workload, port) == endpoint_text(
            other_environment,
            other_project,
            other_workload,
            other_port,
        ) <==> environment == other_environment && project == other_project && workload
            == other_workload && port == other_port,
{
    let left = endpoint_text(environment, project, workload, port);
    let right = endpoint_text(other_environment, other_project, other_workload, other_port);
    let tail = workload + "/"@ + port;
    let other_tail = other_workload + "/"@ + other_port;
    let rest = project + "/"@ + tail;
    let other_rest = other_project + "/"@ + other_tail;
    assert(left =~= environment + "/"@ + rest);
    assert(right =~= other_environment + "/"@ + other_rest);
    if left == right {
        lemma_first_parts(environment, rest, other_environment, other_rest);
        lemma_first_parts(project, tail, other_project, other_tail);
        lemma_first_parts(workload, port, other_workload, other_port);
    }
}

} // verus!
