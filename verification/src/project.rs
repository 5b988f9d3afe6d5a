use vstd::prelude::*;
use vstd::string::StringExecFns;

use crate::source_ids::{
    contains_separator, is_numbered_id_error, is_scoping_resource, lemma_numbered_text_round_trip,
    member_resource_message, numbered_id_outcome, scoped_text,
    source_scoped_geometry_definition_id_string, source_scoped_geometry_instance_id_string,
    source_scoped_semantic_element_id_string, validate_project_member_resource, SourceScopedGeometryDefinitionId,
    SourceScopedGeometryInstanceId,
};
use crate::classes::{
    render_class_for_name, unknown_render_class_message, visible_by_default,
    web_default_visibility_for_class_name,
};
use crate::text::decimal_text;
use crate::text::str_eq;
use crate::text_set::TextSet;

verus! {

/// The instances one member resource is asked for.
#[derive(Clone, Debug, PartialEq, Eq)]
pub struct WebGeometryInstanceBatchRequest {
    pub resource: String,
    pub instance_ids: Vec<u64>,
}

/// The definitions one member resource is asked for.
#[derive(Clone, Debug, PartialEq, Eq)]
pub struct WebGeometryDefinitionBatchRequest {
    pub resource: String,
    pub definition_ids: Vec<u64>,
}

/// The ids a geometry batch was asked for or returned, with their count.
#[derive(Clone, Debug, PartialEq, Eq)]
pub struct WebGeometryBatchMetadata {
    pub id_field: String,
    pub ids: Vec<u64>,
    pub count: usize,
}

impl WebGeometryBatchMetadata {
    pub fn new(id_field: &str, ids: Vec<u64>) -> (metadata: WebGeometryBatchMetadata)
        ensures
            metadata.id_field@ == id_field@,
            metadata.ids@ == ids@,
            metadata.count == ids@.len(),
    {
        let count = ids.len();
        WebGeometryBatchMetadata { id_field: String::from_str(id_field), ids, count }
    }
}

/// Requests grouped by member resource: each resource with its ids, in
/// order of first appearance.
pub type RequestGroups = Seq<(Seq<char>, Seq<u64>)>;

pub open spec fn instance_groups(requests: Seq<WebGeometryInstanceBatchRequest>) -> RequestGroups {
    requests.map_values(|r: WebGeometryInstanceBatchRequest| (r.resource@, r.instance_ids@))
}

pub open spec fn definition_groups(
    requests: Seq<WebGeometryDefinitionBatchRequest>,
) -> RequestGroups {
    requests.map_values(|r: WebGeometryDefinitionBatchRequest| (r.resource@, r.definition_ids@))
}

/// The first group of `resource` is at `i`.
pub open spec fn first_group(groups: RequestGroups, resource: Seq<char>, i: int) -> bool {
    &&& 0 <= i < groups.len()
    &&& groups[i].0 == resource
    &&& forall|j: int| 0 <= j < i ==> groups[j].0 != resource
}

/// `groups` after adding `id` for `resource`: appended to the first group of
/// that resource, or to a new group at the end.
pub open spec fn grouped(groups: RequestGroups, resource: Seq<char>, id: u64) -> RequestGroups {
    if exists|i: int| 0 <= i < groups.len() && groups[i].0 == resource {
        let i = choose|i: int| first_group(groups, resource, i);
        groups.update(i, (resource, groups[i].1.push(id)))
    } else {
        groups.push((resource, seq![id]))
    }
}

proof fn lemma_first_group_unique(groups: RequestGroups, resource: Seq<char>, i: int, j: int)
    requires
        first_group(groups, resource, i),
        first_group(groups, resource, j),
    ensures
        i == j,
{
    if i < j {
        assert(groups[i].0 == resource);
    } else if j < i {
        assert(groups[j].0 == resource);
    }
}

/// Adds instance `local_id` of `resource` to the request of that resource,
/// opening a request for it when there is none.
pub fn push_project_instance_request(
    requests: &mut Vec<WebGeometryInstanceBatchRequest>,
    resource: String,
    local_id: u64,
)
    ensures
        instance_groups(final(requests)@) == grouped(
            instance_groups(old(requests)@),
            resource@,
            local_id,
        ),
{
    let ghost groups = instance_groups(requests@);
    let mut i: usize = 0;
    while i < requests.len()
        invariant
            i <= requests@.len(),
            groups == instance_groups(requests@),
            forall|j: int| 0 <= j < i ==> groups[j].0 != resource@,
        ensures
            i < requests@.len() ==> groups[i as int].0 == resource@,
        decreases requests.len() - i,
    {
        if str_eq(requests[i].resource.as_str(), resource.as_str()) {
            break;
        }
        i += 1;
    }
    if i < requests.len() {
        assert(first_group(groups, resource@, i as int));
        proof {
            let k = choose|k: int| first_group(groups, resource@, k);
            lemma_first_group_unique(groups, resource@, i as int, k);
        }
        let mut request = requests.remove(i);
        request.instance_ids.push(local_id);
        requests.insert(i, request);
        assert(instance_groups(requests@) =~= grouped(groups, resource@, local_id));
    } else {
        let mut instance_ids: Vec<u64> = Vec::new();
        instance_ids.push(local_id);
        assert(instance_ids@ =~= seq![local_id]);
        let request = WebGeometryInstanceBatchRequest { resource, instance_ids };
        requests.push(request);
        assert(instance_groups(requests@) =~= grouped(groups, resource@, local_id));
    }
}

/// Adds definition `local_id` of `resource` to the request of that resource,
/// opening a request for it when there is none.
pub fn push_project_definition_request(
    requests: &mut Vec<WebGeometryDefinitionBatchRequest>,
    resource: String,
    local_id: u64,
)
    ensures
        definition_groups(final(requests)@) == grouped(
            definition_groups(old(requests)@),
            resource@,
            local_id,
        ),
{
    let ghost groups = definition_groups(requests@);
    let mut i: usize = 0;
    while i < requests.len()
        invariant
            i <= requests@.len(),
            groups == definition_groups(requests@),
            forall|j: int| 0 <= j < i ==> groups[j].0 != resource@,
        ensures
            i < requests@.len() ==> groups[i as int].0 == resource@,
        decreases requests.len() - i,
    {
        if str_eq(requests[i].resource.as_str(), resource.as_str()) {
            break;
        }
        i += 1;
    }
    if i < requests.len() {
        assert(first_group(groups, resource@, i as int));
        proof {
            let k = choose|k: int| first_group(groups, resource@, k);
            lemma_first_group_unique(groups, resource@, i as int, k);
        }
        let mut request = requests.remove(i);
        request.definition_ids.push(local_id);
        requests.insert(i, request);
        assert(definition_groups(requests@) =~= grouped(groups, resource@, local_id));
    } else {
        let mut definition_ids: Vec<u64> = Vec::new();
        definition_ids.push(local_id);
        assert(definition_ids@ =~= seq![local_id]);
        let request = WebGeometryDefinitionBatchRequest { resource, definition_ids };
        requests.push(request);
        assert(definition_groups(requests@) =~= grouped(groups, resource@, local_id));
    }
}

/// The items of `items` that do not occur earlier in it, in order.
pub open spec fn first_occurrences<A>(items: Seq<A>) -> Seq<A>
    decreases items.len(),
{
    if items.len() == 0 {
        Seq::empty()
    } else {
        let prev = first_occurrences(items.drop_last());
        if items.drop_last().contains(items.last()) {
            prev
        } else {
            prev.push(items.last())
        }
    }
}

/// The request groups that the numbered scoped ids `texts` give, each text
/// counted once; `None` when a text is not a numbered scoped id.
pub open spec fn group_texts(texts: Seq<Seq<char>>) -> Option<RequestGroups>
    decreases texts.len(),
{
    if texts.len() == 0 {
        Some(Seq::empty())
    } else {
        match group_texts(texts.drop_last()) {
            None => None,
            Some(groups) => if texts.drop_last().contains(texts.last()) {
                Some(groups)
            } else {
                match numbered_id_outcome(texts.last()) {
                    None => None,
                    Some((resource, id)) => Some(grouped(groups, resource, id)),
                }
            },
        }
    }
}

/// The first text of `texts` at which grouping fails.
pub open spec fn first_ungrouped(texts: Seq<Seq<char>>) -> Seq<char>
    decreases texts.len(),
{
    if texts.len() == 0 {
        Seq::empty()
    } else if group_texts(texts.drop_last()) is None {
        first_ungrouped(texts.drop_last())
    } else {
        texts.last()
    }
}

/// When grouping first fails at text `k`, that text is the first one that
/// does not group.
proof fn lemma_first_ungrouped(texts: Seq<Seq<char>>, k: int, n: int)
    requires
        0 <= k < n <= texts.len(),
        group_texts(texts.take(k)) is Some,
        group_texts(texts.take(k + 1)) is None,
    ensures
        first_ungrouped(texts.take(n)) == texts[k],
    decreases n - k,
{
    if n == k + 1 {
        assert(texts.take(n).drop_last() == texts.take(k));
    } else {
        lemma_first_ungrouped(texts, k, n - 1);
        assert(texts.take(n).drop_last() == texts.take(n - 1));
        assert(texts.take(n - 1).take(k + 1) == texts.take(k + 1));
        lemma_group_texts_failure_persists(texts.take(n - 1), k + 1);
    }
}

/// Once some prefix of `texts` fails to group, all of `texts` does.
proof fn lemma_group_texts_failure_persists(texts: Seq<Seq<char>>, k: int)
    requires
        0 <= k <= texts.len(),
        group_texts(texts.take(k)) is None,
    ensures
        group_texts(texts) is None,
    decreases texts.len() - k,
{
    if k < texts.len() {
        assert(texts.take(k + 1).drop_last() == texts.take(k));
        lemma_group_texts_failure_persists(texts, k + 1);
    } else {
        assert(texts.take(k) == texts);
    }
}

/// The characters of each string.
pub open spec fn texts_of(strings: Seq<String>) -> Seq<Seq<char>> {
    strings.map_values(|s: String| s@)
}

/// The ids a project view streams, each scoped by its member resource.
#[derive(Clone, Debug, PartialEq, Eq)]
pub struct WebProjectGeometryStreamPlan {
    pub instance_ids: Vec<String>,
    pub definition_ids: Vec<String>,
}

/// The member-local requests that stream a project plan.
#[derive(Clone, Debug, PartialEq, Eq)]
pub struct WebProjectGeometryBatchRequests {
    pub instance_requests: Vec<WebGeometryInstanceBatchRequest>,
    pub definition_requests: Vec<WebGeometryDefinitionBatchRequest>,
}

impl WebProjectGeometryStreamPlan {
    /// Groups the scoped ids of the plan back into one request per member
    /// resource, each id counted once; fails on the first id that is not a
    /// scoped id with a number.
    pub fn to_member_batch_requests(&self) -> (r: Result<WebProjectGeometryBatchRequests, String>)
        ensures
            match (
                group_texts(texts_of(self.instance_ids@)),
                group_texts(texts_of(self.definition_ids@)),
            ) {
                (Some(instances), Some(definitions)) => r matches Ok(requests) && instance_groups(
                    requests.instance_requests@,
                ) == instances && definition_groups(requests.definition_requests@)
                    == definitions,
                (None, _) => r matches Err(e) && is_numbered_id_error(
                    e@,
                    first_ungrouped(texts_of(self.instance_ids@)),
                    true,
                ),
                (Some(_), None) => r matches Err(e) && is_numbered_id_error(
                    e@,
                    first_ungrouped(texts_of(self.definition_ids@)),
                    false,
                ),
            },
    {
        let ghost itexts = texts_of(self.instance_ids@);
        let ghost dtexts = texts_of(self.definition_ids@);
        let mut instance_requests: Vec<WebGeometryInstanceBatchRequest> = Vec::new();
        let mut seen = TextSet::new();
        let mut k: usize = 0;
        assert(itexts.take(0) =~= Seq::<Seq<char>>::empty());
        while k < self.instance_ids.len()
            invariant
                k <= self.instance_ids@.len(),
                itexts == texts_of(self.instance_ids@),
                forall|t: Seq<char>| #[trigger] seen.contains(t) <==> itexts.take(k as int).contains(t),
                group_texts(itexts.take(k as int)) == Some(instance_groups(instance_requests@)),
            decreases self.instance_ids.len() - k,
        {
            let id = &self.instance_ids[k];
            let ghost text = itexts[k as int];
            assert(id@ == text);
            assert(itexts.take(k + 1).drop_last() == itexts.take(k as int));
            assert(itexts.take(k + 1).last() == text);
            let fresh = seen.insert(id.as_str());
            proof {
                assert forall|t: Seq<char>| #[trigger] itexts.take(k + 1).contains(t) <==> (
                itexts.take(k as int).contains(t) || t == text) by {
                    if itexts.take(k + 1).contains(t) {
                        let j = choose|j: int| 0 <= j < k + 1 && #[trigger] itexts.take(k + 1)[j] == t;
                        if j < k {
                            assert(itexts.take(k as int)[j] == t);
                        }
                    }
                    if itexts.take(k as int).contains(t) {
                        let j = choose|j: int| 0 <= j < k && #[trigger] itexts.take(k as int)[j] == t;
                        assert(itexts.take(k + 1)[j] == t);
                    }
                    if t == text {
                        assert(itexts.take(k + 1)[k as int] == t);
                    }
                }
            }
            if fresh {
                match SourceScopedGeometryInstanceId::parse(id.as_str()) {
                    Err(error) => {
                        proof {
                            lemma_group_texts_failure_persists(itexts, k + 1);
                            lemma_first_ungrouped(itexts, k as int, itexts.len() as int);
                            assert(itexts.take(itexts.len() as int) == itexts);
                        }
                        return Err(error.message());
                    },
                    Ok(scoped) => {
                        push_project_instance_request(
                            &mut instance_requests,
                            scoped.resource,
                            scoped.local_id,
                        );
                    },
                }
            }
            k += 1;
        }
        assert(itexts.take(k as int) == itexts);
        let mut definition_requests: Vec<WebGeometryDefinitionBatchRequest> = Vec::new();
        let mut seen = TextSet::new();
        let mut k: usize = 0;
        assert(dtexts.take(0) =~= Seq::<Seq<char>>::empty());
        while k < self.definition_ids.len()
            invariant
                k <= self.definition_ids@.len(),
                dtexts == texts_of(self.definition_ids@),
                itexts == texts_of(self.instance_ids@),
                group_texts(itexts) == Some(instance_groups(instance_requests@)),
                forall|t: Seq<char>| #[trigger] seen.contains(t) <==> dtexts.take(k as int).contains(t),
                group_texts(dtexts.take(k as int)) == Some(definition_groups(definition_requests@)),
            decreases self.definition_ids.len() - k,
        {
            let id = &self.definition_ids[k];
            let ghost text = dtexts[k as int];
            assert(id@ == text);
            assert(dtexts.take(k + 1).drop_last() == dtexts.take(k as int));
            assert(dtexts.take(k + 1).last() == text);
            let fresh = seen.insert(id.as_str());
            proof {
                assert forall|t: Seq<char>| #[trigger] dtexts.take(k + 1).contains(t) <==> (
                dtexts.take(k as int).contains(t) || t == text) by {
                    if dtexts.take(k + 1).contains(t) {
                        let j = choose|j: int| 0 <= j < k + 1 && #[trigger] dtexts.take(k + 1)[j] == t;
                        if j < k {
                            assert(dtexts.take(k as int)[j] == t);
                        }
                    }
                    if dtexts.take(k as int).contains(t) {
                        let j = choose|j: int| 0 <= j < k && #[trigger] dtexts.take(k as int)[j] == t;
                        assert(dtexts.take(k + 1)[j] == t);
                    }
                    if t == text {
                        assert(dtexts.take(k + 1)[k as int] == t);
                    }
                }
            }
            if fresh {
                match SourceScopedGeometryDefinitionId::parse(id.as_str()) {
                    Err(error) => {
                        proof {
                            lemma_group_texts_failure_persists(dtexts, k + 1);
                            lemma_first_ungrouped(dtexts, k as int, dtexts.len() as int);
                            assert(dtexts.take(dtexts.len() as int) == dtexts);
                        }
                        return Err(error.message());
                    },
                    Ok(scoped) => {
                        push_project_definition_request(
                            &mut definition_requests,
                            scoped.resource,
                            scoped.local_id,
                        );
                    },
                }
            }
            k += 1;
        }
        assert(dtexts.take(k as int) == dtexts);
        Ok(WebProjectGeometryBatchRequests { instance_requests, definition_requests })
    }
}

/// The instances and definitions that one member streams, by its own ids.
#[derive(Clone, Debug, PartialEq, Eq)]
pub struct GeometryStreamPlan {
    pub instance_ids: Vec<u64>,
    pub definition_ids: Vec<u64>,
}

/// The texts of member-local ids scoped by `resource`.
pub open spec fn scoped_number_texts(resource: Seq<char>, ids: Seq<u64>) -> Seq<Seq<char>> {
    ids.map_values(|v: u64| scoped_text(resource, decimal_text(v as nat)))
}

fn scope_numbers(resource: &str, ids: &Vec<u64>, instances: bool) -> (texts: Vec<String>)
    ensures
        texts_of(texts@) == scoped_number_texts(resource@, ids@),
{
    let mut texts: Vec<String> = Vec::new();
    let mut k: usize = 0;
    while k < ids.len()
        invariant
            k <= ids@.len(),
            texts_of(texts@) == scoped_number_texts(resource@, ids@.take(k as int)),
        decreases ids.len() - k,
    {
        let text = if instances {
            source_scoped_geometry_instance_id_string(resource, ids[k])
        } else {
            source_scoped_geometry_definition_id_string(resource, ids[k])
        };
        let ghost before = texts@;
        let ghost text_view = text@;
        texts.push(text);
        assert(texts@ == before.push(text));
        assert(texts_of(texts@) =~= texts_of(before).push(text_view));
        assert(ids@.take(k + 1) == ids@.take(k as int).push(ids@[k as int]));
        assert(texts_of(texts@) =~= scoped_number_texts(resource@, ids@.take(k + 1)));
        k += 1;
    }
    assert(ids@.take(k as int) == ids@);
    texts
}

impl WebProjectGeometryStreamPlan {
    /// Scopes a member's own stream plan by its resource, which must be a
    /// valid project member resource.
    pub fn from_local_stream_plan(resource: &str, plan: &GeometryStreamPlan) -> (r: Result<
        WebProjectGeometryStreamPlan,
        String,
    >)
        ensures
            resource@.len() == 0 ==> (r matches Err(m) && m@
                == "source-scoped id resource must not be empty"@),
            resource@.len() > 0 && contains_separator(resource@) ==> (r matches Err(m) && m@
                == member_resource_message(resource@)),
            resource@.len() > 0 && !contains_separator(resource@) ==> (r matches Ok(p) && texts_of(
                p.instance_ids@,
            ) == scoped_number_texts(resource@, plan.instance_ids@) && texts_of(
                p.definition_ids@,
            ) == scoped_number_texts(resource@, plan.definition_ids@)),
    {
        let resource = match validate_project_member_resource(resource) {
            Err(m) => {
                return Err(m);
            },
            Ok(valid) => valid,
        };
        let instance_ids = scope_numbers(resource.as_str(), &plan.instance_ids, true);
        let definition_ids = scope_numbers(resource.as_str(), &plan.definition_ids, false);
        Ok(WebProjectGeometryStreamPlan { instance_ids, definition_ids })
    }
}

/// A member's plan groups back: scoping a member's distinct ids by a
/// resource that can scope ids, then grouping the texts by resource, gives
/// one group, that resource with the same ids in the same order (none for
/// no ids).
pub proof fn lemma_local_plan_groups_back(resource: Seq<char>, ids: Seq<u64>)
    requires
        is_scoping_resource(resource),
        ids.no_duplicates(),
    ensures
        group_texts(scoped_number_texts(resource, ids)) == Some(
            if ids.len() == 0 {
                Seq::<(Seq<char>, Seq<u64>)>::empty()
            } else {
                seq![(resource, ids)]
            },
        ),
    decreases ids.len(),
{
    let texts = scoped_number_texts(resource, ids);
    if ids.len() > 0 {
        let prefix = ids.drop_last();
        let v = ids.last();
        assert(prefix.no_duplicates()) by {
            assert forall|i: int, j: int| 0 <= i < prefix.len() && 0 <= j < prefix.len() && i != j implies prefix[i] != prefix[j] by {
                assert(prefix[i] == ids[i] && prefix[j] == ids[j]);
            }
        }
        lemma_local_plan_groups_back(resource, prefix);
        assert(texts.drop_last() =~= scoped_number_texts(resource, prefix));
        lemma_numbered_text_round_trip(resource, v);
        assert(!texts.drop_last().contains(texts.last())) by {
            if texts.drop_last().contains(texts.last()) {
                let j = choose|j: int| 0 <= j < texts.drop_last().len() && texts.drop_last()[j] == texts.last();
                lemma_numbered_text_round_trip(resource, prefix[j]);
                assert(ids[j] == prefix[j]);
                assert(ids[j] == ids[ids.len() - 1]);
            }
        }
        let prev = if prefix.len() == 0 {
            Seq::<(Seq<char>, Seq<u64>)>::empty()
        } else {
            seq![(resource, prefix)]
        };
        assert(prefix.push(v) =~= ids);
        if prefix.len() > 0 {
            assert(first_group(prev, resource, 0));
            assert(prev[0].0 == resource);
            let k = choose|k: int| first_group(prev, resource, k);
            lemma_first_group_unique(prev, resource, 0, k);
            assert(grouped(prev, resource, v) =~= seq![(resource, ids)]);
        } else {
            assert(seq![v] =~= ids);
            assert(grouped(prev, resource, v) == prev.push((resource, seq![v])));
            assert(grouped(prev, resource, v) =~= seq![(resource, ids)]);
        }
    } else {
        assert(texts =~= Seq::<Seq<char>>::empty());
    }
}

/// An element as catalog logic reads it: its id and the name of its
/// default render class.
#[derive(Clone, Debug, PartialEq, Eq)]
pub struct CatalogElement {
    pub id: String,
    pub default_render_class: String,
}

/// An instance of a member catalog, by the member's own ids.
#[derive(Clone, Debug, PartialEq, Eq)]
pub struct CatalogInstance {
    pub id: u64,
    pub element_id: String,
    pub definition_id: u64,
}

/// The ids of one member's geometry catalog.
#[derive(Clone, Debug, PartialEq, Eq)]
pub struct MemberCatalog {
    pub definition_ids: Vec<u64>,
    pub elements: Vec<CatalogElement>,
    pub instances: Vec<CatalogInstance>,
}

/// One member of a project: its resource and its catalog.
#[derive(Clone, Debug, PartialEq, Eq)]
pub struct ProjectMember {
    pub resource: String,
    pub catalog: MemberCatalog,
}

/// An instance of a project catalog, every id scoped by its member.
#[derive(Clone, Debug, PartialEq, Eq)]
pub struct ProjectInstance {
    pub id: String,
    pub element_id: String,
    pub definition_id: String,
}

/// The ids of a project catalog composed from its members.
#[derive(Clone, Debug, PartialEq, Eq)]
pub struct ProjectCatalog {
    pub resources: Vec<String>,
    pub definition_ids: Vec<String>,
    pub elements: Vec<CatalogElement>,
    pub instances: Vec<ProjectInstance>,
}

/// Elements as (id, render class name) pairs.
pub open spec fn element_views(elements: Seq<CatalogElement>) -> Seq<(Seq<char>, Seq<char>)> {
    elements.map_values(|e: CatalogElement| (e.id@, e.default_render_class@))
}

/// Project instances as (id, element id, definition id) triples.
pub open spec fn instance_views(instances: Seq<ProjectInstance>) -> Seq<
    (Seq<char>, Seq<char>, Seq<char>),
> {
    instances.map_values(|i: ProjectInstance| (i.id@, i.element_id@, i.definition_id@))
}

/// A member's elements with their ids scoped by `resource`.
pub open spec fn scoped_element_views(resource: Seq<char>, elements: Seq<CatalogElement>) -> Seq<
    (Seq<char>, Seq<char>),
> {
    elements.map_values(
        |e: CatalogElement| (scoped_text(resource, e.id@), e.default_render_class@),
    )
}

/// A member's instances with every id scoped by `resource`.
pub open spec fn scoped_instance_views(resource: Seq<char>, instances: Seq<CatalogInstance>) -> Seq<
    (Seq<char>, Seq<char>, Seq<char>),
> {
    instances.map_values(
        |i: CatalogInstance|
            (
                scoped_text(resource, decimal_text(i.id as nat)),
                scoped_text(resource, i.element_id@),
                scoped_text(resource, decimal_text(i.definition_id as nat)),
            ),
    )
}

/// The message for an empty local id.
pub open spec fn empty_local_id_message() -> Seq<char> {
    "source-scoped id local id must not be empty"@
}

/// The message for a resource given to two members.
pub open spec fn duplicate_member_message(resource: Seq<char>) -> Seq<char> {
    "duplicate project member resource `"@ + resource + "`"@
}

/// Why member `k` cannot join a project after the members before it, if
/// it cannot: its resource is empty, holds the separator or repeats an
/// earlier member's, or one of its elements or instances has an empty
/// element id.
pub open spec fn member_fault(members: Seq<ProjectMember>, k: int) -> Option<Seq<char>> {
    let resource = members[k].resource@;
    let catalog = members[k].catalog;
    if resource.len() == 0 {
        Some("source-scoped id resource must not be empty"@)
    } else if contains_separator(resource) {
        Some(member_resource_message(resource))
    } else if exists|j: int| 0 <= j < k && #[trigger] members[j].resource@ == resource {
        Some(duplicate_member_message(resource))
    } else if exists|i: int|
        0 <= i < catalog.elements@.len() && (#[trigger] catalog.elements@[i]).id@.len() == 0 {
        Some(empty_local_id_message())
    } else if exists|i: int|
        0 <= i < catalog.instances@.len() && (#[trigger] catalog.instances@[i]).element_id@.len()
            == 0 {
        Some(empty_local_id_message())
    } else {
        None
    }
}

/// The first fault among the first `n` members.
pub open spec fn composition_fault(members: Seq<ProjectMember>, n: int) -> Option<Seq<char>>
    decreases n,
{
    if n <= 0 {
        None
    } else {
        match composition_fault(members, n - 1) {
            Some(m) => Some(m),
            None => member_fault(members, n - 1),
        }
    }
}

proof fn lemma_composition_fault_persists(members: Seq<ProjectMember>, k: int, n: int)
    requires
        0 <= k <= n,
        composition_fault(members, k) is Some,
    ensures
        composition_fault(members, n) == composition_fault(members, k),
    decreases n - k,
{
    if k < n {
        lemma_composition_fault_persists(members, k, n - 1);
    }
}

/// The definition ids of the first `n` members, scoped.
pub open spec fn project_definition_texts(members: Seq<ProjectMember>, n: int) -> Seq<Seq<char>>
    decreases n,
{
    if n <= 0 {
        Seq::empty()
    } else {
        project_definition_texts(members, n - 1) + scoped_number_texts(
            members[n - 1].resource@,
            members[n - 1].catalog.definition_ids@,
        )
    }
}

/// The elements of the first `n` members, scoped.
pub open spec fn project_element_views(members: Seq<ProjectMember>, n: int) -> Seq<
    (Seq<char>, Seq<char>),
>
    decreases n,
{
    if n <= 0 {
        Seq::empty()
    } else {
        project_element_views(members, n - 1) + scoped_element_views(
            members[n - 1].resource@,
            members[n - 1].catalog.elements@,
        )
    }
}

/// The instances of the first `n` members, scoped.
pub open spec fn project_instance_views(members: Seq<ProjectMember>, n: int) -> Seq<
    (Seq<char>, Seq<char>, Seq<char>),
>
    decreases n,
{
    if n <= 0 {
        Seq::empty()
    } else {
        project_instance_views(members, n - 1) + scoped_instance_views(
            members[n - 1].resource@,
            members[n - 1].catalog.instances@,
        )
    }
}

fn append_texts(out: &mut Vec<String>, texts: Vec<String>)
    ensures
        texts_of(final(out)@) == texts_of(old(out)@) + texts_of(texts@),
{
    let mut k: usize = 0;
    let ghost start = out@;
    while k < texts.len()
        invariant
            k <= texts@.len(),
            texts_of(out@) == texts_of(start) + texts_of(texts@.take(k as int)),
        decreases texts.len() - k,
    {
        let ghost before = out@;
        let text = texts[k].clone();
        let ghost pushed = text;
        out.push(text);
        assert(out@ == before.push(pushed));
        assert(texts_of(out@) =~= texts_of(before).push(texts@[k as int]@));
        assert(texts@.take(k + 1) == texts@.take(k as int).push(texts@[k as int]));
        assert(texts_of(texts@.take(k + 1)) =~= texts_of(texts@.take(k as int)).push(
            texts@[k as int]@,
        ));
        assert(texts_of(out@) =~= texts_of(start) + texts_of(texts@.take(k + 1)));
        k += 1;
    }
    assert(texts@.take(k as int) == texts@);
}

/// Appends a member's elements with scoped ids; fails when an element id
/// is empty.
fn scope_member_elements(
    resource: &str,
    elements: &Vec<CatalogElement>,
    out: &mut Vec<CatalogElement>,
) -> (r: Result<(), String>)
    requires
        resource@.len() > 0,
    ensures
        (exists|i: int| 0 <= i < elements@.len() && (#[trigger] elements@[i]).id@.len() == 0)
            ==> (r matches Err(m) && m@ == empty_local_id_message()),
        !(exists|i: int| 0 <= i < elements@.len() && (#[trigger] elements@[i]).id@.len() == 0)
            ==> (r is Ok && element_views(final(out)@) == element_views(old(out)@)
            + scoped_element_views(resource@, elements@)),
{
    let ghost start = out@;
    let mut k: usize = 0;
    while k < elements.len()
        invariant
            k <= elements@.len(),
            resource@.len() > 0,
            forall|i: int| 0 <= i < k ==> (#[trigger] elements@[i]).id@.len() > 0,
            element_views(out@) == element_views(start) + scoped_element_views(
                resource@,
                elements@.take(k as int),
            ),
        decreases elements.len() - k,
    {
        let element = &elements[k];
        let id = match source_scoped_semantic_element_id_string(resource, element.id.as_str()) {
            Err(m) => {
                return Err(m);
            },
            Ok(id) => id,
        };
        let class = element.default_render_class.clone();
        let ghost before = out@;
        let made = CatalogElement { id, default_render_class: class };
        let ghost pushed = made;
        out.push(made);
        assert(out@ == before.push(pushed));
        assert(element_views(out@) =~= element_views(before).push(
            (pushed.id@, pushed.default_render_class@),
        ));
        assert(elements@.take(k + 1) == elements@.take(k as int).push(elements@[k as int]));
        assert(scoped_element_views(resource@, elements@.take(k + 1)) =~= scoped_element_views(
            resource@,
            elements@.take(k as int),
        ).push((pushed.id@, pushed.default_render_class@)));
        assert(element_views(out@) =~= element_views(start) + scoped_element_views(
            resource@,
            elements@.take(k + 1),
        ));
        k += 1;
    }
    assert(elements@.take(k as int) == elements@);
    Ok(())
}

/// Appends a member's instances with scoped ids; fails when an element id
/// is empty.
fn scope_member_instances(
    resource: &str,
    instances: &Vec<CatalogInstance>,
    out: &mut Vec<ProjectInstance>,
) -> (r: Result<(), String>)
    requires
        resource@.len() > 0,
    ensures
        (exists|i: int|
            0 <= i < instances@.len() && (#[trigger] instances@[i]).element_id@.len() == 0) ==> (
        r matches Err(m) && m@ == empty_local_id_message()),
        !(exists|i: int|
            0 <= i < instances@.len() && (#[trigger] instances@[i]).element_id@.len() == 0) ==> (
        r is Ok && instance_views(final(out)@) == instance_views(old(out)@) + scoped_instance_views(
            resource@,
            instances@,
        )),
{
    let ghost start = out@;
    let mut k: usize = 0;
    while k < instances.len()
        invariant
            k <= instances@.len(),
            resource@.len() > 0,
            forall|i: int| 0 <= i < k ==> (#[trigger] instances@[i]).element_id@.len() > 0,
            instance_views(out@) == instance_views(start) + scoped_instance_views(
                resource@,
                instances@.take(k as int),
            ),
        decreases instances.len() - k,
    {
        let instance = &instances[k];
        let id = source_scoped_geometry_instance_id_string(resource, instance.id);
        let element_id = match source_scoped_semantic_element_id_string(
            resource,
            instance.element_id.as_str(),
        ) {
            Err(m) => {
                return Err(m);
            },
            Ok(element_id) => element_id,
        };
        let definition_id = source_scoped_geometry_definition_id_string(
            resource,
            instance.definition_id,
        );
        let ghost before = out@;
        let made = ProjectInstance { id, element_id, definition_id };
        let ghost pushed = made;
        out.push(made);
        assert(out@ == before.push(pushed));
        assert(instance_views(out@) =~= instance_views(before).push(
            (pushed.id@, pushed.element_id@, pushed.definition_id@),
        ));
        assert(instances@.take(k + 1) == instances@.take(k as int).push(instances@[k as int]));
        assert(scoped_instance_views(resource@, instances@.take(k + 1)) =~= scoped_instance_views(
            resource@,
            instances@.take(k as int),
        ).push((pushed.id@, pushed.element_id@, pushed.definition_id@)));
        assert(instance_views(out@) =~= instance_views(start) + scoped_instance_views(
            resource@,
            instances@.take(k + 1),
        ));
        k += 1;
    }
    assert(instances@.take(k as int) == instances@);
    Ok(())
}

/// The resources of `members`.
pub open spec fn member_resources(members: Seq<ProjectMember>) -> Seq<Seq<char>> {
    members.map_values(|m: ProjectMember| m.resource@)
}

impl ProjectCatalog {
    /// Composes a project catalog from member catalogs, scoping every id by
    /// its member's resource. Fails with the first member fault: a resource
    /// that is empty, holds the separator or was given before, or an empty
    /// element id.
    pub fn from_members(members: &[ProjectMember]) -> (r: Result<ProjectCatalog, String>)
        ensures
            match composition_fault(members@, members@.len() as int) {
                Some(m) => r matches Err(e) && e@ == m,
                None => r matches Ok(c) && texts_of(c.resources@) == member_resources(members@)
                    && texts_of(c.definition_ids@) == project_definition_texts(
                    members@,
                    members@.len() as int,
                ) && element_views(c.elements@) == project_element_views(
                    members@,
                    members@.len() as int,
                ) && instance_views(c.instances@) == project_instance_views(
                    members@,
                    members@.len() as int,
                ),
            },
    {
        let ghost ms = members@;
        let mut resources: Vec<String> = Vec::new();
        let mut definition_ids: Vec<String> = Vec::new();
        let mut elements: Vec<CatalogElement> = Vec::new();
        let mut instances: Vec<ProjectInstance> = Vec::new();
        let mut k: usize = 0;
        assert(member_resources(ms.take(0)) =~= texts_of(resources@));
        while k < members.len()
            invariant
                k <= ms.len(),
                ms == members@,
                composition_fault(ms, k as int) is None,
                resources@.len() == k,
                texts_of(resources@) == member_resources(ms.take(k as int)),
                texts_of(definition_ids@) == project_definition_texts(ms, k as int),
                element_views(elements@) == project_element_views(ms, k as int),
                instance_views(instances@) == project_instance_views(ms, k as int),
            decreases members.len() - k,
        {
            let member = &members[k];
            let resource = match validate_project_member_resource(member.resource.as_str()) {
                Err(m) => {
                    proof {
                        lemma_composition_fault_persists(ms, k + 1, ms.len() as int);
                    }
                    return Err(m);
                },
                Ok(valid) => valid,
            };
            let mut j: usize = 0;
            while j < resources.len()
                invariant
                    j <= resources@.len(),
                    resources@.len() == k,
                    texts_of(resources@) == member_resources(ms.take(k as int)),
                    k < ms.len(),
                    resource@ == ms[k as int].resource@,
                    resource@.len() > 0,
                    !contains_separator(resource@),
                    ms == members@,
                    composition_fault(ms, k as int) is None,
                    forall|i: int| 0 <= i < j ==> #[trigger] ms[i].resource@ != resource@,
                decreases resources.len() - j,
            {
                assert(texts_of(resources@)[j as int] == resources@[j as int]@);
                assert(member_resources(ms.take(k as int))[j as int] == ms[j as int].resource@);
                if str_eq(resources[j].as_str(), resource.as_str()) {
                    let mut m = String::from_str("duplicate project member resource `");
                    m.append(resource.as_str());
                    m.append("`");
                    proof {
                        assert(ms[j as int].resource@ == resource@);
                        assert(m@ =~= duplicate_member_message(ms[k as int].resource@));
                        assert(ms[k as int].resource@.len() > 0);
                        assert(!contains_separator(ms[k as int].resource@));
                        assert(exists|i: int|
                            0 <= i < k && #[trigger] ms[i].resource@ == ms[k as int].resource@);
                        assert(member_fault(ms, k as int) == Some(
                            duplicate_member_message(ms[k as int].resource@),
                        ));
                        lemma_composition_fault_persists(ms, k + 1, ms.len() as int);
                    }
                    return Err(m);
                }
                j += 1;
            }
            assert(!(exists|i: int| 0 <= i < k && #[trigger] ms[i].resource@ == resource@));
            let ghost resources_before = resources@;
            let kept = resource.clone();
            let ghost kept_view = kept@;
            resources.push(kept);
            assert(texts_of(resources@) =~= texts_of(resources_before).push(kept_view));
            assert(ms.take(k + 1) == ms.take(k as int).push(ms[k as int]));
            assert(texts_of(resources@) =~= member_resources(ms.take(k + 1)));
            let texts = scope_numbers(resource.as_str(), &member.catalog.definition_ids, false);
            append_texts(&mut definition_ids, texts);
            match scope_member_elements(resource.as_str(), &member.catalog.elements, &mut elements) {
                Err(m) => {
                    proof {
                        lemma_composition_fault_persists(ms, k + 1, ms.len() as int);
                    }
                    return Err(m);
                },
                Ok(()) => {},
            }
            match scope_member_instances(
                resource.as_str(),
                &member.catalog.instances,
                &mut instances,
            ) {
                Err(m) => {
                    proof {
                        lemma_composition_fault_persists(ms, k + 1, ms.len() as int);
                    }
                    return Err(m);
                },
                Ok(()) => {},
            }
            k += 1;
        }
        assert(ms.take(k as int) == ms);
        Ok(ProjectCatalog { resources, definition_ids, elements, instances })
    }
}

/// The element ids a project view starts with.
#[derive(Clone, Debug, PartialEq, Eq)]
pub struct WebProjectResolvedStartView {
    pub visible_element_ids: Vec<String>,
}

/// Which elements a view should start with.
#[derive(Clone, Debug, PartialEq, Eq)]
pub enum GeometryStartViewRequest {
    /// The elements visible by default.
    Default,
    /// At most this many of the elements visible by default.
    Minimal(usize),
    /// Every element.
    All,
    /// The listed elements that the catalog knows, each once.
    Elements(Vec<String>),
}

/// The ids of the elements visible by default, in order, or the message
/// for the first element whose render class name is unknown.
pub open spec fn default_view_outcome(elements: Seq<CatalogElement>) -> Result<
    Seq<Seq<char>>,
    Seq<char>,
>
    decreases elements.len(),
{
    if elements.len() == 0 {
        Ok(Seq::empty())
    } else {
        match default_view_outcome(elements.drop_last()) {
            Err(m) => Err(m),
            Ok(ids) => {
                let e = elements.last();
                match render_class_for_name(e.default_render_class@) {
                    None => Err(unknown_render_class_message(e.default_render_class@)),
                    Some(class) => if visible_by_default(class) {
                        Ok(ids.push(e.id@))
                    } else {
                        Ok(ids)
                    },
                }
            },
        }
    }
}

/// The ids of `elements`.
pub open spec fn element_ids(elements: Seq<CatalogElement>) -> Seq<Seq<char>> {
    elements.map_values(|e: CatalogElement| e.id@)
}

/// The requested ids that `known` holds, each once, in request order.
pub open spec fn known_requested(requested: Seq<Seq<char>>, known: Seq<Seq<char>>) -> Seq<
    Seq<char>,
>
    decreases requested.len(),
{
    if requested.len() == 0 {
        Seq::empty()
    } else {
        let prev = known_requested(requested.drop_last(), known);
        let id = requested.last();
        if known.contains(id) && !prev.contains(id) {
            prev.push(id)
        } else {
            prev
        }
    }
}

/// The start view a request resolves to, or the message of the failure.
pub open spec fn start_view_outcome(
    elements: Seq<CatalogElement>,
    request: GeometryStartViewRequest,
) -> Result<Seq<Seq<char>>, Seq<char>> {
    match request {
        GeometryStartViewRequest::Default => default_view_outcome(elements),
        GeometryStartViewRequest::Minimal(max) => match default_view_outcome(elements) {
            Ok(ids) => Ok(
                if ids.len() <= max {
                    ids
                } else {
                    ids.take(max as int)
                },
            ),
            Err(m) => Err(m),
        },
        GeometryStartViewRequest::All => Ok(element_ids(elements)),
        GeometryStartViewRequest::Elements(requested) => Ok(
            known_requested(texts_of(requested@), element_ids(elements)),
        ),
    }
}

/// The instances of `instances` whose element is `element_id`, in order.
pub open spec fn instances_of_element(
    instances: Seq<ProjectInstance>,
    element_id: Seq<char>,
) -> Seq<ProjectInstance>
    decreases instances.len(),
{
    if instances.len() == 0 {
        Seq::empty()
    } else {
        let prev = instances_of_element(instances.drop_last(), element_id);
        if instances.last().element_id@ == element_id {
            prev.push(instances.last())
        } else {
            prev
        }
    }
}

/// The instances of each listed element in turn.
pub open spec fn instances_of_elements(
    instances: Seq<ProjectInstance>,
    element_ids: Seq<Seq<char>>,
) -> Seq<ProjectInstance>
    decreases element_ids.len(),
{
    if element_ids.len() == 0 {
        Seq::empty()
    } else {
        instances_of_elements(instances, element_ids.drop_last()) + instances_of_element(
            instances,
            element_ids.last(),
        )
    }
}

/// The instance ids of project instances.
pub open spec fn instance_id_texts(instances: Seq<ProjectInstance>) -> Seq<Seq<char>> {
    instances.map_values(|i: ProjectInstance| i.id@)
}

/// The definition ids of project instances.
pub open spec fn definition_id_texts(instances: Seq<ProjectInstance>) -> Seq<Seq<char>> {
    instances.map_values(|i: ProjectInstance| i.definition_id@)
}

/// Adds `x` to a first-occurrence list kept with the set of all items seen.
pub proof fn lemma_first_occurrences_push<A>(items: Seq<A>, x: A)
    ensures
        first_occurrences(items.push(x)) == if items.contains(x) {
            first_occurrences(items)
        } else {
            first_occurrences(items).push(x)
        },
{
    assert(items.push(x).drop_last() == items);
}

impl ProjectCatalog {
    /// The ids of all elements, in catalog order.
    pub fn all_element_ids(&self) -> (ids: Vec<String>)
        ensures
            texts_of(ids@) == element_ids(self.elements@),
    {
        let mut ids: Vec<String> = Vec::new();
        let mut k: usize = 0;
        while k < self.elements.len()
            invariant
                k <= self.elements@.len(),
                texts_of(ids@) == element_ids(self.elements@.take(k as int)),
            decreases self.elements.len() - k,
        {
            let ghost before = ids@;
            let id = self.elements[k].id.clone();
            let ghost id_view = id@;
            ids.push(id);
            assert(texts_of(ids@) =~= texts_of(before).push(id_view));
            assert(self.elements@.take(k + 1) == self.elements@.take(k as int).push(
                self.elements@[k as int],
            ));
            assert(element_ids(self.elements@.take(k + 1)) =~= element_ids(
                self.elements@.take(k as int),
            ).push(id_view));
            k += 1;
        }
        assert(self.elements@.take(k as int) == self.elements@);
        ids
    }

    /// The ids of the elements visible by default, in catalog order; fails
    /// on the first unknown render class name.
    pub fn default_start_view_element_ids(&self) -> (r: Result<Vec<String>, String>)
        ensures
            match default_view_outcome(self.elements@) {
                Ok(ids) => r matches Ok(v) && texts_of(v@) == ids,
                Err(m) => r matches Err(e) && e@ == m,
            },
    {
        default_visible_element_ids(&self.elements)
    }
}

/// The ids of the elements visible by default, in order; fails on the
/// first unknown render class name.
pub fn default_visible_element_ids(elements: &Vec<CatalogElement>) -> (r: Result<Vec<String>, String>)
    ensures
        match default_view_outcome(elements@) {
            Ok(ids) => r matches Ok(v) && texts_of(v@) == ids,
            Err(m) => r matches Err(e) && e@ == m,
        },
{
    let mut ids: Vec<String> = Vec::new();
    let mut k: usize = 0;
    while k < elements.len()
        invariant
            k <= elements@.len(),
            default_view_outcome(elements@.take(k as int)) matches Ok(so_far) && texts_of(
                ids@,
            ) == so_far,
        decreases elements.len() - k,
    {
        let element = &elements[k];
        assert(elements@.take(k + 1).drop_last() == elements@.take(k as int));
        assert(elements@.take(k + 1).last() == *element);
        match web_default_visibility_for_class_name(element.default_render_class.as_str()) {
            Err(m) => {
                proof {
                    lemma_default_view_failure_persists(elements@, k + 1);
                }
                return Err(m);
            },
            Ok(visible) => {
                if visible {
                    let ghost before = ids@;
                    let id = element.id.clone();
                    let ghost id_view = id@;
                    ids.push(id);
                    assert(texts_of(ids@) =~= texts_of(before).push(id_view));
                }
            },
        }
        k += 1;
    }
    assert(elements@.take(k as int) == elements@);
    Ok(ids)
}

impl ProjectCatalog {
    /// The instances and definitions that show the listed elements: for
    /// each element in turn, its instances in catalog order, each id once.
    pub fn stream_plan_for_element_ids(&self, element_ids: &[String]) -> (plan:
        WebProjectGeometryStreamPlan)
        ensures
            texts_of(plan.instance_ids@) == first_occurrences(
                instance_id_texts(instances_of_elements(self.instances@, texts_of(element_ids@))),
            ),
            texts_of(plan.definition_ids@) == first_occurrences(
                definition_id_texts(instances_of_elements(self.instances@, texts_of(element_ids@))),
            ),
    {
        let ghost insts = self.instances@;
        let ghost eids = texts_of(element_ids@);
        let mut seen_instances = TextSet::new();
        let mut seen_definitions = TextSet::new();
        let mut instance_ids: Vec<String> = Vec::new();
        let mut definition_ids: Vec<String> = Vec::new();
        let ghost mut visited: Seq<ProjectInstance> = Seq::empty();
        let mut e: usize = 0;
        assert(eids.take(0) =~= Seq::<Seq<char>>::empty());
        while e < element_ids.len()
            invariant
                e <= element_ids@.len(),
                insts == self.instances@,
                eids == texts_of(element_ids@),
                visited == instances_of_elements(insts, eids.take(e as int)),
                texts_of(instance_ids@) == first_occurrences(instance_id_texts(visited)),
                texts_of(definition_ids@) == first_occurrences(definition_id_texts(visited)),
                forall|t: Seq<char>| #[trigger]
                    seen_instances.contains(t) <==> instance_id_texts(visited).contains(t),
                forall|t: Seq<char>| #[trigger]
                    seen_definitions.contains(t) <==> definition_id_texts(visited).contains(t),
            decreases element_ids.len() - e,
        {
            let element_id = &element_ids[e];
            let ghost outer = visited;
            let mut j: usize = 0;
            assert(insts.take(0) =~= Seq::<ProjectInstance>::empty());
            while j < self.instances.len()
                invariant
                    j <= insts.len(),
                    e < element_ids@.len(),
                    insts == self.instances@,
                    eids == texts_of(element_ids@),
                    element_id@ == eids[e as int],
                    visited == outer + instances_of_element(insts.take(j as int), eids[e as int]),
                    texts_of(instance_ids@) == first_occurrences(instance_id_texts(visited)),
                    texts_of(definition_ids@) == first_occurrences(definition_id_texts(visited)),
                    forall|t: Seq<char>| #[trigger]
                        seen_instances.contains(t) <==> instance_id_texts(visited).contains(t),
                    forall|t: Seq<char>| #[trigger]
                        seen_definitions.contains(t) <==> definition_id_texts(visited).contains(t),
                decreases self.instances.len() - j,
            {
                let instance = &self.instances[j];
                assert(insts.take(j + 1).drop_last() == insts.take(j as int));
                assert(insts.take(j + 1).last() == *instance);
                if str_eq(instance.element_id.as_str(), element_id.as_str()) {
                    let ghost before = visited;
                    proof {
                        visited = visited.push(*instance);
                        assert(instance_id_texts(visited) =~= instance_id_texts(before).push(
                            instance.id@,
                        ));
                        assert(definition_id_texts(visited) =~= definition_id_texts(before).push(
                            instance.definition_id@,
                        ));
                        lemma_first_occurrences_push(instance_id_texts(before), instance.id@);
                        lemma_first_occurrences_push(
                            definition_id_texts(before),
                            instance.definition_id@,
                        );
                        lemma_seq_push_contains(instance_id_texts(before), instance.id@);
                        lemma_seq_push_contains(
                            definition_id_texts(before),
                            instance.definition_id@,
                        );
                    }
                    if seen_instances.insert(instance.id.as_str()) {
                        let ghost b = instance_ids@;
                        let id = instance.id.clone();
                        let ghost v = id@;
                        instance_ids.push(id);
                        assert(texts_of(instance_ids@) =~= texts_of(b).push(v));
                    }
                    if seen_definitions.insert(instance.definition_id.as_str()) {
                        let ghost b = definition_ids@;
                        let id = instance.definition_id.clone();
                        let ghost v = id@;
                        definition_ids.push(id);
                        assert(texts_of(definition_ids@) =~= texts_of(b).push(v));
                    }
                    assert(visited == outer + instances_of_element(
                        insts.take(j + 1),
                        eids[e as int],
                    ));
                }
                j += 1;
            }
            assert(insts.take(j as int) == insts);
            assert(eids.take(e + 1).drop_last() == eids.take(e as int));
            assert(eids.take(e + 1).last() == eids[e as int]);
            e += 1;
        }
        assert(eids.take(e as int) == eids);
        WebProjectGeometryStreamPlan { instance_ids, definition_ids }
    }
}

impl ProjectCatalog {
    /// The element ids a start view request resolves to.
    pub fn resolve_start_view(&self, request: &GeometryStartViewRequest) -> (r: Result<
        WebProjectResolvedStartView,
        String,
    >)
        ensures
            match start_view_outcome(self.elements@, *request) {
                Ok(ids) => r matches Ok(view) && texts_of(view.visible_element_ids@) == ids,
                Err(m) => r matches Err(e) && e@ == m,
            },
    {
        let visible_element_ids = match request {
            GeometryStartViewRequest::Default => self.default_start_view_element_ids()?,
            GeometryStartViewRequest::Minimal(max) => {
                let mut ids = self.default_start_view_element_ids()?;
                let ghost all = ids@;
                ids.truncate(*max);
                assert(texts_of(ids@) =~= if texts_of(all).len() <= *max {
                    texts_of(all)
                } else {
                    texts_of(all).take(*max as int)
                });
                ids
            },
            GeometryStartViewRequest::All => self.all_element_ids(),
            GeometryStartViewRequest::Elements(requested) => self.known_element_ids(requested),
        };
        Ok(WebProjectResolvedStartView { visible_element_ids })
    }

    fn known_element_ids(&self, requested: &Vec<String>) -> (ids: Vec<String>)
        ensures
            texts_of(ids@) == known_requested(texts_of(requested@), element_ids(self.elements@)),
    {
        let ghost known_ids = element_ids(self.elements@);
        let mut known = TextSet::new();
        let mut k: usize = 0;
        while k < self.elements.len()
            invariant
                k <= self.elements@.len(),
                known_ids == element_ids(self.elements@),
                forall|t: Seq<char>| #[trigger] known.contains(t) <==> known_ids.take(k as int).contains(t),
            decreases self.elements.len() - k,
        {
            known.insert(self.elements[k].id.as_str());
            proof {
                assert(known_ids.take(k + 1) == known_ids.take(k as int).push(known_ids[k as int]));
                lemma_seq_push_contains(known_ids.take(k as int), known_ids[k as int]);
            }
            k += 1;
        }
        assert(known_ids.take(k as int) == known_ids);
        let ghost texts = texts_of(requested@);
        let mut seen = TextSet::new();
        let mut ids: Vec<String> = Vec::new();
        let mut i: usize = 0;
        assert(texts.take(0) =~= Seq::<Seq<char>>::empty());
        while i < requested.len()
            invariant
                i <= requested@.len(),
                texts == texts_of(requested@),
                forall|t: Seq<char>| #[trigger] known.contains(t) <==> known_ids.contains(t),
                texts_of(ids@) == known_requested(texts.take(i as int), known_ids),
                forall|t: Seq<char>| #[trigger] seen.contains(t) <==> texts_of(ids@).contains(t),
            decreases requested.len() - i,
        {
            let id = &requested[i];
            assert(texts.take(i + 1).drop_last() == texts.take(i as int));
            assert(texts.take(i + 1).last() == id@);
            if known.has(id.as_str()) {
                let ghost before = texts_of(ids@);
                if seen.insert(id.as_str()) {
                    let ghost b = ids@;
                    let kept = id.clone();
                    let ghost v = kept@;
                    ids.push(kept);
                    assert(texts_of(ids@) =~= texts_of(b).push(v));
                    proof {
                        lemma_seq_push_contains(before, v);
                    }
                }
            }
            i += 1;
        }
        assert(texts.take(i as int) == texts);
        ids
    }

    /// The plan that streams the elements visible by default.
    pub fn default_start_view_stream_plan(&self) -> (r: Result<
        WebProjectGeometryStreamPlan,
        String,
    >)
        ensures
            match default_view_outcome(self.elements@) {
                Ok(ids) => r matches Ok(plan) && texts_of(plan.instance_ids@) == first_occurrences(
                    instance_id_texts(instances_of_elements(self.instances@, ids)),
                ) && texts_of(plan.definition_ids@) == first_occurrences(
                    definition_id_texts(instances_of_elements(self.instances@, ids)),
                ),
                Err(m) => r matches Err(e) && e@ == m,
            },
    {
        let visible = self.default_start_view_element_ids()?;
        Ok(self.stream_plan_for_element_ids(visible.as_slice()))
    }

    /// The plan that streams every element.
    pub fn all_visible_stream_plan(&self) -> (plan: WebProjectGeometryStreamPlan)
        ensures
            texts_of(plan.instance_ids@) == first_occurrences(
                instance_id_texts(instances_of_elements(self.instances@, element_ids(self.elements@))),
            ),
            texts_of(plan.definition_ids@) == first_occurrences(
                definition_id_texts(
                    instances_of_elements(self.instances@, element_ids(self.elements@)),
                ),
            ),
    {
        let all = self.all_element_ids();
        self.stream_plan_for_element_ids(all.as_slice())
    }
}

/// The instances of a member whose element is `element_id`, in order.
pub open spec fn member_instances_of_element(
    instances: Seq<CatalogInstance>,
    element_id: Seq<char>,
) -> Seq<CatalogInstance>
    decreases instances.len(),
{
    if instances.len() == 0 {
        Seq::empty()
    } else {
        let prev = member_instances_of_element(instances.drop_last(), element_id);
        if instances.last().element_id@ == element_id {
            prev.push(instances.last())
        } else {
            prev
        }
    }
}

/// The instances of each listed element of a member in turn.
pub open spec fn member_instances_of_elements(
    instances: Seq<CatalogInstance>,
    element_ids: Seq<Seq<char>>,
) -> Seq<CatalogInstance>
    decreases element_ids.len(),
{
    if element_ids.len() == 0 {
        Seq::empty()
    } else {
        member_instances_of_elements(instances, element_ids.drop_last())
            + member_instances_of_element(instances, element_ids.last())
    }
}

/// The instances of a member whose element is among `selected`, in order.
pub open spec fn selected_member_instances(
    instances: Seq<CatalogInstance>,
    selected: Seq<Seq<char>>,
) -> Seq<CatalogInstance>
    decreases instances.len(),
{
    if instances.len() == 0 {
        Seq::empty()
    } else {
        let prev = selected_member_instances(instances.drop_last(), selected);
        if selected.contains(instances.last().element_id@) {
            prev.push(instances.last())
        } else {
            prev
        }
    }
}

/// The instance ids of member instances.
pub open spec fn member_instance_ids(instances: Seq<CatalogInstance>) -> Seq<u64> {
    instances.map_values(|i: CatalogInstance| i.id)
}

/// The definition ids of member instances.
pub open spec fn member_definition_ids(instances: Seq<CatalogInstance>) -> Seq<u64> {
    instances.map_values(|i: CatalogInstance| i.definition_id)
}

impl MemberCatalog {
    /// The instances and definitions that show the listed elements: for
    /// each element in turn, its instances in catalog order, each id once.
    pub fn stream_plan_for_element_ids(&self, element_ids: &[String]) -> (plan:
        GeometryStreamPlan)
        ensures
            plan.instance_ids@ == first_occurrences(
                member_instance_ids(
                    member_instances_of_elements(self.instances@, texts_of(element_ids@)),
                ),
            ),
            plan.definition_ids@ == first_occurrences(
                member_definition_ids(
                    member_instances_of_elements(self.instances@, texts_of(element_ids@)),
                ),
            ),
    {
        broadcast use vstd::std_specs::hash::group_hash_axioms;

        let ghost insts = self.instances@;
        let ghost eids = texts_of(element_ids@);
        let mut seen_instances: std::collections::HashSet<u64> = std::collections::HashSet::new();
        let mut seen_definitions: std::collections::HashSet<u64> =
            std::collections::HashSet::new();
        let mut instance_ids: Vec<u64> = Vec::new();
        let mut definition_ids: Vec<u64> = Vec::new();
        let ghost mut visited: Seq<CatalogInstance> = Seq::empty();
        let mut e: usize = 0;
        assert(eids.take(0) =~= Seq::<Seq<char>>::empty());
        while e < element_ids.len()
            invariant
                e <= element_ids@.len(),
                insts == self.instances@,
                eids == texts_of(element_ids@),
                visited == member_instances_of_elements(insts, eids.take(e as int)),
                instance_ids@ == first_occurrences(member_instance_ids(visited)),
                definition_ids@ == first_occurrences(member_definition_ids(visited)),
                forall|v: u64| #[trigger]
                    seen_instances@.contains(v) <==> member_instance_ids(visited).contains(v),
                forall|v: u64| #[trigger]
                    seen_definitions@.contains(v) <==> member_definition_ids(visited).contains(v),
            decreases element_ids.len() - e,
        {
            let element_id = &element_ids[e];
            let ghost outer = visited;
            let mut j: usize = 0;
            assert(insts.take(0) =~= Seq::<CatalogInstance>::empty());
            while j < self.instances.len()
                invariant
                    j <= insts.len(),
                    e < element_ids@.len(),
                    insts == self.instances@,
                    eids == texts_of(element_ids@),
                    element_id@ == eids[e as int],
                    visited == outer + member_instances_of_element(
                        insts.take(j as int),
                        eids[e as int],
                    ),
                    instance_ids@ == first_occurrences(member_instance_ids(visited)),
                    definition_ids@ == first_occurrences(member_definition_ids(visited)),
                    forall|v: u64| #[trigger]
                        seen_instances@.contains(v) <==> member_instance_ids(visited).contains(v),
                    forall|v: u64| #[trigger]
                        seen_definitions@.contains(v) <==> member_definition_ids(visited).contains(
                            v,
                        ),
                decreases self.instances.len() - j,
            {
                let instance = &self.instances[j];
                assert(insts.take(j + 1).drop_last() == insts.take(j as int));
                assert(insts.take(j + 1).last() == *instance);
                if str_eq(instance.element_id.as_str(), element_id.as_str()) {
                    let ghost before = visited;
                    proof {
                        visited = visited.push(*instance);
                        assert(member_instance_ids(visited) =~= member_instance_ids(before).push(
                            instance.id,
                        ));
                        assert(member_definition_ids(visited) =~= member_definition_ids(
                            before,
                        ).push(instance.definition_id));
                        lemma_first_occurrences_push(member_instance_ids(before), instance.id);
                        lemma_first_occurrences_push(
                            member_definition_ids(before),
                            instance.definition_id,
                        );
                        lemma_seq_push_contains(member_instance_ids(before), instance.id);
                        lemma_seq_push_contains(
                            member_definition_ids(before),
                            instance.definition_id,
                        );
                    }
                    if seen_instances.insert(instance.id) {
                        instance_ids.push(instance.id);
                    }
                    if seen_definitions.insert(instance.definition_id) {
                        definition_ids.push(instance.definition_id);
                    }
                    assert(visited == outer + member_instances_of_element(
                        insts.take(j + 1),
                        eids[e as int],
                    ));
                }
                j += 1;
            }
            assert(insts.take(j as int) == insts);
            assert(eids.take(e + 1).drop_last() == eids.take(e as int));
            assert(eids.take(e + 1).last() == eids[e as int]);
            e += 1;
        }
        assert(eids.take(e as int) == eids);
        GeometryStreamPlan { instance_ids, definition_ids }
    }

    /// The plan that streams the member's elements visible by default.
    pub fn default_start_view_stream_plan(&self) -> (r: Result<GeometryStreamPlan, String>)
        ensures
            match default_view_outcome(self.elements@) {
                Ok(ids) => r matches Ok(plan) && plan.instance_ids@ == first_occurrences(
                    member_instance_ids(member_instances_of_elements(self.instances@, ids)),
                ) && plan.definition_ids@ == first_occurrences(
                    member_definition_ids(member_instances_of_elements(self.instances@, ids)),
                ),
                Err(m) => r matches Err(e) && e@ == m,
            },
    {
        let visible = default_visible_element_ids(&self.elements)?;
        Ok(self.stream_plan_for_element_ids(visible.as_slice()))
    }

    /// The ids of the member's instances whose element is selected, in
    /// catalog order.
    pub fn selected_instance_ids(&self, selected_element_ids: &[String]) -> (ids: Vec<u64>)
        ensures
            ids@ == member_instance_ids(
                selected_member_instances(self.instances@, texts_of(selected_element_ids@)),
            ),
    {
        let ghost insts = self.instances@;
        let ghost selected = texts_of(selected_element_ids@);
        let mut ids: Vec<u64> = Vec::new();
        let mut j: usize = 0;
        assert(insts.take(0) =~= Seq::<CatalogInstance>::empty());
        assert(member_instance_ids(Seq::<CatalogInstance>::empty()) =~= Seq::<u64>::empty());
        while j < self.instances.len()
            invariant
                j <= insts.len(),
                insts == self.instances@,
                selected == texts_of(selected_element_ids@),
                ids@ == member_instance_ids(selected_member_instances(insts.take(j as int), selected)),
            decreases self.instances.len() - j,
        {
            let instance = &self.instances[j];
            let ghost before = selected_member_instances(insts.take(j as int), selected);
            assert(insts.take(j + 1).drop_last() == insts.take(j as int));
            assert(insts.take(j + 1).last() == *instance);
            let mut k: usize = 0;
            let mut found = false;
            while k < selected_element_ids.len()
                invariant
                    k <= selected_element_ids@.len(),
                    selected == texts_of(selected_element_ids@),
                    found <==> exists|i: int| 0 <= i < k && selected[i] == instance.element_id@,
                decreases selected_element_ids.len() - k,
            {
                assert(selected[k as int] == selected_element_ids@[k as int]@);
                if str_eq(selected_element_ids[k].as_str(), instance.element_id.as_str()) {
                    found = true;
                }
                assert(found <==> exists|i: int| 0 <= i < k + 1 && selected[i] == instance.element_id@) by {
                    if exists|i: int| 0 <= i < k + 1 && selected[i] == instance.element_id@ {
                        let i = choose|i: int| 0 <= i < k + 1 && selected[i] == instance.element_id@;
                        if i < k {
                            assert(exists|i: int| 0 <= i < k && selected[i] == instance.element_id@);
                        }
                    }
                }
                k += 1;
            }
            proof {
                if selected.contains(instance.element_id@) {
                    let i = choose|i: int| 0 <= i < selected.len() && selected[i] == instance.element_id@;
                    assert(0 <= i < k && selected[i] == instance.element_id@);
                }
            }
            if found {
                ids.push(instance.id);
                assert(member_instance_ids(before.push(*instance)) =~= member_instance_ids(before).push(
                    instance.id,
                ));
            }
            j += 1;
        }
        assert(insts.take(j as int) == insts);
        ids
    }
}

/// The resource that a numbered scoped id text names.
pub open spec fn outcome_resource(text: Seq<char>) -> Seq<char> {
    numbered_id_outcome(text).unwrap().0
}

proof fn lemma_no_member_fault(members: Seq<ProjectMember>, n: int, k: int)
    requires
        0 <= k < n,
        composition_fault(members, n) is None,
    ensures
        member_fault(members, k) is None,
    decreases n,
{
    if k < n - 1 {
        lemma_no_member_fault(members, n - 1, k);
    }
}

proof fn lemma_definition_texts_name_members(members: Seq<ProjectMember>, n: int)
    requires
        0 <= n <= members.len(),
        forall|k: int| 0 <= k < n ==> is_scoping_resource(#[trigger] members[k].resource@),
    ensures
        forall|i: int|
            0 <= i < project_definition_texts(members, n).len() ==> {
                let t = #[trigger] project_definition_texts(members, n)[i];
                &&& numbered_id_outcome(t) is Some
                &&& exists|j: int|
                    0 <= j < n && #[trigger] members[j].resource@ == outcome_resource(t)
            },
    decreases n,
{
    if n > 0 {
        lemma_definition_texts_name_members(members, n - 1);
        let prev = project_definition_texts(members, n - 1);
        let m = members[n - 1];
        let own = scoped_number_texts(m.resource@, m.catalog.definition_ids@);
        let all = project_definition_texts(members, n);
        assert(all == prev + own);
        assert forall|i: int| 0 <= i < all.len() implies {
            let t = #[trigger] all[i];
            &&& numbered_id_outcome(t) is Some
            &&& exists|j: int| 0 <= j < n && #[trigger] members[j].resource@ == outcome_resource(t)
        } by {
            if i < prev.len() {
                assert(all[i] == prev[i]);
                let j = choose|j: int|
                    0 <= j < n - 1 && #[trigger] members[j].resource@ == outcome_resource(prev[i]);
                assert(members[j].resource@ == outcome_resource(all[i]));
            } else {
                let v = m.catalog.definition_ids@[i - prev.len()];
                assert(all[i] == own[i - prev.len()]);
                lemma_numbered_text_round_trip(m.resource@, v);
                assert(members[n - 1].resource@ == outcome_resource(all[i]));
            }
        }
    }
}

/// Composed definition ids never collide: when the members compose without
/// fault, their resources can scope ids, and each member lists each of its
/// own definition ids once, every scoped definition id of the project is
/// distinct, even where members share local ids.
pub proof fn lemma_project_definition_ids_distinct(members: Seq<ProjectMember>)
    requires
        composition_fault(members, members.len() as int) is None,
        forall|k: int| 0 <= k < members.len() ==> is_scoping_resource(#[trigger] members[k].resource@),
        forall|k: int|
            0 <= k < members.len() ==> (#[trigger] members[k].catalog.definition_ids@).no_duplicates(),
    ensures
        project_definition_texts(members, members.len() as int).no_duplicates(),
{
    lemma_project_definition_ids_distinct_upto(members, members.len() as int);
}

proof fn lemma_project_definition_ids_distinct_upto(members: Seq<ProjectMember>, n: int)
    requires
        0 <= n <= members.len(),
        composition_fault(members, members.len() as int) is None,
        forall|k: int| 0 <= k < members.len() ==> is_scoping_resource(#[trigger] members[k].resource@),
        forall|k: int|
            0 <= k < members.len() ==> (#[trigger] members[k].catalog.definition_ids@).no_duplicates(),
    ensures
        project_definition_texts(members, n).no_duplicates(),
    decreases n,
{
    if n > 0 {
        lemma_project_definition_ids_distinct_upto(members, n - 1);
        lemma_definition_texts_name_members(members, n - 1);
        lemma_no_member_fault(members, members.len() as int, n - 1);
        let prev = project_definition_texts(members, n - 1);
        let m = members[n - 1];
        let ids = m.catalog.definition_ids@;
        let own = scoped_number_texts(m.resource@, ids);
        let all = project_definition_texts(members, n);
        assert(all == prev + own);
        assert forall|a: int, b: int| 0 <= a < all.len() && 0 <= b < all.len() && a != b implies all[a] != all[b] by {
            if a >= prev.len() {
                lemma_numbered_text_round_trip(m.resource@, ids[a - prev.len()]);
            }
            if b >= prev.len() {
                lemma_numbered_text_round_trip(m.resource@, ids[b - prev.len()]);
            }
            if a < prev.len() && b < prev.len() {
                assert(all[a] == prev[a] && all[b] == prev[b]);
            } else if a >= prev.len() && b >= prev.len() {
                assert(all[a] == own[a - prev.len()]);
                assert(all[b] == own[b - prev.len()]);
                assert(ids[a - prev.len()] != ids[b - prev.len()]);
            } else if a < prev.len() {
                assert(all[a] == prev[a]);
                assert(all[b] == own[b - prev.len()]);
                let t = prev[a];
                let j = choose|j: int|
                    0 <= j < n - 1 && #[trigger] members[j].resource@ == outcome_resource(t);
                assert(members[j].resource@ != m.resource@);
            } else {
                assert(all[b] == prev[b]);
                assert(all[a] == own[a - prev.len()]);
                let t = prev[b];
                let j = choose|j: int|
                    0 <= j < n - 1 && #[trigger] members[j].resource@ == outcome_resource(t);
                assert(members[j].resource@ != m.resource@);
            }
        }
    }
}

/// Each id once: the first occurrences of a sequence hold every item of
/// it, and each only once.
pub proof fn lemma_first_occurrences_distinct<A>(items: Seq<A>)
    ensures
        first_occurrences(items).no_duplicates(),
        forall|x: A| #[trigger] first_occurrences(items).contains(x) <==> items.contains(x),
    decreases items.len(),
{
    if items.len() > 0 {
        let prefix = items.drop_last();
        let x = items.last();
        lemma_first_occurrences_distinct(prefix);
        lemma_seq_push_contains(prefix, x);
        assert(prefix.push(x) == items);
        let prev = first_occurrences(prefix);
        if !prefix.contains(x) {
            lemma_seq_push_contains(prev, x);
            assert forall|i: int, j: int|
                0 <= i < prev.push(x).len() && 0 <= j < prev.push(x).len() && i != j implies prev.push(
                x,
            )[i] != prev.push(x)[j] by {
                if i < prev.len() && j < prev.len() {
                } else if i < prev.len() {
                    assert(prev.contains(prev[i]));
                } else {
                    assert(prev.contains(prev[j]));
                }
            }
        }
    }
}

/// A listed start view names only elements the catalog knows, each once,
/// and only elements that were asked for.
pub proof fn lemma_known_requested_distinct(requested: Seq<Seq<char>>, known: Seq<Seq<char>>)
    ensures
        known_requested(requested, known).no_duplicates(),
        forall|x: Seq<char>| #[trigger]
            known_requested(requested, known).contains(x) <==> (known.contains(x)
                && requested.contains(x)),
    decreases requested.len(),
{
    if requested.len() > 0 {
        let prefix = requested.drop_last();
        let id = requested.last();
        lemma_known_requested_distinct(prefix, known);
        lemma_seq_push_contains(prefix, id);
        assert(prefix.push(id) == requested);
        let prev = known_requested(prefix, known);
        if known.contains(id) && !prev.contains(id) {
            lemma_seq_push_contains(prev, id);
            assert forall|i: int, j: int|
                0 <= i < prev.push(id).len() && 0 <= j < prev.push(id).len() && i != j implies prev.push(
                id,
            )[i] != prev.push(id)[j] by {
                if i < prev.len() && j < prev.len() {
                } else if i < prev.len() {
                    assert(prev.contains(prev[i]));
                } else {
                    assert(prev.contains(prev[j]));
                }
            }
        }
    }
}

/// What a sequence holds after a push.
pub proof fn lemma_seq_push_contains<A>(items: Seq<A>, x: A)
    ensures
        forall|y: A| #[trigger] items.push(x).contains(y) <==> (items.contains(y) || y == x),
{
    assert forall|y: A| #[trigger] items.push(x).contains(y) <==> (items.contains(y) || y == x) by {
        if items.contains(y) {
            let i = choose|i: int| 0 <= i < items.len() && items[i] == y;
            assert(items.push(x)[i] == y);
        }
        if y == x {
            assert(items.push(x)[items.len() as int] == y);
        }
        if items.push(x).contains(y) && y != x {
            let i = choose|i: int| 0 <= i < items.len() + 1 && items.push(x)[i] == y;
            assert(items[i] == y);
        }
    }
}

proof fn lemma_default_view_failure_persists(elements: Seq<CatalogElement>, k: int)
    requires
        0 <= k <= elements.len(),
        default_view_outcome(elements.take(k)) is Err,
    ensures
        default_view_outcome(elements) == default_view_outcome(elements.take(k)),
    decreases elements.len() - k,
{
    if k < elements.len() {
        assert(elements.take(k + 1).drop_last() == elements.take(k));
        lemma_default_view_failure_persists(elements, k + 1);
    } else {
        assert(elements.take(k) == elements);
    }
}

} // verus!
