//! The groups of renders that clients have asked to draw, kept by group id in an `AHashMap`.
use crate::render::{Render, RenderMessage, RenderMessageView, RenderView};
use ahash::AHashMap;
use vstd::prelude::*;

verus! {

#[verifier::external_type_specification]
#[verifier::external_body]
pub struct ExAhashRandomState(ahash::RandomState);

#[verifier::external_type_specification]
#[verifier::external_body]
#[verifier::reject_recursive_types(K)]
#[verifier::reject_recursive_types(V)]
#[verifier::reject_recursive_types(S)]
pub struct ExAHashMap<K, V, S>(AHashMap<K, V, S>);

/// What a map of render groups holds: each group id with its renders as values.
pub uninterp spec fn group_contents(m: AHashMap<i32, Vec<Render>>) -> Map<i32, Seq<RenderView>>;

/// No groups at all.
pub open spec fn no_groups() -> Map<i32, Seq<RenderView>> {
    Map::empty()
}

/// The renders of `v` as values.
pub open spec fn renders_view(v: Vec<Render>) -> Seq<RenderView> {
    v@.map_values(|r: Render| r@)
}

/// `AHashMap::new`: a map that holds nothing.
#[verifier::external_body]
fn groups_new() -> (r: AHashMap<i32, Vec<Render>>)
    ensures
        group_contents(r) == no_groups(),
{
    AHashMap::new()
}

/// `AHashMap::insert`: afterwards `id` holds `renders`, in place of what it held before, and
/// every other id holds what it held.
#[verifier::external_body]
fn groups_insert(m: &mut AHashMap<i32, Vec<Render>>, id: i32, renders: Vec<Render>)
    ensures
        group_contents(*final(m)) == group_contents(*old(m)).insert(id, renders_view(renders)),
{
    m.insert(id, renders);
}

/// `AHashMap::remove`: afterwards `id` holds nothing, and every other id holds what it held.
#[verifier::external_body]
fn groups_remove(m: &mut AHashMap<i32, Vec<Render>>, id: i32)
    ensures
        group_contents(*final(m)) == group_contents(*old(m)).remove(id),
{
    m.remove(&id);
}

/// `HashMap::clear`, reached through `AHashMap`'s `DerefMut`: afterwards the map holds nothing.
#[verifier::external_body]
fn groups_clear(m: &mut AHashMap<i32, Vec<Render>>)
    ensures
        group_contents(*final(m)) == no_groups(),
{
    m.clear();
}

/// `AHashMap::get`: the renders that `id` holds, if it holds any.
#[verifier::external_body]
fn groups_get(m: &AHashMap<i32, Vec<Render>>, id: i32) -> (r: Option<&Vec<Render>>)
    ensures
        r is None <==> !group_contents(*m).contains_key(id),
        r matches Some(v) ==> group_contents(*m)[id] == renders_view(*v),
{
    m.get(&id)
}

/// The render groups to draw, by group id.
pub struct RenderGroups {
    pub groups: AHashMap<i32, Vec<Render>>,
}

/// The groups after `msg` is applied: an added group takes the place of any group with its id,
/// a removal drops the group with its id.
pub open spec fn applied(groups: Map<i32, Seq<RenderView>>, msg: RenderMessageView) -> Map<
    i32,
    Seq<RenderView>,
> {
    match msg {
        RenderMessageView::AddRender(id, renders) => groups.insert(id, renders),
        RenderMessageView::RemoveRender(id) => groups.remove(id),
    }
}

impl RenderGroups {
    /// The groups held, by id.
    pub open spec fn contents(&self) -> Map<i32, Seq<RenderView>> {
        group_contents(self.groups)
    }

    /// No groups.
    pub fn new() -> (r: Self)
        ensures
            r.contents() == no_groups(),
    {
        RenderGroups { groups: groups_new() }
    }

    /// Applies a request to add or remove a group.
    pub fn apply(&mut self, msg: RenderMessage)
        ensures
            final(self).contents() == applied(old(self).contents(), msg@),
    {
        match msg {
            RenderMessage::AddRender(id, renders) => {
                groups_insert(&mut self.groups, id, renders);
            },
            RenderMessage::RemoveRender(id) => {
                groups_remove(&mut self.groups, id);
            },
        }
    }

    /// Drops every group, as when drawing is switched off.
    pub fn clear(&mut self)
        ensures
            final(self).contents() == no_groups(),
    {
        groups_clear(&mut self.groups);
    }

    /// The renders of group `id`, if there is such a group.
    pub fn group(&self, id: i32) -> (r: Option<&Vec<Render>>)
        ensures
            r is None <==> !self.contents().contains_key(id),
            r matches Some(v) ==> self.contents()[id] == renders_view(*v),
    {
        groups_get(&self.groups, id)
    }
}

impl Default for RenderGroups {
    fn default() -> (r: Self)
        ensures
            r.contents() == no_groups(),
    {
        Self::new()
    }
}

/// What a read gives back of a write: after a group is added its renders are found under its
/// id, after a removal nothing is, and no other group changes either way.
pub proof fn lemma_apply_then_lookup(groups: Map<i32, Seq<RenderView>>, msg: RenderMessageView, other: i32)
    ensures
        msg matches RenderMessageView::AddRender(id, renders) ==> applied(groups, msg).contains_key(id)
            && applied(groups, msg)[id] == renders,
        msg matches RenderMessageView::RemoveRender(id) ==> !applied(groups, msg).contains_key(id),
        (msg matches RenderMessageView::AddRender(id, _) && other != id) || (
        msg matches RenderMessageView::RemoveRender(id) && other != id) ==> (applied(
            groups,
            msg,
        ).contains_key(other) == groups.contains_key(other) && (groups.contains_key(other)
            ==> applied(groups, msg)[other] == groups[other])),
{
}

/// A removal undoes an addition of a group with a new id, and a second addition under the same
/// id replaces the first.
pub proof fn lemma_add_remove(groups: Map<i32, Seq<RenderView>>, id: i32, a: Seq<RenderView>, b: Seq<RenderView>)
    ensures
        !groups.contains_key(id) ==> applied(
            applied(groups, RenderMessageView::AddRender(id, a)),
            RenderMessageView::RemoveRender(id),
        ) == groups,
        applied(
            applied(groups, RenderMessageView::AddRender(id, a)),
            RenderMessageView::AddRender(id, b),
        ) == applied(groups, RenderMessageView::AddRender(id, b)),
{
    if !groups.contains_key(id) {
        assert(groups.insert(id, a).remove(id) =~= groups);
    }
    assert(groups.insert(id, a).insert(id, b) =~= groups.insert(id, b));
}

} // verus!
