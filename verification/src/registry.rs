//! The registry of enabled tools that MCP clients see, kept in name order.
use vstd::prelude::*;

use crate::json::{json_view, JsonValue, JsonView};
use crate::schema::{input_schema, input_schema_map};
use crate::text::{chars_of, lemma_text_less_irreflexive, lemma_text_less_total, lemma_text_less_transitive, str_eq, text_less, text_lt};
use crate::tool::Tool;

verus! {

/// A tool as the registry offers it.
#[derive(Debug)]
pub struct RegisteredTool {
    pub id: u128,
    pub name: String,
    pub description: String,
    pub input_schema: JsonValue,
}

/// A registered tool by its meaning: id, name, description and schema.
pub type RegisteredView = (u128, Seq<char>, Seq<char>, JsonView);

/// The meaning of a registered tool.
pub open spec fn registered_view(t: RegisteredTool) -> RegisteredView {
    (t.id, t.name@, t.description@, json_view(t.input_schema))
}

/// What a stored tool is registered as.
pub open spec fn registered_from(t: Tool) -> RegisteredView {
    (
        t.id,
        t.name@,
        t.description@,
        JsonView::Object(input_schema_map(t.parameters@, t.working_dir_expose, t.working_dir_required)),
    )
}

/// What a stored tool is registered as.
pub fn registered_tool_from_tool(tool: &Tool) -> (r: RegisteredTool)
    ensures
        registered_view(r) == registered_from(*tool),
{
    RegisteredTool {
        id: tool.id,
        name: tool.name.clone(),
        description: tool.description.clone(),
        input_schema: input_schema(tool),
    }
}

impl RegisteredTool {
    /// A copy of the registered tool.
    pub fn duplicate(&self) -> (r: RegisteredTool)
        ensures
            registered_view(r) == registered_view(*self),
    {
        RegisteredTool {
            id: self.id,
            name: self.name.clone(),
            description: self.description.clone(),
            input_schema: self.input_schema.duplicate(),
        }
    }
}

/// The last of `tools` that has the name `k`, registered.
pub open spec fn last_registered(tools: Seq<Tool>, k: Seq<char>) -> Option<RegisteredView>
    decreases tools.len(),
{
    if tools.len() == 0 {
        None
    } else if tools.last().name@ == k {
        Some(registered_from(tools.last()))
    } else {
        last_registered(tools.drop_last(), k)
    }
}

/// The entry of `v` with the name `k` (the last one, if there were more).
pub open spec fn lookup(v: Seq<RegisteredView>, k: Seq<char>) -> Option<RegisteredView>
    decreases v.len(),
{
    if v.len() == 0 {
        None
    } else if v.last().1 == k {
        Some(v.last())
    } else {
        lookup(v.drop_last(), k)
    }
}

/// Entries in strictly increasing name order.
pub open spec fn sorted_by_name(v: Seq<RegisteredView>) -> bool {
    forall|i: int, j: int| 0 <= i < j < v.len() ==> text_less(#[trigger] v[i].1, #[trigger] v[j].1)
}

/// In entries sorted by name, the entry with name `k` is the one at the
/// index that has it.
pub proof fn lemma_lookup_sorted(v: Seq<RegisteredView>, k: Seq<char>)
    requires
        sorted_by_name(v),
    ensures
        forall|i: int| 0 <= i < v.len() && v[i].1 == k ==> lookup(v, k) == Some(v[i]),
        (forall|i: int| 0 <= i < v.len() ==> v[i].1 != k) ==> lookup(v, k) is None,
    decreases v.len(),
{
    if v.len() > 0 {
        let d = v.drop_last();
        assert(sorted_by_name(d)) by {
            assert forall|i: int, j: int| 0 <= i < j < d.len() implies text_less(#[trigger] d[i].1, #[trigger] d[j].1) by {
                assert(d[i] == v[i] && d[j] == v[j]);
            }
        }
        lemma_lookup_sorted(d, k);
        assert forall|i: int| 0 <= i < v.len() && v[i].1 == k implies lookup(v, k) == Some(v[i]) by {
            if i < v.len() - 1 {
                assert(text_less(v[i].1, v[v.len() - 1].1));
                if v.last().1 == k {
                    lemma_text_less_irreflexive(k);
                }
                assert(d[i] == v[i]);
            }
        }
        if forall|i: int| 0 <= i < v.len() ==> v[i].1 != k {
            assert forall|i: int| 0 <= i < d.len() implies d[i].1 != k by {
                assert(d[i] == v[i]);
            }
        }
    }
}

/// What the registry tells its subscribers.
#[derive(Debug, Clone, Copy, PartialEq, Eq, Structural)]
pub enum RegistryNotification {
    ToolsListChanged,
}

impl RegistryNotification {
    /// The name under which the notification is sent (also its event name).
    pub fn as_str(&self) -> (r: &'static str)
        ensures
            r@ == "tools_list_changed"@,
    {
        match self {
            RegistryNotification::ToolsListChanged => "tools_list_changed",
        }
    }
}

/// The registry of enabled tools, kept sorted by name.
pub struct ToolRegistry {
    tools: Vec<RegisteredTool>,
}

/// The meanings of a list of registered tools.
pub open spec fn registered_views(v: Seq<RegisteredTool>) -> Seq<RegisteredView> {
    v.map_values(|t: RegisteredTool| registered_view(t))
}

impl ToolRegistry {
    #[verifier::type_invariant]
    spec fn sorted(self) -> bool {
        sorted_by_name(registered_views(self.tools@))
    }

    /// The registered tools, in name order.
    pub closed spec fn view(self) -> Seq<RegisteredView> {
        registered_views(self.tools@)
    }

    /// An empty registry.
    pub fn new() -> (r: ToolRegistry)
        ensures
            r.view() == Seq::<RegisteredView>::empty(),
    {
        let r = ToolRegistry { tools: Vec::new() };
        assert(registered_views(r.tools@) =~= Seq::<RegisteredView>::empty());
        r
    }

    /// Replaces the registry's content with the given tools: each name
    /// stands for the last tool that has it.
    pub fn sync_from_tools(&mut self, tools: &Vec<Tool>)
        ensures
            sorted_by_name(final(self).view()),
            forall|k: Seq<char>| #[trigger] lookup(final(self).view(), k) == last_registered(tools@, k),
    {
        let mut next: Vec<RegisteredTool> = Vec::new();
        assert(registered_views(next@) =~= Seq::<RegisteredView>::empty());
        let mut n: usize = 0;
        while n < tools.len()
            invariant
                n <= tools@.len(),
                sorted_by_name(registered_views(next@)),
                forall|k: Seq<char>| #[trigger] lookup(registered_views(next@), k) == last_registered(
                    tools@.subrange(0, n as int),
                    k,
                ),
            decreases tools@.len() - n,
        {
            let entry = registered_tool_from_tool(&tools[n]);
            insert_sorted(&mut next, entry);
            proof {
                let pre = tools@.subrange(0, n + 1);
                assert(pre.drop_last() =~= tools@.subrange(0, n as int));
                assert(pre.last() == tools@[n as int]);
            }
            n = n + 1;
        }
        assert(tools@.subrange(0, tools@.len() as int) =~= tools@);
        self.tools = next;
    }

    /// All registered tools, in name order (copies).
    pub fn list_tools(&self) -> (r: Vec<RegisteredTool>)
        ensures
            registered_views(r@) == self.view(),
            sorted_by_name(registered_views(r@)),
    {
        proof {
            use_type_invariant(self);
        }
        let mut r: Vec<RegisteredTool> = Vec::new();
        let mut i: usize = 0;
        while i < self.tools.len()
            invariant
                i <= self.tools@.len(),
                r@.len() == i,
                forall|k: int| 0 <= k < i ==> registered_view(#[trigger] r@[k]) == registered_view(self.tools@[k]),
            decreases self.tools@.len() - i,
        {
            r.push(self.tools[i].duplicate());
            i = i + 1;
        }
        assert(registered_views(r@) =~= registered_views(self.tools@));
        r
    }

    /// The registered tool with the given name (a copy).
    pub fn get_by_name(&self, name: &str) -> (r: Option<RegisteredTool>)
        ensures
            match r {
                Some(t) => lookup(self.view(), name@) == Some(registered_view(t)),
                None => lookup(self.view(), name@) is None,
            },
    {
        proof {
            use_type_invariant(self);
            lemma_lookup_sorted(self.view(), name@);
        }
        let mut i: usize = 0;
        while i < self.tools.len()
            invariant
                i <= self.tools@.len(),
                forall|k: int| 0 <= k < i ==> self.tools@[k].name@ != name@,
                forall|j: int|
                    0 <= j < self.view().len() && self.view()[j].1 == name@ ==> lookup(self.view(), name@)
                        == Some(#[trigger] self.view()[j]),
            decreases self.tools@.len() - i,
        {
            if str_eq(self.tools[i].name.as_str(), name) {
                assert(self.view()[i as int] == registered_view(self.tools@[i as int]));
                return Some(self.tools[i].duplicate());
            }
            i = i + 1;
        }
        assert forall|k: int| 0 <= k < self.view().len() implies self.view()[k].1 != name@ by {
            assert(self.view()[k].1 == self.tools@[k].name@);
        }
        None
    }
}

/// Adds `entry` to `v`, sorted by name, replacing the entry of the same
/// name if there is one.
fn insert_sorted(v: &mut Vec<RegisteredTool>, entry: RegisteredTool)
    requires
        sorted_by_name(registered_views(old(v)@)),
    ensures
        sorted_by_name(registered_views(final(v)@)),
        forall|k: Seq<char>| #[trigger] lookup(registered_views(final(v)@), k) == if k == entry.name@ {
            Some(registered_view(entry))
        } else {
            lookup(registered_views(old(v)@), k)
        },
{
    let ghost old_views = registered_views(v@);
    let ghost e = registered_view(entry);
    let name_chars = chars_of(entry.name.as_str());
    let mut p: usize = 0;
    while p < v.len() && text_lt(&chars_of(v[p].name.as_str()), &name_chars)
        invariant
            p <= v@.len(),
            name_chars@ == entry.name@,
            old_views == registered_views(v@),
            forall|i: int| 0 <= i < p ==> text_less(#[trigger] old_views[i].1, entry.name@),
        decreases v@.len() - p,
    {
        p = p + 1;
    }
    proof {
        lemma_lookup_sorted(old_views, e.1);
    }
    if p < v.len() && str_eq(v[p].name.as_str(), entry.name.as_str()) {
        v.set(p, entry);
        let ghost nv = registered_views(v@);
        proof {
            assert(nv =~= old_views.update(p as int, e));
            assert(sorted_by_name(nv)) by {
                assert forall|i: int, j: int| 0 <= i < j < nv.len() implies text_less(#[trigger] nv[i].1, #[trigger] nv[j].1) by {
                    assert(old_views[p as int].1 == e.1);
                    if i == p {
                        assert(text_less(old_views[i].1, old_views[j].1));
                    } else if j == p {
                        assert(text_less(old_views[i].1, old_views[j].1));
                    } else {
                        assert(text_less(old_views[i].1, old_views[j].1));
                    }
                }
            }
            lemma_lookup_sorted(nv, e.1);
            assert forall|k: Seq<char>| #[trigger] lookup(nv, k) == if k == e.1 { Some(e) } else { lookup(old_views, k) } by {
                lemma_lookup_sorted(nv, k);
                lemma_lookup_sorted(old_views, k);
                if k == e.1 {
                    assert(nv[p as int] == e);
                } else {
                    if exists|i: int| 0 <= i < old_views.len() && old_views[i].1 == k {
                        let i = choose|i: int| 0 <= i < old_views.len() && old_views[i].1 == k;
                        assert(i != p);
                        assert(nv[i] == old_views[i]);
                    } else {
                        assert forall|i: int| 0 <= i < nv.len() implies nv[i].1 != k by {
                            if i != p {
                                assert(nv[i] == old_views[i]);
                            }
                        }
                    }
                }
            }
        }
    } else {
        proof {
            if p < old_views.len() {
                lemma_text_less_total(old_views[p as int].1, e.1);
            }
        }
        v.insert(p, entry);
        let ghost nv = registered_views(v@);
        proof {
            assert(nv =~= old_views.insert(p as int, e));
            assert(sorted_by_name(nv)) by {
                assert forall|i: int, j: int| 0 <= i < j < nv.len() implies text_less(#[trigger] nv[i].1, #[trigger] nv[j].1) by {
                    if j < p {
                        assert(nv[i] == old_views[i] && nv[j] == old_views[j]);
                    } else if j == p {
                        assert(nv[i] == old_views[i]);
                    } else if i == p {
                        assert(nv[j] == old_views[j - 1]);
                        if j - 1 > p {
                            assert(text_less(old_views[p as int].1, old_views[j - 1].1));
                            lemma_text_less_transitive(e.1, old_views[p as int].1, old_views[j - 1].1);
                        }
                    } else if i < p {
                        assert(nv[i] == old_views[i] && nv[j] == old_views[j - 1]);
                        if i < j - 1 {
                            assert(text_less(old_views[i].1, old_views[j - 1].1));
                        } else {
                            assert(text_less(old_views[i].1, e.1));
                            assert(j - 1 == i);
                            assert(false);
                        }
                    } else {
                        assert(nv[i] == old_views[i - 1] && nv[j] == old_views[j - 1]);
                    }
                }
            }
            assert forall|k: Seq<char>| #[trigger] lookup(nv, k) == if k == e.1 { Some(e) } else { lookup(old_views, k) } by {
                lemma_lookup_sorted(nv, k);
                lemma_lookup_sorted(old_views, k);
                if k == e.1 {
                    assert(nv[p as int] == e);
                } else {
                    if exists|i: int| 0 <= i < old_views.len() && old_views[i].1 == k {
                        let i = choose|i: int| 0 <= i < old_views.len() && old_views[i].1 == k;
                        if i < p {
                            assert(nv[i] == old_views[i]);
                        } else {
                            assert(nv[i + 1] == old_views[i]);
                        }
                    } else {
                        assert forall|i: int| 0 <= i < nv.len() implies nv[i].1 != k by {
                            if i < p {
                                assert(nv[i] == old_views[i]);
                            } else if i > p {
                                assert(nv[i] == old_views[i - 1]);
                            }
                        }
                    }
                }
            }
        }
    }
}

/// No two of the tools share a name.
pub open spec fn distinct_names(tools: Seq<Tool>) -> bool {
    forall|i: int, j: int| 0 <= i < j < tools.len() ==> #[trigger] tools[i].name@ != #[trigger] tools[j].name@
}

/// Among tools with distinct names, the tool named `k` is the one
/// registered under `k`, and nothing is when no tool has that name.
proof fn lemma_last_registered_distinct(tools: Seq<Tool>, k: Seq<char>)
    requires
        distinct_names(tools),
    ensures
        forall|i: int|
            0 <= i < tools.len() && #[trigger] tools[i].name@ == k ==> last_registered(tools, k) == Some(
                registered_from(tools[i]),
            ),
        last_registered(tools, k) is Some ==> exists|i: int| 0 <= i < tools.len() && #[trigger] tools[i].name@ == k,
    decreases tools.len(),
{
    if tools.len() > 0 {
        let d = tools.drop_last();
        let n = tools.len() - 1;
        assert(distinct_names(d)) by {
            assert forall|i: int, j: int| 0 <= i < j < d.len() implies #[trigger] d[i].name@ != #[trigger] d[j].name@ by {
                assert(d[i] == tools[i] && d[j] == tools[j]);
            }
        }
        lemma_last_registered_distinct(d, k);
        assert forall|i: int| 0 <= i < tools.len() && #[trigger] tools[i].name@ == k implies last_registered(tools, k)
            == Some(registered_from(tools[i])) by {
            if i < n {
                assert(d[i] == tools[i]);
                assert(tools[i].name@ != tools[n].name@);
            }
        }
        if last_registered(tools, k) is Some {
            if tools[n].name@ != k {
                let i = choose|i: int| 0 <= i < d.len() && #[trigger] d[i].name@ == k;
                assert(d[i] == tools[i]);
            }
        }
    }
}

/// Whether the registration of `t` is among the entries `v`.
pub open spec fn listed(v: Seq<RegisteredView>, t: Tool) -> bool {
    exists|j: int| 0 <= j < v.len() && v[j] == registered_from(t)
}

/// Whether `e` is the registration of one of `tools`.
pub open spec fn registration_of_some(tools: Seq<Tool>, e: RegisteredView) -> bool {
    exists|i: int| 0 <= i < tools.len() && e == registered_from(tools[i])
}

/// Each tool's registration is among the entries.
proof fn lemma_each_tool_listed(v: Seq<RegisteredView>, tools: Seq<Tool>)
    requires
        sorted_by_name(v),
        forall|k: Seq<char>| #[trigger] lookup(v, k) == last_registered(tools, k),
        distinct_names(tools),
    ensures
        forall|i: int| 0 <= i < tools.len() ==> listed(v, #[trigger] tools[i]),
{
    assert forall|i: int| 0 <= i < tools.len() implies listed(v, #[trigger] tools[i]) by {
        let k = tools[i].name@;
        lemma_last_registered_distinct(tools, k);
        lemma_lookup_sorted(v, k);
        assert(lookup(v, k) == last_registered(tools, k));
        if forall|j: int| 0 <= j < v.len() ==> v[j].1 != k {
            assert(lookup(v, k) is None);
        }
        let j = choose|j: int| 0 <= j < v.len() && v[j].1 == k;
        assert(lookup(v, k) == Some(v[j]));
    }
}

/// Every entry is the registration of one of the tools.
proof fn lemma_each_entry_registered(v: Seq<RegisteredView>, tools: Seq<Tool>)
    requires
        sorted_by_name(v),
        forall|k: Seq<char>| #[trigger] lookup(v, k) == last_registered(tools, k),
        distinct_names(tools),
    ensures
        forall|j: int| 0 <= j < v.len() ==> registration_of_some(tools, #[trigger] v[j]),
{
    assert forall|j: int| 0 <= j < v.len() implies registration_of_some(tools, #[trigger] v[j]) by {
        let k = v[j].1;
        lemma_last_registered_distinct(tools, k);
        lemma_lookup_sorted(v, k);
        assert(lookup(v, k) == last_registered(tools, k));
        let i = choose|i: int| 0 <= i < tools.len() && #[trigger] tools[i].name@ == k;
        assert(last_registered(tools, k) == Some(registered_from(tools[i])));
    }
}

/// The names of entries sorted by name occur once each.
proof fn lemma_sorted_names_unique(v: Seq<RegisteredView>)
    requires
        sorted_by_name(v),
    ensures
        v.map_values(|e: RegisteredView| e.1).no_duplicates(),
{
    let vn = v.map_values(|e: RegisteredView| e.1);
    assert forall|a: int, b: int| 0 <= a < vn.len() && 0 <= b < vn.len() && a != b implies vn[a] != vn[b] by {
        lemma_text_less_irreflexive(vn[a]);
        if a < b {
            assert(text_less(v[a].1, v[b].1));
        } else {
            assert(text_less(v[b].1, v[a].1));
        }
    }
}

/// The names of tools with distinct names occur once each.
proof fn lemma_distinct_names_unique(tools: Seq<Tool>)
    requires
        distinct_names(tools),
    ensures
        tools.map_values(|t: Tool| t.name@).no_duplicates(),
{
    let tn = tools.map_values(|t: Tool| t.name@);
    assert forall|a: int, b: int| 0 <= a < tn.len() && 0 <= b < tn.len() && a != b implies tn[a] != tn[b] by {
        if a < b {
            assert(tools[a].name@ != tools[b].name@);
        } else {
            assert(tools[b].name@ != tools[a].name@);
        }
    }
}

/// Entries and tools correspond one to one, so they are as many.
proof fn lemma_as_many_entries_as_tools(v: Seq<RegisteredView>, tools: Seq<Tool>)
    requires
        sorted_by_name(v),
        distinct_names(tools),
        forall|i: int| 0 <= i < tools.len() ==> listed(v, #[trigger] tools[i]),
        forall|j: int| 0 <= j < v.len() ==> registration_of_some(tools, #[trigger] v[j]),
    ensures
        v.len() == tools.len(),
{
    let vn = v.map_values(|e: RegisteredView| e.1);
    let tn = tools.map_values(|t: Tool| t.name@);
    lemma_sorted_names_unique(v);
    lemma_distinct_names_unique(tools);
    vn.unique_seq_to_set();
    tn.unique_seq_to_set();
    assert forall|x: Seq<char>| vn.to_set().contains(x) implies tn.to_set().contains(x) by {
        let j = choose|j: int| 0 <= j < vn.len() && vn[j] == x;
        assert(registration_of_some(tools, v[j]));
        let i = choose|i: int| 0 <= i < tools.len() && v[j] == registered_from(tools[i]);
        assert(tn[i] == x);
    }
    assert forall|x: Seq<char>| tn.to_set().contains(x) implies vn.to_set().contains(x) by {
        let i = choose|i: int| 0 <= i < tn.len() && tn[i] == x;
        assert(listed(v, tools[i]));
        let j = choose|j: int| 0 <= j < v.len() && v[j] == registered_from(tools[i]);
        assert(vn[j] == x);
    }
    assert(vn.to_set() =~= tn.to_set());
}

/// After the registry is filled from tools whose names are distinct, it
/// holds one entry per tool: each tool's registration is there, every
/// entry is the registration of one of the tools, there are as many
/// entries as tools, and they come in strictly increasing name order.
/// The requirements on `v` are what `sync_from_tools` ensures of the
/// registry's view, which `list_tools` hands out.
pub proof fn lemma_registry_one_entry_per_tool(v: Seq<RegisteredView>, tools: Seq<Tool>)
    requires
        sorted_by_name(v),
        forall|k: Seq<char>| #[trigger] lookup(v, k) == last_registered(tools, k),
        distinct_names(tools),
    ensures
        v.len() == tools.len(),
        forall|i: int| 0 <= i < tools.len() ==> listed(v, #[trigger] tools[i]),
        forall|j: int| 0 <= j < v.len() ==> registration_of_some(tools, #[trigger] v[j]),
{
    lemma_each_tool_listed(v, tools);
    lemma_each_entry_registered(v, tools);
    lemma_as_many_entries_as_tools(v, tools);
}

} // verus!
