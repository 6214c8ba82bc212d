//! The project: root aggregate and name lookups.
//!
//! A project holds components, groups, services, and project-level tasks,
//! together with a global environment and the root directory all relative
//! component paths resolve against.  Lookups by name are case-insensitive
//! and first-match-wins, in declaration order.

use crate::component::{has_any_tag, Component, ComponentView};
use crate::env::EnvMap;
use crate::group::{Group, GroupView};
use crate::names::{eq_ignore_case, name_matches};
use crate::service::{clone_services, Service, ServiceView};
use crate::task::{Task, TaskView};
use crate::util::{first_match, lemma_first_match_found, lemma_first_match_none};
use vstd::prelude::*;
use vstd::string::StringExecFns;

verus! {

/// The root aggregate of a project description.
pub struct Project {
    pub name: String,
    pub components: Vec<Component>,
    pub groups: Vec<Group>,
    pub services: Vec<Service>,
    pub tasks: Vec<Task>,
    pub env: EnvMap,
    pub root_path: String,
}

/// The mathematical shape of a [`Project`].
pub struct ProjectView {
    pub name: Seq<char>,
    pub components: Seq<ComponentView>,
    pub groups: Seq<GroupView>,
    pub services: Seq<ServiceView>,
    pub tasks: Seq<TaskView>,
    pub env: Seq<(Seq<char>, Seq<char>)>,
    pub root_path: Seq<char>,
}

impl View for Project {
    type V = ProjectView;

    open spec fn view(&self) -> ProjectView {
        ProjectView {
            name: self.name@,
            components: self.components.deep_view(),
            groups: self.groups.deep_view(),
            services: self.services.deep_view(),
            tasks: self.tasks.deep_view(),
            env: self.env@,
            root_path: self.root_path@,
        }
    }
}

/// The first service whose name matches `name`, ignoring case.
pub open spec fn find_service_spec(p: ProjectView, name: Seq<char>) -> Option<ServiceView> {
    first_match(p.services, |s: ServiceView| name_matches(s.name, name))
}

/// The first component whose name matches `name`, ignoring case.
pub open spec fn find_component_spec(p: ProjectView, name: Seq<char>) -> Option<ComponentView> {
    first_match(p.components, |c: ComponentView| name_matches(c.name, name))
}

/// The first group whose name matches `name`, ignoring case.
pub open spec fn find_group_spec(p: ProjectView, name: Seq<char>) -> Option<GroupView> {
    first_match(p.groups, |g: GroupView| name_matches(g.name, name))
}

/// The first project-level task whose name matches `name`, ignoring case.
pub open spec fn find_project_task_spec(p: ProjectView, name: Seq<char>) -> Option<TaskView> {
    first_match(p.tasks, |t: TaskView| name_matches(t.name, name))
}

/// The composite name a component-scoped task is addressed by.
pub open spec fn task_key(component_name: Seq<char>, task_name: Seq<char>) -> Seq<char> {
    component_name + seq![':'] + task_name
}

/// The first task of `c` whose composite `component:task` name matches
/// `name`, ignoring case.
pub open spec fn find_task_in_component(c: ComponentView, name: Seq<char>) -> Option<TaskView> {
    first_match(c.tasks, |t: TaskView| name_matches(task_key(c.name, t.name), name))
}

/// The first component owning a task whose composite name matches `name`.
pub open spec fn find_component_task_in(
    components: Seq<ComponentView>,
    name: Seq<char>,
) -> Option<(ComponentView, TaskView)>
    decreases components.len(),
{
    if components.len() == 0 {
        None
    } else {
        match find_task_in_component(components[0], name) {
            Some(t) => Some((components[0], t)),
            None => find_component_task_in(components.drop_first(), name),
        }
    }
}

/// The component-scoped task `name` refers to, if any.
pub open spec fn find_component_task_spec(p: ProjectView, name: Seq<char>) -> Option<
    (ComponentView, TaskView),
> {
    find_component_task_in(p.components, name)
}

/// While no component of the prefix owns a matching task, the search
/// continues in the remainder.
proof fn lemma_find_component_task_skip(components: Seq<ComponentView>, name: Seq<char>, i: int)
    requires
        0 <= i <= components.len(),
        forall|j: int|
            0 <= j < i ==> find_task_in_component(#[trigger] components[j], name) is None,
    ensures
        find_component_task_in(components, name) == find_component_task_in(
            components.skip(i),
            name,
        ),
    decreases i,
{
    if i > 0 {
        assert(components.skip(i) =~= components.drop_first().skip(i - 1));
        lemma_find_component_task_skip(components.drop_first(), name, i - 1);
    } else {
        assert(components.skip(0) =~= components);
    }
}

/// The services the given names resolve to, in order; names that match no
/// service definition are skipped.
pub open spec fn services_of(p: ProjectView, names: Seq<Seq<char>>) -> Seq<ServiceView>
    decreases names.len(),
{
    if names.len() == 0 {
        Seq::<ServiceView>::empty()
    } else {
        services_of(p, names.drop_last()) + (match find_service_spec(p, names.last()) {
            Some(s) => seq![s],
            None => Seq::<ServiceView>::empty(),
        })
    }
}

/// Whether `name` matches any of `names`, ignoring case.
pub open spec fn matches_any(name: Seq<char>, names: Seq<Seq<char>>) -> bool {
    exists|k: int| 0 <= k < names.len() && name_matches(name, #[trigger] names[k])
}

impl Default for Project {
    /// A project named "Unnamed Project" with nothing in it.
    fn default() -> (r: Self)
        ensures
            r@.name == "Unnamed Project"@,
            r@.components.len() == 0,
            r@.groups.len() == 0,
            r@.services.len() == 0,
            r@.tasks.len() == 0,
            r@.env.len() == 0,
            r@.root_path.len() == 0,
    {
        let r = Project {
            name: "Unnamed Project".to_owned(),
            components: Vec::new(),
            groups: Vec::new(),
            services: Vec::new(),
            tasks: Vec::new(),
            env: EnvMap::new(),
            root_path: String::new(),
        };
        proof {
            assert(r@.components =~= Seq::<ComponentView>::empty());
            assert(r@.groups =~= Seq::<GroupView>::empty());
            assert(r@.services =~= Seq::<ServiceView>::empty());
            assert(r@.tasks =~= Seq::<TaskView>::empty());
        }
        r
    }
}

impl Project {
    /// The service `name` refers to, ignoring case; the first declared
    /// match wins.
    pub fn service_by_name(&self, name: &str) -> (r: Option<Service>)
        ensures
            match r {
                Some(s) => find_service_spec(self@, name@) == Some(s@),
                None => find_service_spec(self@, name@) is None,
            },
    {
        let ghost pred = |s: ServiceView| name_matches(s.name, name@);
        let mut i: usize = 0;
        while i < self.services.len()
            invariant
                i <= self.services.len(),
                forall|j: int| 0 <= j < i ==> !name_matches(#[trigger] self@.services[j].name, name@),
            decreases self.services.len() - i,
        {
            if eq_ignore_case(self.services[i].name.as_str(), name) {
                proof {
                    assert forall|j: int| 0 <= j < i implies !pred(#[trigger] self@.services[j]) by {
                        assert(!name_matches(self@.services[j].name, name@));
                    }
                    lemma_first_match_found(self@.services, pred, i as int);
                }
                return Some(self.services[i].clone());
            }
            i = i + 1;
        }
        proof {
            assert forall|j: int| 0 <= j < self@.services.len() implies !pred(
                #[trigger] self@.services[j],
            ) by {
                assert(!name_matches(self@.services[j].name, name@));
            }
            lemma_first_match_none(self@.services, pred);
        }
        None
    }

    /// The component `name` refers to, ignoring case; the first declared
    /// match wins.
    pub fn find_component(&self, name: &str) -> (r: Option<&Component>)
        ensures
            match r {
                Some(c) => find_component_spec(self@, name@) == Some(c@),
                None => find_component_spec(self@, name@) is None,
            },
    {
        let ghost pred = |c: ComponentView| name_matches(c.name, name@);
        let mut i: usize = 0;
        while i < self.components.len()
            invariant
                i <= self.components.len(),
                forall|j: int|
                    0 <= j < i ==> !name_matches(#[trigger] self@.components[j].name, name@),
            decreases self.components.len() - i,
        {
            if eq_ignore_case(self.components[i].name.as_str(), name) {
                proof {
                    assert forall|j: int| 0 <= j < i implies !pred(#[trigger] self@.components[j]) by {
                        assert(!name_matches(self@.components[j].name, name@));
                    }
                    lemma_first_match_found(self@.components, pred, i as int);
                }
                return Some(&self.components[i]);
            }
            i = i + 1;
        }
        proof {
            assert forall|j: int| 0 <= j < self@.components.len() implies !pred(
                #[trigger] self@.components[j],
            ) by {
                assert(!name_matches(self@.components[j].name, name@));
            }
            lemma_first_match_none(self@.components, pred);
        }
        None
    }

    /// The group `name` refers to, ignoring case; the first declared match
    /// wins.
    pub fn find_group(&self, name: &str) -> (r: Option<&Group>)
        ensures
            match r {
                Some(g) => find_group_spec(self@, name@) == Some(g@),
                None => find_group_spec(self@, name@) is None,
            },
    {
        let ghost pred = |g: GroupView| name_matches(g.name, name@);
        let mut i: usize = 0;
        while i < self.groups.len()
            invariant
                i <= self.groups.len(),
                forall|j: int| 0 <= j < i ==> !name_matches(#[trigger] self@.groups[j].name, name@),
            decreases self.groups.len() - i,
        {
            if eq_ignore_case(self.groups[i].name.as_str(), name) {
                proof {
                    assert forall|j: int| 0 <= j < i implies !pred(#[trigger] self@.groups[j]) by {
                        assert(!name_matches(self@.groups[j].name, name@));
                    }
                    lemma_first_match_found(self@.groups, pred, i as int);
                }
                return Some(&self.groups[i]);
            }
            i = i + 1;
        }
        proof {
            assert forall|j: int| 0 <= j < self@.groups.len() implies !pred(
                #[trigger] self@.groups[j],
            ) by {
                assert(!name_matches(self@.groups[j].name, name@));
            }
            lemma_first_match_none(self@.groups, pred);
        }
        None
    }

    /// The project-level task `name` refers to, ignoring case; the first
    /// declared match wins.
    pub fn find_project_task(&self, name: &str) -> (r: Option<&Task>)
        ensures
            match r {
                Some(t) => find_project_task_spec(self@, name@) == Some(t@),
                None => find_project_task_spec(self@, name@) is None,
            },
    {
        let ghost pred = |t: TaskView| name_matches(t.name, name@);
        let mut i: usize = 0;
        while i < self.tasks.len()
            invariant
                i <= self.tasks.len(),
                forall|j: int| 0 <= j < i ==> !name_matches(#[trigger] self@.tasks[j].name, name@),
            decreases self.tasks.len() - i,
        {
            if eq_ignore_case(self.tasks[i].name.as_str(), name) {
                proof {
                    assert forall|j: int| 0 <= j < i implies !pred(#[trigger] self@.tasks[j]) by {
                        assert(!name_matches(self@.tasks[j].name, name@));
                    }
                    lemma_first_match_found(self@.tasks, pred, i as int);
                }
                return Some(&self.tasks[i]);
            }
            i = i + 1;
        }
        proof {
            assert forall|j: int| 0 <= j < self@.tasks.len() implies !pred(
                #[trigger] self@.tasks[j],
            ) by {
                assert(!name_matches(self@.tasks[j].name, name@));
            }
            lemma_first_match_none(self@.tasks, pred);
        }
        None
    }

    /// The component-scoped task `name` refers to as `component:task`,
    /// ignoring case; components and their tasks are searched in
    /// declaration order.
    pub fn find_component_task(&self, name: &str) -> (r: Option<(Component, Task)>)
        ensures
            match r {
                Some(p) => find_component_task_spec(self@, name@) == Some((p.0@, p.1@)),
                None => find_component_task_spec(self@, name@) is None,
            },
    {
        let mut i: usize = 0;
        while i < self.components.len()
            invariant
                i <= self.components.len(),
                forall|j: int|
                    0 <= j < i ==> find_task_in_component(
                        #[trigger] self@.components[j],
                        name@,
                    ) is None,
            decreases self.components.len() - i,
        {
            let c = &self.components[i];
            let ghost pred = |t: TaskView| name_matches(
                task_key(self@.components[i as int].name, t.name),
                name@,
            );
            let mut j: usize = 0;
            while j < c.tasks.len()
                invariant
                    j <= c.tasks.len(),
                    i < self.components.len(),
                    c == &self.components[i as int],
                    pred == (|t: TaskView| name_matches(
                        task_key(self@.components[i as int].name, t.name),
                        name@,
                    )),
                    forall|l: int|
                        0 <= l < j ==> !name_matches(
                            task_key(
                                self@.components[i as int].name,
                                (#[trigger] self@.components[i as int].tasks[l]).name,
                            ),
                            name@,
                        ),
                decreases c.tasks.len() - j,
            {
                let key = c.name.clone().concat(":").concat(c.tasks[j].name.as_str());
                proof {
                    reveal_strlit(":");
                    assert(":"@ =~= seq![':']);
                    assert(key@ == task_key(
                        self@.components[i as int].name,
                        self@.components[i as int].tasks[j as int].name,
                    ));
                }
                if eq_ignore_case(key.as_str(), name) {
                    proof {
                        assert forall|l: int|
                            0 <= l < j implies !pred(
                                #[trigger] self@.components[i as int].tasks[l],
                            ) by {
                            assert(!name_matches(
                                task_key(
                                    self@.components[i as int].name,
                                    self@.components[i as int].tasks[l].name,
                                ),
                                name@,
                            ));
                        }
                        lemma_first_match_found(self@.components[i as int].tasks, pred, j as int);
                        lemma_find_component_task_skip(self@.components, name@, i as int);
                        assert(self@.components.skip(i as int)[0] == self@.components[i as int]);
                    }
                    return Some((self.components[i].clone(), c.tasks[j].clone()));
                }
                j = j + 1;
            }
            proof {
                assert forall|l: int|
                    0 <= l < self@.components[i as int].tasks.len() implies !pred(
                        #[trigger] self@.components[i as int].tasks[l],
                    ) by {
                    assert(!name_matches(
                        task_key(
                            self@.components[i as int].name,
                            self@.components[i as int].tasks[l].name,
                        ),
                        name@,
                    ));
                }
                lemma_first_match_none(self@.components[i as int].tasks, pred);
            }
            i = i + 1;
        }
        proof {
            lemma_find_component_task_skip(self@.components, name@, self@.components.len() as int);
            assert(self@.components.skip(self@.components.len() as int)
                =~= Seq::<ComponentView>::empty());
        }
        None
    }

    /// The services the given names refer to, resolved in declared order;
    /// names with no service definition are skipped.
    pub fn resolve_services(&self, names: &Vec<String>) -> (r: Vec<Service>)
        ensures
            r.deep_view() == services_of(self@, names.deep_view()),
    {
        let mut out: Vec<Service> = Vec::new();
        let mut i: usize = 0;
        proof {
            assert(names.deep_view().take(0) =~= Seq::<Seq<char>>::empty());
            assert(out.deep_view() =~= services_of(self@, names.deep_view().take(0)));
        }
        while i < names.len()
            invariant
                i <= names.len(),
                out.deep_view() == services_of(self@, names.deep_view().take(i as int)),
            decreases names.len() - i,
        {
            let ghost before = out.deep_view();
            let found = self.service_by_name(names[i].as_str());
            match found {
                Some(s) => {
                    out.push(s);
                },
                None => (),
            }
            proof {
                let pre = names.deep_view().take(i + 1);
                assert(pre.drop_last() =~= names.deep_view().take(i as int));
                assert(pre.last() == names.deep_view()[i as int]);
                if find_service_spec(self@, names.deep_view()[i as int]) is Some {
                    assert(out.deep_view() =~= before.push(
                        find_service_spec(self@, names.deep_view()[i as int])->Some_0,
                    ));
                    assert(before.push(
                        find_service_spec(self@, names.deep_view()[i as int])->Some_0,
                    ) =~= services_of(self@, pre));
                } else {
                    assert(out.deep_view() =~= services_of(self@, pre));
                }
            }
            i = i + 1;
        }
        proof {
            assert(names.deep_view().take(names.deep_view().len() as int) =~= names.deep_view());
        }
        out
    }

    /// Keeps only the components whose names appear in `names`, ignoring
    /// case.
    pub fn filter_names(&mut self, names: &Vec<String>)
        ensures
            final(self)@ == (ProjectView {
                components: old(self)@.components.filter(
                    |c: ComponentView| matches_any(c.name, names.deep_view()),
                ),
                ..old(self)@
            }),
    {
        let ghost pred = |c: ComponentView| matches_any(c.name, names.deep_view());
        let mut kept: Vec<Component> = Vec::new();
        let mut i: usize = 0;
        proof {
            reveal(Seq::<ComponentView>::filter);
            assert(kept.deep_view() =~= self@.components.take(0).filter(pred));
        }
        while i < self.components.len()
            invariant
                i <= self.components.len(),
                kept.deep_view() == self@.components.take(i as int).filter(pred),
            decreases self.components.len() - i,
        {
            let ghost before = kept.deep_view();
            let mut any = false;
            let mut k: usize = 0;
            while k < names.len()
                invariant
                    k <= names.len(),
                    i < self.components.len(),
                    any == matches_any_prefix(
                        self@.components[i as int].name,
                        names.deep_view(),
                        k as int,
                    ),
                decreases names.len() - k,
            {
                let ghost nm = self@.components[i as int].name;
                let ghost ns = names.deep_view();
                let hit = eq_ignore_case(self.components[i].name.as_str(), names[k].as_str());
                if hit {
                    any = true;
                }
                proof {
                    if hit {
                        assert(name_matches(nm, ns[k as int]));
                        assert(matches_any_prefix(nm, ns, k + 1));
                    } else if !any {
                        assert(!matches_any_prefix(nm, ns, k + 1)) by {
                            if matches_any_prefix(nm, ns, k + 1) {
                                let j = choose|j: int|
                                    0 <= j < k + 1 && name_matches(nm, #[trigger] ns[j]);
                                if j < k {
                                    assert(matches_any_prefix(nm, ns, k as int));
                                }
                            }
                        }
                    }
                }
                k = k + 1;
            }
            proof {
                lemma_matches_any_prefix_full(
                    self@.components[i as int].name,
                    names.deep_view(),
                );
            }
            if any {
                kept.push(self.components[i].clone());
            }
            proof {
                reveal(Seq::<ComponentView>::filter);
                assert(self@.components.take(i + 1).drop_last() =~= self@.components.take(i as int));
                assert(self@.components.take(i + 1).last() == self@.components[i as int]);
                if pred(self@.components[i as int]) {
                    assert(kept.deep_view() =~= before.push(self@.components[i as int]));
                }
                assert(kept.deep_view() == self@.components.take(i + 1).filter(pred));
            }
            i = i + 1;
        }
        proof {
            assert(self@.components.take(self@.components.len() as int) =~= self@.components);
        }
        self.components = kept;
    }

    /// Keeps only the components carrying at least one of the requested
    /// tags; with no tags requested every component is kept.
    pub fn filter_tags(&mut self, tags: &Vec<String>)
        ensures
            final(self)@ == (ProjectView {
                components: old(self)@.components.filter(
                    |c: ComponentView| tags.deep_view().len() == 0 || has_any_tag(
                        c,
                        tags.deep_view(),
                    ),
                ),
                ..old(self)@
            }),
    {
        let ghost pred = |c: ComponentView| tags.deep_view().len() == 0 || has_any_tag(
            c,
            tags.deep_view(),
        );
        let mut kept: Vec<Component> = Vec::new();
        let mut i: usize = 0;
        proof {
            reveal(Seq::<ComponentView>::filter);
            assert(kept.deep_view() =~= self@.components.take(0).filter(pred));
        }
        while i < self.components.len()
            invariant
                i <= self.components.len(),
                kept.deep_view() == self@.components.take(i as int).filter(pred),
            decreases self.components.len() - i,
        {
            let ghost before = kept.deep_view();
            let keep = if tags.len() == 0 {
                true
            } else {
                self.components[i].has_tags(tags)
            };
            if keep {
                kept.push(self.components[i].clone());
            }
            proof {
                reveal(Seq::<ComponentView>::filter);
                assert(self@.components.take(i + 1).drop_last() =~= self@.components.take(i as int));
                assert(self@.components.take(i + 1).last() == self@.components[i as int]);
                if pred(self@.components[i as int]) {
                    assert(kept.deep_view() =~= before.push(self@.components[i as int]));
                }
                assert(kept.deep_view() == self@.components.take(i + 1).filter(pred));
            }
            i = i + 1;
        }
        proof {
            assert(self@.components.take(self@.components.len() as int) =~= self@.components);
        }
        self.components = kept;
    }

    /// Keeps only the components flagged `default`; used when a run names
    /// no explicit target.
    pub fn filter_default(&mut self)
        ensures
            final(self)@ == (ProjectView {
                components: old(self)@.components.filter(|c: ComponentView| c.default),
                ..old(self)@
            }),
    {
        let ghost pred = |c: ComponentView| c.default;
        let mut kept: Vec<Component> = Vec::new();
        let mut i: usize = 0;
        proof {
            reveal(Seq::<ComponentView>::filter);
            assert(kept.deep_view() =~= self@.components.take(0).filter(pred));
        }
        while i < self.components.len()
            invariant
                i <= self.components.len(),
                kept.deep_view() == self@.components.take(i as int).filter(pred),
            decreases self.components.len() - i,
        {
            let ghost before = kept.deep_view();
            if self.components[i].default {
                kept.push(self.components[i].clone());
            }
            proof {
                reveal(Seq::<ComponentView>::filter);
                assert(self@.components.take(i + 1).drop_last() =~= self@.components.take(i as int));
                assert(self@.components.take(i + 1).last() == self@.components[i as int]);
                if pred(self@.components[i as int]) {
                    assert(kept.deep_view() =~= before.push(self@.components[i as int]));
                }
                assert(kept.deep_view() == self@.components.take(i + 1).filter(pred));
            }
            i = i + 1;
        }
        proof {
            assert(self@.components.take(self@.components.len() as int) =~= self@.components);
        }
        self.components = kept;
    }
}

/// Whether `name` matches one of the first `k` entries of `names`.
pub open spec fn matches_any_prefix(name: Seq<char>, names: Seq<Seq<char>>, k: int) -> bool {
    exists|j: int| 0 <= j < k && name_matches(name, #[trigger] names[j])
}

proof fn lemma_matches_any_prefix_full(name: Seq<char>, names: Seq<Seq<char>>)
    ensures
        matches_any_prefix(name, names, names.len() as int) == matches_any(name, names),
{
}

impl Clone for Project {
    fn clone(&self) -> (r: Self)
        ensures
            r@ == self@,
    {
        Project {
            name: self.name.clone(),
            components: crate::component::clone_components(&self.components),
            groups: clone_groups(&self.groups),
            services: clone_services(&self.services),
            tasks: crate::component::clone_tasks(&self.tasks),
            env: self.env.clone(),
            root_path: self.root_path.clone(),
        }
    }
}

/// A copy of a group vector whose contents are provably the same.
fn clone_groups(v: &Vec<Group>) -> (r: Vec<Group>)
    ensures
        r.deep_view() == v.deep_view(),
{
    let mut out: Vec<Group> = Vec::new();
    let mut i: usize = 0;
    while i < v.len()
        invariant
            i <= v.len(),
            out.deep_view() == v.deep_view().take(i as int),
        decreases v.len() - i,
    {
        let ghost before = out.deep_view();
        out.push(v[i].clone());
        proof {
            assert(out.deep_view() =~= before.push(v.deep_view()[i as int]));
            assert(before.push(v.deep_view()[i as int]) =~= v.deep_view().take(i + 1));
        }
        i = i + 1;
    }
    proof {
        assert(v.deep_view().take(v.deep_view().len() as int) =~= v.deep_view());
    }
    out
}

} // verus!
