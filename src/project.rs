use vstd::prelude::*;
use crate::lookup::{
    find_first, first_match, lemma_first_match_absent, lemma_first_match_found,
    lemma_first_match_none, strings_view,
};

verus! {

/// A project of the remote service.
pub struct Project {
    pub id: String,
    pub name: String,
}

/// A workspace of the remote service.
pub struct Workspace {
    pub id: String,
    pub name: String,
}

pub open spec fn project_names(v: Seq<Project>) -> Seq<Seq<char>> {
    v.map_values(|p: Project| p.name@)
}

/// The id of the first project in `projects` named `name`.
pub open spec fn project_id_named(projects: Seq<Project>, name: Seq<char>) -> Option<Seq<char>> {
    match first_match(project_names(projects), name) {
        Some(i) => Some(projects[i].id@),
        None => None,
    }
}

/// Finds the first project whose name is exactly `name`.
pub fn find_project<'a>(projects: &'a Vec<Project>, name: &String) -> (r: Option<&'a Project>)
    ensures
        match r {
            Some(p) => project_id_named(projects@, name@) == Some(p.id@),
            None => project_id_named(projects@, name@) is None,
        },
{
    let mut i: usize = 0;
    while i < projects.len()
        invariant
            i <= projects@.len(),
            forall|j: int| 0 <= j < i ==> projects@[j].name@ != name@,
        decreases projects.len() - i,
    {
        if projects[i].name.eq(name) {
            proof {
                lemma_first_match_found(project_names(projects@), name@, i as int);
            }
            return Some(&projects[i]);
        }
        i = i + 1;
    }
    proof {
        lemma_first_match_absent(project_names(projects@), name@);
    }
    None
}

/// What a project key maps to: the remote project's id, or its name, to be
/// looked up in the remote project list.
pub enum ProjectTarget {
    Id(String),
    Name(String),
}

pub enum TargetView {
    Id(Seq<char>),
    Name(Seq<char>),
}

impl View for ProjectTarget {
    type V = TargetView;

    open spec fn view(&self) -> TargetView {
        match self {
            ProjectTarget::Id(s) => TargetView::Id(s@),
            ProjectTarget::Name(s) => TargetView::Name(s@),
        }
    }
}

impl ProjectTarget {
    pub fn duplicate(&self) -> (r: ProjectTarget)
        ensures
            r@ == self@,
    {
        match self {
            ProjectTarget::Id(s) => ProjectTarget::Id(s.clone()),
            ProjectTarget::Name(s) => ProjectTarget::Name(s.clone()),
        }
    }
}

/// The mapping from project keys to projects. Each key appears once.
pub struct ProjectMap {
    keys: Vec<String>,
    targets: Vec<ProjectTarget>,
}

impl ProjectMap {
    /// Keys and targets pair up, and no key appears twice.
    pub closed spec fn wf(&self) -> bool {
        &&& self.keys@.len() == self.targets@.len()
        &&& forall|i: int, j: int|
            0 <= i < j < self.keys@.len() ==> self.keys@[i]@ != self.keys@[j]@
    }

    /// What `key` maps to.
    pub closed spec fn get_spec(&self, key: Seq<char>) -> Option<TargetView> {
        match first_match(strings_view(self.keys@), key) {
            Some(i) => Some(self.targets@[i]@),
            None => None,
        }
    }

    /// The empty mapping.
    pub fn new() -> (r: ProjectMap)
        ensures
            r.wf(),
            forall|k: Seq<char>| r.get_spec(k) is None,
    {
        let r = ProjectMap { keys: Vec::new(), targets: Vec::new() };
        assert forall|k: Seq<char>| r.get_spec(k) is None by {
            lemma_first_match_absent(strings_view(r.keys@), k);
        }
        r
    }

    /// Maps `key` to `target`, replacing what it mapped to before.
    pub fn insert(&mut self, key: String, target: ProjectTarget)
        requires
            old(self).wf(),
        ensures
            final(self).wf(),
            final(self).get_spec(key@) == Some(target@),
            forall|k: Seq<char>| k != key@ ==> final(self).get_spec(k) == old(self).get_spec(k),
    {
        let ghost key_view = key@;
        let ghost target_view = target@;
        match find_first(&self.keys, &key) {
            Some(i) => {
                proof {
                    lemma_first_match_spec(strings_view(self.keys@), key_view);
                }
                self.targets.set(i, target);
                assert forall|k: Seq<char>| k != key_view implies self.get_spec(k) == old(self).get_spec(k) by {
                    if let Some(j) = first_match(strings_view(self.keys@), k) {
                        lemma_first_match_spec(strings_view(self.keys@), k);
                        assert(j != i);
                    }
                }
            },
            None => {
                let ghost old_keys = strings_view(self.keys@);
                proof {
                    lemma_first_match_none(old_keys, key_view);
                }
                self.keys.push(key);
                assert forall|a: int, b: int|
                    0 <= a < b < self.keys@.len() implies self.keys@[a]@ != self.keys@[b]@ by {
                    if b == self.keys@.len() - 1 {
                        assert(old_keys[a] == self.keys@[a]@);
                    }
                }
                self.targets.push(target);
                assert(strings_view(self.keys@) =~= old_keys.push(key_view));
                proof {
                    lemma_first_match_push(old_keys, key_view, key_view);
                }
                assert forall|k: Seq<char>| k != key_view implies self.get_spec(k) == old(self).get_spec(k) by {
                    lemma_first_match_push(old_keys, key_view, k);
                    if let Some(j) = first_match(old_keys, k) {
                        lemma_first_match_spec(old_keys, k);
                    }
                }
            },
        }
    }

    /// What `key` maps to.
    pub fn get(&self, key: &String) -> (r: Option<&ProjectTarget>)
        requires
            self.wf(),
        ensures
            match r {
                Some(t) => self.get_spec(key@) == Some(t@),
                None => self.get_spec(key@) is None,
            },
    {
        match find_first(&self.keys, key) {
            Some(i) => {
                proof {
                    lemma_first_match_spec(strings_view(self.keys@), key@);
                }
                Some(&self.targets[i])
            },
            None => None,
        }
    }
}

proof fn lemma_first_match_spec(s: Seq<Seq<char>>, x: Seq<char>)
    ensures
        match first_match(s, x) {
            Some(i) => 0 <= i < s.len() && s[i] == x,
            None => true,
        },
    decreases s.len(),
{
    if s.len() > 0 {
        lemma_first_match_spec(s.drop_first(), x);
    }
}

proof fn lemma_first_match_push(s: Seq<Seq<char>>, y: Seq<char>, x: Seq<char>)
    ensures
        first_match(s.push(y), x) == match first_match(s, x) {
            Some(i) => Some(i),
            None => if x == y {
                Some(s.len() as int)
            } else {
                None
            },
        },
    decreases s.len(),
{
    if s.len() > 0 {
        lemma_first_match_push(s.drop_first(), y, x);
        assert(s.push(y).drop_first() =~= s.drop_first().push(y));
        assert(s.push(y)[0] == s[0]);
    } else {
        assert(s.push(y).drop_first() =~= Seq::<Seq<char>>::empty());
        assert(s.push(y)[0] == y);
        assert(first_match(Seq::<Seq<char>>::empty(), x) is None);
    }
}

} // verus!
