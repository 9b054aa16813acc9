use vstd::prelude::*;
use vstd::string::StringExecFns;
use crate::project::{ProjectMap, ProjectTarget, TargetView};

verus! {

/// The settings of a transfer.
pub struct Conf {
    /// The remote service's API base path, with a trailing slash.
    pub api_base_path: String,
    /// The API key sent with every request.
    pub api_key: String,
    /// The workspace that entries are booked in.
    pub workspace_id: String,
    /// Project keys of the timesheet, each with the name of a remote project.
    pub project_map: Vec<(String, String)>,
    /// Project keys of the timesheet, each with the id of a remote project.
    /// A key here takes precedence over the same key in `project_map`.
    pub project_ids: Vec<(String, String)>,
}

/// The settings as a configuration file gives them, each of them possibly
/// absent.
pub struct ConfSource {
    pub api_base_path: Option<String>,
    pub api_key: Option<String>,
    pub workspace_id: Option<String>,
    pub project_map: Option<Vec<(String, String)>>,
    pub project_ids: Option<Vec<(String, String)>>,
}

/// A required setting that the source lacks.
#[derive(PartialEq, Eq, Structural, Clone, Copy, Debug)]
pub enum ConfError {
    MissingApiKey,
    MissingWorkspaceId,
    MissingProjectMap,
}

/// The value of the last pair with key `k`.
pub open spec fn last_value(pairs: Seq<(String, String)>, k: Seq<char>) -> Option<Seq<char>>
    decreases pairs.len(),
{
    if pairs.len() == 0 {
        None
    } else if pairs.last().0@ == k {
        Some(pairs.last().1@)
    } else {
        last_value(pairs.drop_last(), k)
    }
}

/// What `k` maps to: the id it has in `ids`, else the name it has in
/// `names`, the last pair counting in each.
pub open spec fn configured_target(
    names: Seq<(String, String)>,
    ids: Seq<(String, String)>,
    k: Seq<char>,
) -> Option<TargetView> {
    match last_value(ids, k) {
        Some(id) => Some(TargetView::Id(id)),
        None => match last_value(names, k) {
            Some(n) => Some(TargetView::Name(n)),
            None => None,
        },
    }
}

impl Conf {
    /// The settings from `source`, with the default API base path where it
    /// gives none; the first required setting that it lacks is an error.
    pub fn load(source: ConfSource) -> (r: Result<Conf, ConfError>)
        ensures
            source.api_key is None ==> r == Err::<Conf, ConfError>(ConfError::MissingApiKey),
            source.api_key is Some && source.workspace_id is None ==> r == Err::<Conf, ConfError>(
                ConfError::MissingWorkspaceId,
            ),
            source.api_key is Some && source.workspace_id is Some && source.project_map is None
                ==> r == Err::<Conf, ConfError>(ConfError::MissingProjectMap),
            source.api_key is Some && source.workspace_id is Some && source.project_map is Some
                ==> r is Ok && r->Ok_0.api_key == source.api_key->0 && r->Ok_0.workspace_id
                == source.workspace_id->0 && r->Ok_0.project_map == source.project_map->0 && (
            match source.project_ids {
                Some(ids) => r->Ok_0.project_ids == ids,
                None => r->Ok_0.project_ids@.len() == 0,
            }) && (
            match source.api_base_path {
                Some(p) => r->Ok_0.api_base_path == p,
                None => r->Ok_0.api_base_path@ == "https://api.clockify.me/api/v1/"@,
            }),
    {
        let api_key = match source.api_key {
            Some(k) => k,
            None => return Err(ConfError::MissingApiKey),
        };
        let workspace_id = match source.workspace_id {
            Some(w) => w,
            None => return Err(ConfError::MissingWorkspaceId),
        };
        let project_map = match source.project_map {
            Some(m) => m,
            None => return Err(ConfError::MissingProjectMap),
        };
        let api_base_path = match source.api_base_path {
            Some(p) => p,
            None => String::from_str("https://api.clockify.me/api/v1/"),
        };
        let project_ids = match source.project_ids {
            Some(ids) => ids,
            None => Vec::new(),
        };
        Ok(Conf { api_base_path, api_key, workspace_id, project_map, project_ids })
    }

    /// The project mapping of these settings: each key to a project id or
    /// name.
    pub fn project_mapping(&self) -> (r: ProjectMap)
        ensures
            r.wf(),
            forall|k: Seq<char>|
                r.get_spec(k) == configured_target(self.project_map@, self.project_ids@, k),
    {
        let mut map = ProjectMap::new();
        let mut i: usize = 0;
        while i < self.project_map.len()
            invariant
                i <= self.project_map@.len(),
                map.wf(),
                forall|k: Seq<char>|
                    map.get_spec(k) == configured_target(
                        self.project_map@.subrange(0, i as int),
                        Seq::empty(),
                        k,
                    ),
            decreases self.project_map.len() - i,
        {
            let key = self.project_map[i].0.clone();
            let name = self.project_map[i].1.clone();
            map.insert(key, ProjectTarget::Name(name));
            proof {
                let pre = self.project_map@.subrange(0, i as int);
                let next = self.project_map@.subrange(0, i + 1);
                assert(next.drop_last() =~= pre);
                assert(next.last() == self.project_map@[i as int]);
            }
            i = i + 1;
        }
        assert(self.project_map@.subrange(0, i as int) =~= self.project_map@);
        let mut j: usize = 0;
        while j < self.project_ids.len()
            invariant
                j <= self.project_ids@.len(),
                map.wf(),
                forall|k: Seq<char>|
                    map.get_spec(k) == configured_target(
                        self.project_map@,
                        self.project_ids@.subrange(0, j as int),
                        k,
                    ),
            decreases self.project_ids.len() - j,
        {
            let key = self.project_ids[j].0.clone();
            let id = self.project_ids[j].1.clone();
            map.insert(key, ProjectTarget::Id(id));
            proof {
                let pre = self.project_ids@.subrange(0, j as int);
                let next = self.project_ids@.subrange(0, j + 1);
                assert(next.drop_last() =~= pre);
                assert(next.last() == self.project_ids@[j as int]);
            }
            j = j + 1;
        }
        assert(self.project_ids@.subrange(0, j as int) =~= self.project_ids@);
        map
    }
}

} // verus!
