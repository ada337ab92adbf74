//! Where workflow definitions are kept: one `{id}.yaml` file each in a
//! `workflows` directory.

use vstd::prelude::*;
use crate::config::loader::{join_path, joined};
use crate::error::Error;
use crate::text::{chars_of, concat, owned, string_of_chars};

verus! {

/// The last position of `.` in `s` before `i` (or -1 when there is none).
pub open spec fn last_dot(s: Seq<char>, i: int) -> int
    decreases i,
{
    if i <= 0 || i > s.len() {
        -1
    } else if s[i - 1] == '.' {
        i - 1
    } else {
        last_dot(s, i - 1)
    }
}

proof fn lemma_last_dot_bounds(s: Seq<char>, i: int)
    requires
        0 <= i <= s.len(),
    ensures
        -1 <= last_dot(s, i) < i,
        last_dot(s, i) >= 0 ==> s[last_dot(s, i)] == '.',
    decreases i,
{
    if i > 0 && s[i - 1] != '.' {
        lemma_last_dot_bounds(s, i - 1);
    }
}

/// The stem of a file name whose extension is `yaml`, as `Path::file_stem`
/// and `Path::extension` split it: at the last `.`, unless that is the
/// first character (a hidden file has no extension).
pub open spec fn yaml_stem_of(name: Seq<char>) -> Option<Seq<char>> {
    let p = last_dot(name, name.len() as int);
    if p > 0 && name.subrange(p + 1, name.len() as int) == "yaml"@ {
        Some(name.subrange(0, p))
    } else {
        None
    }
}

/// The stem of a file name whose extension is `yaml` (see `yaml_stem_of`).
pub fn yaml_stem(name: &str) -> (r: Option<String>)
    ensures
        match r {
            Some(s) => yaml_stem_of(name@) == Some(s@),
            None => yaml_stem_of(name@) is None,
        },
{
    let cs = chars_of(name);
    let n = cs.len();
    let mut i = n;
    proof {
        lemma_last_dot_bounds(cs@, n as int);
    }
    while i > 0 && cs[i - 1] != '.'
        invariant
            n == cs@.len(),
            i <= n,
            last_dot(cs@, i as int) == last_dot(cs@, n as int),
        decreases i,
    {
        i = i - 1;
    }
    if i <= 1 {
        return None;
    }
    let p = i - 1;
    assert(last_dot(cs@, n as int) == p);
    let mut ext: Vec<char> = Vec::new();
    let mut j = i;
    while j < n
        invariant
            i <= j <= n,
            n == cs@.len(),
            ext@ == cs@.subrange(i as int, j as int),
        decreases n - j,
    {
        ext.push(cs[j]);
        j = j + 1;
        assert(ext@ =~= cs@.subrange(i as int, j as int));
    }
    let ext_s = string_of_chars(ext.as_slice());
    if !crate::text::str_eq(ext_s.as_str(), "yaml") {
        return None;
    }
    let mut stem: Vec<char> = Vec::new();
    let mut k: usize = 0;
    while k < p
        invariant
            k <= p < n,
            n == cs@.len(),
            stem@ == cs@.subrange(0, k as int),
        decreases p - k,
    {
        stem.push(cs[k]);
        k = k + 1;
        assert(stem@ =~= cs@.subrange(0, k as int));
    }
    Some(string_of_chars(stem.as_slice()))
}

/// The ids of the workflows among the files of the directory, in order:
/// each file with the `yaml` extension gives its stem. `entries` holds each
/// entry's name and whether it is a regular file.
pub fn workflow_ids(entries: &Vec<(String, bool)>) -> (ids: Vec<String>)
    ensures
        ids@.map_values(|s: String| s@) == entries@.filter(|e: (String, bool)| e.1 && yaml_stem_of(e.0@) is Some)
            .map_values(|e: (String, bool)| yaml_stem_of(e.0@)->0),
{
    let ghost pred = |e: (String, bool)| e.1 && yaml_stem_of(e.0@) is Some;
    let ghost f = |e: (String, bool)| yaml_stem_of(e.0@)->0;
    let mut ids: Vec<String> = Vec::new();
    let mut i: usize = 0;
    while i < entries.len()
        invariant
            i <= entries@.len(),
            pred == (|e: (String, bool)| e.1 && yaml_stem_of(e.0@) is Some),
            f == (|e: (String, bool)| yaml_stem_of(e.0@)->0),
            ids@.map_values(|s: String| s@) == entries@.take(i as int).filter(pred).map_values(f),
        decreases entries@.len() - i,
    {
        let ghost prefix = entries@.take(i + 1);
        let ghost before = ids@;
        assert(prefix.drop_last() =~= entries@.take(i as int));
        assert(prefix.last() == entries@[i as int]);
        if entries[i].1 {
            match yaml_stem(entries[i].0.as_str()) {
                Some(stem) => {
                    ids.push(stem);
                    assert(ids@.map_values(|s: String| s@) =~= before.map_values(|s: String| s@).push(f(entries@[i as int])));
                },
                None => {},
            }
        }
        assert(prefix.filter(pred) == if pred(prefix.last()) {
            prefix.drop_last().filter(pred).push(prefix.last())
        } else {
            prefix.drop_last().filter(pred)
        }) by {
            reveal_with_fuel(Seq::filter, 1);
        }
        assert(ids@.map_values(|s: String| s@) =~= prefix.filter(pred).map_values(f));
        i = i + 1;
    }
    assert(entries@.take(i as int) =~= entries@);
    ids
}

/// Keeps workflow definitions as files in one directory.
pub struct WorkflowStore {
    workflows_dir: String,
}

impl WorkflowStore {
    /// The store under `base_dir`: its files go in `base_dir/workflows`.
    pub fn new(base_dir: &str) -> (s: Self)
        ensures
            s.dir() == joined(base_dir@, "workflows"@),
    {
        WorkflowStore { workflows_dir: join_path(base_dir, "workflows") }
    }

    /// The directory that holds the files.
    pub closed spec fn dir(&self) -> Seq<char> {
        self.workflows_dir@
    }

    /// The directory that holds the files.
    pub fn workflows_dir(&self) -> (d: &str)
        ensures
            d@ == self.dir(),
    {
        self.workflows_dir.as_str()
    }

    /// The file of the workflow `id`: `{id}.yaml` in the directory.
    pub fn workflow_path(&self, id: &str) -> (p: String)
        ensures
            p@ == joined(self.dir(), id@ + ".yaml"@),
    {
        let file = concat(id, ".yaml");
        join_path(self.workflows_dir.as_str(), file.as_str())
    }

    /// The error for a workflow that is not stored.
    pub fn not_found(id: &str) -> (e: Error)
        ensures
            e matches Error::WorkflowNotFound { workflow_id } && workflow_id@ == id@,
    {
        Error::WorkflowNotFound { workflow_id: owned(id) }
    }
}

} // verus!
