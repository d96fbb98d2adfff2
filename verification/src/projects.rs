//! The project list: directories on disk matched against the projects data
//! file, newest modification first.

use vstd::prelude::*;

verus! {

/// A project as the projects data file records it.
pub struct ProjectData {
    pub project_id: String,
    pub project_name: String,
}

/// The texts of a [`ProjectData`].
pub struct ProjectDataView {
    pub project_id: Seq<char>,
    pub project_name: Seq<char>,
}

impl View for ProjectData {
    type V = ProjectDataView;

    open spec fn view(&self) -> ProjectDataView {
        ProjectDataView { project_id: self.project_id@, project_name: self.project_name@ }
    }
}

impl ProjectData {
    /// A copy of this record.
    pub fn duplicate(&self) -> (copy: ProjectData)
        ensures
            copy@ == self@,
    {
        ProjectData { project_id: self.project_id.clone(), project_name: self.project_name.clone() }
    }
}

/// What the project list needs of one entry of the projects directory.
/// Times are nanoseconds since the Unix epoch.
pub struct DirEntryInfo {
    pub dir_name: String,
    pub is_dir: bool,
    pub created: i128,
    pub modified: i128,
}

/// The values of a [`DirEntryInfo`].
pub struct DirEntryView {
    pub dir_name: Seq<char>,
    pub is_dir: bool,
    pub created: i128,
    pub modified: i128,
}

impl View for DirEntryInfo {
    type V = DirEntryView;

    open spec fn view(&self) -> DirEntryView {
        DirEntryView {
            dir_name: self.dir_name@,
            is_dir: self.is_dir,
            created: self.created,
            modified: self.modified,
        }
    }
}

/// A project shown in the project list. Times are nanoseconds since the
/// Unix epoch.
pub struct ProjectInfo {
    pub dir_name: String,
    pub project_id: String,
    pub project_name: String,
    pub created: i128,
    pub modified: i128,
}

/// The values of a [`ProjectInfo`].
pub struct ProjectInfoView {
    pub dir_name: Seq<char>,
    pub project_id: Seq<char>,
    pub project_name: Seq<char>,
    pub created: i128,
    pub modified: i128,
}

impl View for ProjectInfo {
    type V = ProjectInfoView;

    open spec fn view(&self) -> ProjectInfoView {
        ProjectInfoView {
            dir_name: self.dir_name@,
            project_id: self.project_id@,
            project_name: self.project_name@,
            created: self.created,
            modified: self.modified,
        }
    }
}

/// The views of the elements of a vector.
pub open spec fn views<T: View>(s: Seq<T>) -> Seq<T::V> {
    s.map_values(|x: T| x@)
}

/// Whether `i` is the first position of `data` whose id is `id`.
pub open spec fn is_first_with_id(data: Seq<ProjectDataView>, id: Seq<char>, i: int) -> bool {
    &&& 0 <= i < data.len()
    &&& data[i].project_id == id
    &&& forall|j: int| 0 <= j < i ==> data[j].project_id != id
}

/// The first position of `data` whose id is `id`, if any.
pub open spec fn first_with_id(data: Seq<ProjectDataView>, id: Seq<char>) -> Option<int> {
    if exists|i: int| 0 <= i < data.len() && data[i].project_id == id {
        Some(choose|i: int| is_first_with_id(data, id, i))
    } else {
        None
    }
}

proof fn lemma_first_with_id(data: Seq<ProjectDataView>, id: Seq<char>, i: int)
    requires
        is_first_with_id(data, id, i),
    ensures
        first_with_id(data, id) == Some(i),
{
    let k = choose|k: int| is_first_with_id(data, id, k);
    assert(is_first_with_id(data, id, k));
    if k < i {
        assert(data[k].project_id != id);
    } else if i < k {
        assert(data[i].project_id != id);
    }
}

/// Position of the first project of `data` whose id is `id`.
pub fn find_project(data: &Vec<ProjectData>, id: &String) -> (found: Option<usize>)
    ensures
        match found {
            Some(i) => is_first_with_id(views(data@), id@, i as int) && first_with_id(views(data@), id@)
                == Some(i as int),
            None => first_with_id(views(data@), id@) is None,
        },
{
    let ghost dv = views(data@);
    let mut i: usize = 0;
    while i < data.len()
        invariant
            i <= data@.len(),
            dv == views(data@),
            forall|j: int| 0 <= j < i ==> dv[j].project_id != id@,
        decreases data@.len() - i,
    {
        if data[i].project_id == *id {
            proof {
                assert(is_first_with_id(dv, id@, i as int));
                lemma_first_with_id(dv, id@, i as int);
            }
            return Some(i);
        }
        i = i + 1;
    }
    proof {
        assert(!exists|k: int| 0 <= k < dv.len() && dv[k].project_id == id@);
    }
    None
}

/// The list entry for a directory: directories whose name is the id of a
/// project of the data file, with that project's id and name.
pub open spec fn project_for(entry: DirEntryView, data: Seq<ProjectDataView>) -> Option<ProjectInfoView> {
    if !entry.is_dir {
        None
    } else {
        match first_with_id(data, entry.dir_name) {
            Some(i) => Some(
                ProjectInfoView {
                    dir_name: entry.dir_name,
                    project_id: data[i].project_id,
                    project_name: data[i].project_name,
                    created: entry.created,
                    modified: entry.modified,
                },
            ),
            None => None,
        }
    }
}

/// The entries that are projects, in directory order.
pub open spec fn matched_projects(entries: Seq<DirEntryView>, data: Seq<ProjectDataView>) -> Seq<ProjectInfoView> {
    entries.filter_map(|e: DirEntryView| project_for(e, data))
}

/// `x` placed into `sorted` after every element modified no earlier than it.
pub open spec fn insert_newest_first(sorted: Seq<ProjectInfoView>, x: ProjectInfoView) -> Seq<ProjectInfoView>
    decreases sorted.len(),
{
    if sorted.len() == 0 {
        seq![x]
    } else if sorted.last().modified >= x.modified {
        sorted.push(x)
    } else {
        insert_newest_first(sorted.drop_last(), x).push(sorted.last())
    }
}

/// `s` ordered by modification time, newest first; projects modified at the
/// same instant keep their order.
pub open spec fn newest_first(s: Seq<ProjectInfoView>) -> Seq<ProjectInfoView>
    decreases s.len(),
{
    if s.len() == 0 {
        s
    } else {
        insert_newest_first(newest_first(s.drop_last()), s.last())
    }
}

proof fn lemma_insert_at(t: Seq<ProjectInfoView>, x: ProjectInfoView, pos: int)
    requires
        0 <= pos <= t.len(),
        forall|k: int| pos <= k < t.len() ==> #[trigger] t[k].modified < x.modified,
        pos == 0 || t[pos - 1].modified >= x.modified,
    ensures
        insert_newest_first(t, x) == t.insert(pos, x),
    decreases t.len(),
{
    if t.len() == 0 {
        assert(t.insert(pos, x) =~= seq![x]);
    } else if pos == t.len() {
        assert(t.insert(pos, x) =~= t.push(x));
    } else {
        assert(t.last().modified < x.modified);
        lemma_insert_at(t.drop_last(), x, pos);
        assert(t.drop_last().insert(pos, x).push(t.last()) =~= t.insert(pos, x));
    }
}

/// Inserts `x` after every project modified no earlier than it.
fn insert_by_modified(sorted: &mut Vec<ProjectInfo>, x: ProjectInfo)
    ensures
        views(final(sorted)@) == insert_newest_first(views(old(sorted)@), x@),
{
    let mut pos = sorted.len();
    while pos > 0 && sorted[pos - 1].modified < x.modified
        invariant
            pos <= sorted@.len(),
            sorted@ == old(sorted)@,
            forall|k: int| pos <= k < sorted@.len() ==> #[trigger] sorted@[k].modified < x.modified,
        decreases pos,
    {
        pos = pos - 1;
    }
    let ghost before = sorted@;
    proof {
        lemma_insert_at(views(before), x@, pos as int);
    }
    sorted.insert(pos, x);
    assert(views(sorted@) =~= views(before).insert(pos as int, x@));
}

/// Orders the projects by modification time, newest first; projects
/// modified at the same instant keep their order.
pub fn sort_newest_first(projects: &mut Vec<ProjectInfo>)
    ensures
        views(final(projects)@) == newest_first(views(old(projects)@)),
{
    let mut rest: Vec<ProjectInfo> = Vec::new();
    std::mem::swap(&mut rest, projects);
    let ghost all = views(rest@);
    let n = rest.len();
    assert(all.len() == n);
    let mut sorted: Vec<ProjectInfo> = Vec::new();
    let mut i: usize = 0;
    assert(all.take(0) =~= Seq::<ProjectInfoView>::empty());
    while rest.len() > 0
        invariant
            all.len() == i + rest@.len(),
            all.len() <= usize::MAX,
            views(rest@) == all.skip(i as int),
            views(sorted@) == newest_first(all.take(i as int)),
        decreases rest@.len(),
    {
        let ghost old_rest = rest@;
        let x = rest.remove(0);
        proof {
            assert(views(old_rest)[0] == all[i as int]);
            assert(x@ == all[i as int]);
            assert(all.take(i as int + 1).drop_last() =~= all.take(i as int));
            assert(all.take(i as int + 1).last() == all[i as int]);
            assert forall|k: int| 0 <= k < rest@.len() implies #[trigger] views(rest@)[k] == all.skip(
                i as int + 1,
            )[k] by {
                assert(rest@[k] == old_rest[k + 1]);
                assert(views(old_rest)[k + 1] == all.skip(i as int)[k + 1]);
            }
            assert(views(rest@) =~= all.skip(i as int + 1));
        }
        insert_by_modified(&mut sorted, x);
        i = i + 1;
    }
    assert(all.take(i as int) =~= all);
    *projects = sorted;
}

/// The project list for the given directory entries: every directory whose
/// name is the id of a project of the data file (the first such project
/// gives the id and name), newest modification first; entries modified at the
/// same instant keep directory order.
pub fn collect_projects(entries: &Vec<DirEntryInfo>, data: &Vec<ProjectData>) -> (projects: Vec<ProjectInfo>)
    ensures
        views(projects@) == newest_first(matched_projects(views(entries@), views(data@))),
{
    let ghost ev = views(entries@);
    let ghost dv = views(data@);
    let ghost f = |e: DirEntryView| project_for(e, dv);
    let mut projects: Vec<ProjectInfo> = Vec::new();
    let mut i: usize = 0;
    while i < entries.len()
        invariant
            i <= entries@.len(),
            ev == views(entries@),
            dv == views(data@),
            f == (|e: DirEntryView| project_for(e, dv)),
            views(projects@) == ev.take(i as int).filter_map(f),
        decreases entries@.len() - i,
    {
        let entry = &entries[i];
        proof {
            ev.lemma_filter_map_take_succ(f, i as int);
        }
        if entry.is_dir {
            match find_project(data, &entry.dir_name) {
                Some(k) => {
                    let info = ProjectInfo {
                        dir_name: entry.dir_name.clone(),
                        project_id: data[k].project_id.clone(),
                        project_name: data[k].project_name.clone(),
                        created: entry.created,
                        modified: entry.modified,
                    };
                    let ghost before = projects@;
                    projects.push(info);
                    assert(views(projects@) =~= views(before) + seq![info@]);
                },
                None => {},
            }
        }
        i = i + 1;
    }
    assert(ev.take(i as int) =~= ev);
    sort_newest_first(&mut projects);
    projects
}

proof fn lemma_insert_len(t: Seq<ProjectInfoView>, x: ProjectInfoView)
    ensures
        insert_newest_first(t, x).len() == t.len() + 1,
    decreases t.len(),
{
    if t.len() > 0 && t.last().modified < x.modified {
        lemma_insert_len(t.drop_last(), x);
    }
}

proof fn lemma_insert_lower_bound(t: Seq<ProjectInfoView>, x: ProjectInfoView, b: int)
    requires
        forall|k: int| 0 <= k < t.len() ==> #[trigger] t[k].modified >= b,
        x.modified >= b,
    ensures
        forall|k: int|
            0 <= k < insert_newest_first(t, x).len() ==> #[trigger] insert_newest_first(t, x)[k].modified
                >= b,
    decreases t.len(),
{
    if t.len() == 0 {
    } else if t.last().modified >= x.modified {
        assert forall|k: int| 0 <= k < t.len() + 1 implies #[trigger] t.push(x)[k].modified >= b by {
            if k < t.len() {
                assert(t.push(x)[k] == t[k]);
            }
        }
    } else {
        let d = t.drop_last();
        lemma_insert_lower_bound(d, x, b);
        lemma_insert_len(d, x);
        let r = insert_newest_first(d, x);
        assert forall|k: int| 0 <= k < r.len() + 1 implies #[trigger] r.push(t.last())[k].modified >= b by {
            if k < r.len() {
                assert(r.push(t.last())[k] == r[k]);
            }
        }
    }
}

/// Whether `r` runs from the most recently modified project to the least.
pub open spec fn is_newest_first(r: Seq<ProjectInfoView>) -> bool {
    forall|i: int, j: int| 0 <= i < j < r.len() ==> #[trigger] r[i].modified >= #[trigger] r[j].modified
}

proof fn lemma_insert_sorted(t: Seq<ProjectInfoView>, x: ProjectInfoView)
    requires
        is_newest_first(t),
    ensures
        is_newest_first(insert_newest_first(t, x)),
    decreases t.len(),
{
    if t.len() == 0 {
    } else if t.last().modified >= x.modified {
        assert forall|i: int, j: int| 0 <= i < j < t.len() + 1 implies #[trigger] t.push(x)[i].modified
            >= #[trigger] t.push(x)[j].modified by {
            if j == t.len() && i < t.len() - 1 {
                assert(t[i].modified >= t[t.len() - 1].modified);
            }
        }
    } else {
        let d = t.drop_last();
        lemma_insert_sorted(d, x);
        lemma_insert_len(d, x);
        assert forall|k: int| 0 <= k < d.len() implies #[trigger] d[k].modified >= t.last().modified by {
            assert(t[k].modified >= t[t.len() - 1].modified);
        }
        lemma_insert_lower_bound(d, x, t.last().modified as int);
    }
}

/// The project list runs from the most recently modified project to the least.
pub proof fn lemma_newest_first_is_ordered(s: Seq<ProjectInfoView>)
    ensures
        is_newest_first(newest_first(s)),
    decreases s.len(),
{
    if s.len() > 0 {
        lemma_newest_first_is_ordered(s.drop_last());
        lemma_insert_sorted(newest_first(s.drop_last()), s.last());
    }
}

proof fn lemma_insert_multiset(t: Seq<ProjectInfoView>, x: ProjectInfoView)
    ensures
        insert_newest_first(t, x).to_multiset() =~= t.to_multiset().insert(x),
    decreases t.len(),
{
    broadcast use vstd::seq_lib::to_multiset_build;

    if t.len() == 0 {
        assert(seq![x] =~= t.push(x));
    } else if t.last().modified >= x.modified {
    } else {
        let d = t.drop_last();
        lemma_insert_multiset(d, x);
        assert(d.push(t.last()) =~= t);
    }
}

/// Ordering the project list loses no project and adds none.
pub proof fn lemma_newest_first_keeps_projects(s: Seq<ProjectInfoView>)
    ensures
        newest_first(s).to_multiset() =~= s.to_multiset(),
    decreases s.len(),
{
    broadcast use vstd::seq_lib::to_multiset_build;

    if s.len() > 0 {
        let d = s.drop_last();
        lemma_newest_first_keeps_projects(d);
        lemma_insert_multiset(newest_first(d), s.last());
        assert(d.push(s.last()) =~= s);
    }
}

/// Projects modified at instant `key`.
pub open spec fn modified_at(key: i128) -> spec_fn(ProjectInfoView) -> bool {
    |p: ProjectInfoView| p.modified == key
}

proof fn lemma_insert_filter(t: Seq<ProjectInfoView>, x: ProjectInfoView, key: i128)
    ensures
        insert_newest_first(t, x).filter(modified_at(key)) == if x.modified == key {
            t.filter(modified_at(key)).push(x)
        } else {
            t.filter(modified_at(key))
        },
    decreases t.len(),
{
    let p = modified_at(key);
    if t.len() == 0 {
        assert(seq![x] =~= t.push(x));
        t.lemma_filter_push(x, p);
    } else if t.last().modified >= x.modified {
        t.lemma_filter_push(x, p);
    } else {
        let d = t.drop_last();
        lemma_insert_filter(d, x, key);
        insert_newest_first(d, x).lemma_filter_push(t.last(), p);
        d.lemma_filter_push(t.last(), p);
        assert(d.push(t.last()) =~= t);
    }
}

/// Projects modified at the same instant keep their directory order.
pub proof fn lemma_newest_first_is_stable(s: Seq<ProjectInfoView>, key: i128)
    ensures
        newest_first(s).filter(modified_at(key)) == s.filter(modified_at(key)),
    decreases s.len(),
{
    if s.len() > 0 {
        let d = s.drop_last();
        lemma_newest_first_is_stable(d, key);
        lemma_insert_filter(newest_first(d), s.last(), key);
        d.lemma_filter_push(s.last(), modified_at(key));
        assert(d.push(s.last()) =~= s);
    }
}

} // verus!
