//! The task store: the sole owner of task records, a mapping from task
//! id to record. Reads hand out independent copies, never live aliases.
//! Beside the mapping it keeps the ids in insertion order, so that a
//! listing of all tasks is stable.

use vstd::prelude::*;

use vstd::hash_map::StringHashMap;

use crate::models::{DownloadStatus, DownloadTask, TaskView, VideoInfo};

verus! {

/// The task records as a mathematical map, keyed by task id.
pub open spec fn task_views(m: Map<Seq<char>, DownloadTask>) -> Map<Seq<char>, TaskView> {
    m.map_values(|t: DownloadTask| t@)
}

/// Filing a record moves the view map by an insert of the record's view.
proof fn lemma_task_views_insert(m: Map<Seq<char>, DownloadTask>, k: Seq<char>, t: DownloadTask)
    ensures
        task_views(m.insert(k, t)) == task_views(m).insert(k, t@),
{
    let a = task_views(m.insert(k, t));
    let b = task_views(m).insert(k, t@);
    assert forall|x: Seq<char>| a.dom().contains(x) implies b.dom().contains(x) && a[x]
        == b[x] by {
        if x == k {
            assert(m.insert(k, t)[x] == t);
        } else {
            assert(m.insert(k, t)[x] == m[x]);
        }
    }
    assert forall|x: Seq<char>| b.dom().contains(x) implies a.dom().contains(x) by {}
    assert(a =~= b);
}

/// Dropping a record moves the view map by a remove.
proof fn lemma_task_views_remove(m: Map<Seq<char>, DownloadTask>, k: Seq<char>)
    ensures
        task_views(m.remove(k)) == task_views(m).remove(k),
{
    let a = task_views(m.remove(k));
    let b = task_views(m).remove(k);
    assert forall|x: Seq<char>| a.dom().contains(x) implies b.dom().contains(x) && a[x]
        == b[x] by {
        assert(m.remove(k)[x] == m[x]);
    }
    assert forall|x: Seq<char>| b.dom().contains(x) implies a.dom().contains(x) by {}
    assert(a =~= b);
}

pub struct TaskStore {
    map: StringHashMap<DownloadTask>,
    order: Vec<String>,
}

impl View for TaskStore {
    type V = Map<Seq<char>, TaskView>;

    closed spec fn view(&self) -> Map<Seq<char>, TaskView> {
        task_views(self.map@)
    }
}

impl TaskStore {
    /// The stored task ids, in insertion order.
    pub closed spec fn key_order(&self) -> Seq<Seq<char>> {
        self.order.deep_view()
    }

    /// The id list names each stored key exactly once, and every record
    /// is filed under its own id with progress in range.
    pub open spec fn wf(&self) -> bool {
        &&& self.key_order().no_duplicates()
        &&& forall|i: int|
            0 <= i < self.key_order().len() ==> self@.contains_key(#[trigger] self.key_order()[i])
        &&& forall|k: Seq<char>| #[trigger] self@.contains_key(k) ==> self.key_order().contains(k)
        &&& forall|k: Seq<char>|
            #[trigger] self@.contains_key(k) ==> self@[k].id == k && self@[k].wf()
    }

    pub fn new() -> (r: Self)
        ensures
            r@ == Map::<Seq<char>, TaskView>::empty(),
            r.key_order() == Seq::<Seq<char>>::empty(),
            r.wf(),
    {
        let r = TaskStore { map: StringHashMap::new(), order: Vec::new() };
        proof {
            assert(r@ =~= Map::<Seq<char>, TaskView>::empty());
            assert(r.key_order() =~= Seq::<Seq<char>>::empty());
        }
        r
    }

    pub fn contains(&self, id: &str) -> (r: bool)
        ensures
            r == self@.contains_key(id@),
    {
        self.map.contains_key(id)
    }

    /// An independent copy of the record for `id`, if one is stored.
    pub fn get(&self, id: &str) -> (r: Option<DownloadTask>)
        ensures
            match r {
                Some(t) => self@.contains_key(id@) && t@ == self@[id@],
                None => !self@.contains_key(id@),
            },
    {
        match self.map.get(id) {
            Some(t) => Some(t.clone()),
            None => None,
        }
    }

    /// Independent copies of all records, in insertion order.
    pub fn get_all(&self) -> (r: Vec<DownloadTask>)
        requires
            self.wf(),
        ensures
            r@.len() == self.key_order().len(),
            forall|i: int|
                0 <= i < r@.len() ==> (#[trigger] r@[i])@ == self@[self.key_order()[i]],
    {
        let mut out: Vec<DownloadTask> = Vec::new();
        let mut i: usize = 0;
        while i < self.order.len()
            invariant
                self.wf(),
                i <= self.order@.len(),
                out@.len() == i,
                forall|t: int|
                    0 <= t < i ==> (#[trigger] out@[t])@ == self@[self.key_order()[t]],
            decreases self.order@.len() - i,
        {
            let id = &self.order[i];
            proof {
                assert(self.key_order()[i as int] == id@);
                assert(self@.contains_key(id@));
            }
            match self.map.get(id.as_str()) {
                Some(t) => {
                    out.push(t.clone());
                },
                None => {
                    proof {
                        assert(false);
                    }
                },
            }
            i = i + 1;
        }
        out
    }

    /// Files the record under its id, replacing any record already
    /// there; a new id goes to the end of the order.
    pub fn insert(&mut self, t: DownloadTask)
        requires
            old(self).wf(),
            t@.wf(),
        ensures
            final(self).wf(),
            final(self)@ == old(self)@.insert(t@.id, t@),
            final(self).key_order() == if old(self)@.contains_key(t@.id) {
                old(self).key_order()
            } else {
                old(self).key_order().push(t@.id)
            },
    {
        let ghost pre = *self;
        if !self.map.contains_key(t.id.as_str()) {
            self.order.push(t.id.clone());
            proof {
                assert(self.key_order() =~= pre.key_order().push(t.id@));
            }
        }
        let key = t.id.clone();
        self.map.insert(key, t);
        proof {
            assert(final(self)@ =~= old(self)@.insert(t@.id, t@));
            lemma_wf_after_insert(pre, *self, t);
        }
    }

    /// Sets the task's status; a missing id changes nothing.
    pub fn set_status(&mut self, id: &str, status: DownloadStatus)
        requires
            old(self).wf(),
        ensures
            final(self).wf(),
            final(self).key_order() == old(self).key_order(),
            old(self)@.contains_key(id@) ==> final(self)@ == old(self)@.insert(
                id@,
                TaskView { status, ..old(self)@[id@] },
            ),
            !old(self)@.contains_key(id@) ==> final(self)@ == old(self)@,
    {
        let ghost pre = *self;
        let updated = match self.map.get(id) {
            Some(t) => {
                let mut nt = t.clone();
                nt.status = status;
                Some(nt)
            },
            None => None,
        };
        match updated {
            Some(nt) => {
                proof {
                    assert(pre@.contains_key(id@));
                    assert(pre@[id@] == pre.map@[id@]@);
                }
                self.map.insert(id.to_owned(), nt);
                proof {
                    lemma_task_views_insert(pre.map@, id@, nt);
                    assert(final(self)@ =~= old(self)@.insert(
                        id@,
                        TaskView { status, ..old(self)@[id@] },
                    ));
                    lemma_wf_after_update(pre, *self, id@);
                }
            },
            None => {},
        }
    }

    /// Marks the task failed with the given message; a missing id
    /// changes nothing.
    pub fn set_error(&mut self, id: &str, error: String)
        requires
            old(self).wf(),
        ensures
            final(self).wf(),
            final(self).key_order() == old(self).key_order(),
            old(self)@.contains_key(id@) ==> final(self)@ == old(self)@.insert(
                id@,
                TaskView {
                    status: DownloadStatus::Failed,
                    error: Some(error@),
                    ..old(self)@[id@]
                },
            ),
            !old(self)@.contains_key(id@) ==> final(self)@ == old(self)@,
    {
        let ghost pre = *self;
        let updated = match self.map.get(id) {
            Some(t) => {
                let mut nt = t.clone();
                nt.status = DownloadStatus::Failed;
                nt.error = Some(error);
                Some(nt)
            },
            None => None,
        };
        match updated {
            Some(nt) => {
                proof {
                    assert(pre@.contains_key(id@));
                    assert(pre@[id@] == pre.map@[id@]@);
                }
                self.map.insert(id.to_owned(), nt);
                proof {
                    lemma_task_views_insert(pre.map@, id@, nt);
                    assert(final(self)@ =~= old(self)@.insert(
                        id@,
                        TaskView {
                            status: DownloadStatus::Failed,
                            error: Some(error@),
                            ..old(self)@[id@]
                        },
                    ));
                    lemma_wf_after_update(pre, *self, id@);
                }
            },
            None => {},
        }
    }

    /// Attaches resolved metadata; a missing id changes nothing.
    pub fn set_video_info(&mut self, id: &str, info: VideoInfo)
        requires
            old(self).wf(),
        ensures
            final(self).wf(),
            final(self).key_order() == old(self).key_order(),
            old(self)@.contains_key(id@) ==> final(self)@ == old(self)@.insert(
                id@,
                TaskView { video_info: Some(info@), ..old(self)@[id@] },
            ),
            !old(self)@.contains_key(id@) ==> final(self)@ == old(self)@,
    {
        let ghost pre = *self;
        let updated = match self.map.get(id) {
            Some(t) => {
                let mut nt = t.clone();
                nt.video_info = Some(info);
                Some(nt)
            },
            None => None,
        };
        match updated {
            Some(nt) => {
                proof {
                    assert(pre@.contains_key(id@));
                    assert(pre@[id@] == pre.map@[id@]@);
                }
                self.map.insert(id.to_owned(), nt);
                proof {
                    lemma_task_views_insert(pre.map@, id@, nt);
                    assert(final(self)@ =~= old(self)@.insert(
                        id@,
                        TaskView { video_info: Some(nt.video_info->Some_0@), ..old(self)@[id@] },
                    ));
                    lemma_wf_after_update(pre, *self, id@);
                }
            },
            None => {},
        }
    }

    /// Records a progress report: the percentage and what the line said
    /// about speed and remaining time. A missing id changes nothing.
    pub fn set_progress(
        &mut self,
        id: &str,
        progress: u32,
        speed: Option<String>,
        eta: Option<String>,
    )
        requires
            old(self).wf(),
            progress <= 100,
        ensures
            final(self).wf(),
            final(self).key_order() == old(self).key_order(),
            old(self)@.contains_key(id@) ==> final(self)@ == old(self)@.insert(
                id@,
                TaskView {
                    progress,
                    speed: speed.deep_view(),
                    eta: eta.deep_view(),
                    ..old(self)@[id@]
                },
            ),
            !old(self)@.contains_key(id@) ==> final(self)@ == old(self)@,
    {
        let ghost pre = *self;
        let updated = match self.map.get(id) {
            Some(t) => {
                let mut nt = t.clone();
                nt.progress = progress;
                nt.speed = speed;
                nt.eta = eta;
                Some(nt)
            },
            None => None,
        };
        match updated {
            Some(nt) => {
                proof {
                    assert(pre@.contains_key(id@));
                    assert(pre@[id@] == pre.map@[id@]@);
                }
                self.map.insert(id.to_owned(), nt);
                proof {
                    lemma_task_views_insert(pre.map@, id@, nt);
                    assert(final(self)@ =~= old(self)@.insert(
                        id@,
                        TaskView {
                            progress,
                            speed: nt.speed.deep_view(),
                            eta: nt.eta.deep_view(),
                            ..old(self)@[id@]
                        },
                    ));
                    lemma_wf_after_update(pre, *self, id@);
                }
            },
            None => {},
        }
    }

    /// Sets status and progress in one step (used when a run resolves).
    pub fn set_status_progress(&mut self, id: &str, status: DownloadStatus, progress: u32)
        requires
            old(self).wf(),
            progress <= 100,
        ensures
            final(self).wf(),
            final(self).key_order() == old(self).key_order(),
            old(self)@.contains_key(id@) ==> final(self)@ == old(self)@.insert(
                id@,
                TaskView { status, progress, ..old(self)@[id@] },
            ),
            !old(self)@.contains_key(id@) ==> final(self)@ == old(self)@,
    {
        let ghost pre = *self;
        let updated = match self.map.get(id) {
            Some(t) => {
                let mut nt = t.clone();
                nt.status = status;
                nt.progress = progress;
                Some(nt)
            },
            None => None,
        };
        match updated {
            Some(nt) => {
                proof {
                    assert(pre@.contains_key(id@));
                    assert(pre@[id@] == pre.map@[id@]@);
                }
                self.map.insert(id.to_owned(), nt);
                proof {
                    lemma_task_views_insert(pre.map@, id@, nt);
                    assert(final(self)@ =~= old(self)@.insert(
                        id@,
                        TaskView { status, progress, ..old(self)@[id@] },
                    ));
                    lemma_wf_after_update(pre, *self, id@);
                }
            },
            None => {},
        }
    }

    /// Removes the record for `id`, if any.
    pub fn remove(&mut self, id: &str)
        requires
            old(self).wf(),
        ensures
            final(self).wf(),
            final(self)@ == old(self)@.remove(id@),
            final(self).key_order() == old(self).key_order().remove_value(id@),
    {
        let ghost pre = *self;
        self.map.remove(id);
        proof {
            lemma_task_views_remove(pre.map@, id@);
        }
        let mut i: usize = 0;
        let n = self.order.len();
        while i < n
            invariant
                i <= n,
                n == self.order@.len(),
                pre == *old(self),
                pre.wf(),
                self.order == pre.order,
                self.map@ == pre.map@.remove(id@),
                forall|t: int| 0 <= t < i ==> pre.key_order()[t] != id@,
            decreases n - i,
        {
            let hit = crate::strutil::str_eq(self.order[i].as_str(), id);
            if hit {
                proof {
                    assert(pre.key_order()[i as int] == id@);
                    assert(pre.key_order().contains(id@));
                    pre.key_order().index_of_first_ensures(id@);
                    match pre.key_order().index_of_first(id@) {
                        Some(j) => {
                            if j < i as int {
                                assert(pre.key_order()[j] != id@);
                            }
                            if j > i as int {
                                assert(pre.key_order()[i as int] != id@);
                            }
                            assert(j == i as int);
                        },
                        None => {
                            assert(false);
                        },
                    }
                }
                self.order.remove(i);
                proof {
                    lemma_task_views_remove(pre.map@, id@);
                    assert(self.key_order() =~= pre.key_order().remove(i as int));
                    lemma_wf_after_remove(pre, *self, id@, i as int);
                }
                return ;
            }
            i = i + 1;
        }
        proof {
            lemma_task_views_remove(pre.map@, id@);
            assert(forall|t: int|
                0 <= t < pre.key_order().len() ==> pre.key_order()[t] != id@);
            pre.key_order().index_of_first_ensures(id@);
            if pre.key_order().contains(id@) {
                let w = choose|w: int|
                    0 <= w < pre.key_order().len() && pre.key_order()[w] == id@;
                assert(false);
            }
            assert(pre.key_order().remove_value(id@) == pre.key_order());
            assert(!pre@.contains_key(id@));
            lemma_wf_unchanged_order(pre, *self, id@);
        }
    }

    /// Removes every record whose status is final (Completed or
    /// Failed), leaving all others — Paused and Cancelled included —
    /// untouched, in their order.
    pub fn clear_completed(&mut self)
        requires
            old(self).wf(),
        ensures
            final(self).wf(),
            forall|k: Seq<char>|
                #[trigger] final(self)@.contains_key(k) <==> (old(self)@.contains_key(k)
                    && !old(self)@[k].status.is_terminal()),
            forall|k: Seq<char>|
                #[trigger] final(self)@.contains_key(k) ==> final(self)@[k] == old(self)@[k],
            final(self).key_order() == old(self).key_order().filter(
                |k: Seq<char>| !old(self)@[k].status.is_terminal(),
            ),
    {
        let ghost pre = *self;
        let ghost pred = |k: Seq<char>| !pre@[k].status.is_terminal();
        let mut kept: Vec<String> = Vec::new();
        let mut i: usize = 0;
        let n = self.order.len();
        proof {
            reveal(Seq::filter);
            assert(pre.key_order().subrange(0, 0) =~= Seq::<Seq<char>>::empty());
            assert(kept.deep_view() =~= Seq::<Seq<char>>::empty());
        }
        while i < n
            invariant
                i <= n,
                n == self.order@.len(),
                self.order == pre.order,
                pre.wf(),
                pred == (|k: Seq<char>| !pre@[k].status.is_terminal()),
                forall|k: Seq<char>|
                    #[trigger] task_views(self.map@).contains_key(k) <==> (pre@.contains_key(k)
                        && !(pre@[k].status.is_terminal() && exists|t: int|
                        0 <= t < i && pre.key_order()[t] == k)),
                forall|k: Seq<char>|
                    #[trigger] task_views(self.map@).contains_key(k) ==> task_views(self.map@)[k]
                        == pre@[k],
                kept.deep_view() == pre.key_order().subrange(0, i as int).filter(pred),
            decreases n - i,
        {
            let ghost prefix = pre.key_order().subrange(0, i as int);
            let id = &self.order[i];
            proof {
                assert(pre.key_order()[i as int] == id@);
                assert(pre@.contains_key(id@));
                assert(prefix.push(id@) =~= pre.key_order().subrange(0, i + 1));
                reveal(Seq::filter);
                assert(prefix.push(id@).drop_last() =~= prefix);
            }
            let is_final = match self.map.get(id.as_str()) {
                Some(t) => t.status == DownloadStatus::Completed || t.status
                    == DownloadStatus::Failed,
                None => false,
            };
            if is_final {
                proof {
                    assert(task_views(self.map@).contains_key(id@));
                    assert(pre@[id@].status.is_terminal());
                }
                let ghost before = self.map@;
                self.map.remove(id.as_str());
                proof {
                    assert(task_views(self.map@) =~= task_views(before).remove(id@));
                    assert(forall|t: int|
                        0 <= t < pre.key_order().len() && pre.key_order()[t] == id@ ==> t
                            == i as int);
                }
            } else {
                let ghost kdv = kept.deep_view();
                proof {
                    // either the record is absent (was removed earlier: impossible for
                    // a fresh id) or it is present and not final
                    if task_views(self.map@).contains_key(id@) {
                        assert(task_views(self.map@)[id@] == pre@[id@]);
                        assert(!pre@[id@].status.is_terminal());
                    } else {
                        let t = choose|t: int| 0 <= t < i && pre.key_order()[t] == id@;
                        assert(false);
                    }
                }
                kept.push(id.clone());
                proof {
                    assert(kept.deep_view() =~= kdv.push(id@));
                }
            }
            i = i + 1;
        }
        proof {
            assert(pre.key_order().subrange(0, n as int) =~= pre.key_order());
        }
        self.order = kept;
        proof {
            lemma_wf_after_clear(pre, *self);
        }
    }
}

/// Well-formedness carries across filing a record under its own id.
proof fn lemma_wf_after_insert(pre: TaskStore, post: TaskStore, t: DownloadTask)
    requires
        pre.wf(),
        t@.wf(),
        post@ == pre@.insert(t@.id, t@),
        post.key_order() == if pre@.contains_key(t@.id) {
            pre.key_order()
        } else {
            pre.key_order().push(t@.id)
        },
    ensures
        post.wf(),
{
    if pre@.contains_key(t@.id) {
        assert(forall|k: Seq<char>|
            #[trigger] post@.contains_key(k) ==> pre@.contains_key(k));
    } else {
        let ko = post.key_order();
        assert(forall|i: int| 0 <= i < pre.key_order().len() ==> ko[i] == pre.key_order()[i]);
        assert(forall|i: int|
            0 <= i < pre.key_order().len() ==> pre.key_order()[i] != t@.id) by {
            assert(forall|i: int|
                0 <= i < pre.key_order().len() ==> pre@.contains_key(
                    #[trigger] pre.key_order()[i],
                ));
        }
        assert(ko.no_duplicates());
        assert forall|k: Seq<char>| pre.key_order().contains(k) implies #[trigger] ko.contains(
            k,
        ) by {
            let w = choose|w: int|
                0 <= w < pre.key_order().len() && pre.key_order()[w] == k;
            assert(ko[w] == k);
        }
        assert(ko[ko.len() - 1] == t@.id);
        assert(forall|k: Seq<char>| #[trigger] post@.contains_key(k) ==> ko.contains(k));
    }
}

/// Well-formedness carries across replacing a stored record with one
/// that keeps its id and a progress in range.
proof fn lemma_wf_after_update(pre: TaskStore, post: TaskStore, k: Seq<char>)
    requires
        pre.wf(),
        pre@.contains_key(k),
        post@.contains_key(k),
        post@ == pre@.insert(k, post@[k]),
        post@[k].id == k,
        post@[k].wf(),
        post.key_order() == pre.key_order(),
    ensures
        post.wf(),
{
    assert(forall|x: Seq<char>|
        #[trigger] post@.contains_key(x) ==> pre@.contains_key(x));
}

/// Well-formedness carries across removing a record and its id.
proof fn lemma_wf_after_remove(pre: TaskStore, post: TaskStore, k: Seq<char>, i: int)
    requires
        pre.wf(),
        0 <= i < pre.key_order().len(),
        pre.key_order()[i] == k,
        post@ == pre@.remove(k),
        post.key_order() == pre.key_order().remove(i),
    ensures
        post.wf(),
{
    let pko = pre.key_order();
    let ko = post.key_order();
    pko.remove_ensures(i);
    assert(ko.no_duplicates()) by {
        assert(forall|a: int, b: int|
            0 <= a < b < ko.len() ==> ko[a] != ko[b]) by {
            assert(forall|a: int| 0 <= a < i ==> ko[a] == pko[a]);
            assert(forall|a: int| i <= a < ko.len() ==> ko[a] == pko[a + 1]);
        }
    }
    assert(forall|a: int| 0 <= a < ko.len() ==> post@.contains_key(#[trigger] ko[a])) by {
        assert(forall|a: int| 0 <= a < i ==> ko[a] == pko[a]);
        assert(forall|a: int| i <= a < ko.len() ==> ko[a] == pko[a + 1]);
        assert(forall|a: int| 0 <= a < i ==> pko[a] != k);
        assert(forall|a: int| i < a < pko.len() ==> pko[a] != k);
    }
    assert(forall|x: Seq<char>| #[trigger] post@.contains_key(x) ==> ko.contains(x)) by {
        assert forall|x: Seq<char>| #[trigger] post@.contains_key(x) implies ko.contains(x) by {
            assert(pre@.contains_key(x) && x != k);
            let a = choose|a: int| 0 <= a < pko.len() && pko[a] == x;
            if a < i {
                assert(ko[a] == x);
            } else {
                assert(a != i);
                assert(ko[a - 1] == x);
            }
        }
    }
}

/// The order may stay as it was when the removed id was never stored.
proof fn lemma_wf_unchanged_order(pre: TaskStore, post: TaskStore, k: Seq<char>)
    requires
        pre.wf(),
        !pre@.contains_key(k),
        post@ == pre@.remove(k),
        post.key_order() == pre.key_order(),
    ensures
        post.wf(),
{
    assert(post@ =~= pre@);
}

/// Well-formedness carries across the terminal sweep.
proof fn lemma_wf_after_clear(pre: TaskStore, post: TaskStore)
    requires
        pre.wf(),
        forall|k: Seq<char>|
            #[trigger] post@.contains_key(k) <==> (pre@.contains_key(k)
                && !pre@[k].status.is_terminal()),
        forall|k: Seq<char>| #[trigger] post@.contains_key(k) ==> post@[k] == pre@[k],
        post.key_order() == pre.key_order().filter(
            |k: Seq<char>| !pre@[k].status.is_terminal(),
        ),
    ensures
        post.wf(),
{
    let pred = |k: Seq<char>| !pre@[k].status.is_terminal();
    let pko = pre.key_order();
    let ko = post.key_order();
    lemma_filter_no_duplicates(pko, pred);
    lemma_filter_members(pko, pred);
    assert(forall|a: int| 0 <= a < ko.len() ==> post@.contains_key(#[trigger] ko[a])) by {
        assert(forall|a: int| 0 <= a < ko.len() ==> pko.contains(#[trigger] ko[a]) && pred(ko[a]));
    }
    assert forall|x: Seq<char>| #[trigger] post@.contains_key(x) implies ko.contains(x) by {
        assert(pre@.contains_key(x) && pred(x));
        let a = choose|a: int| 0 <= a < pko.len() && pko[a] == x;
        pko.lemma_filter_contains(pred, a);
    }
}

/// A filtered sequence keeps only members of the source sequence that satisfy
/// the predicate.
proof fn lemma_filter_members<A>(s: Seq<A>, pred: spec_fn(A) -> bool)
    ensures
        forall|a: int|
            0 <= a < s.filter(pred).len() ==> s.contains(#[trigger] s.filter(pred)[a]) && pred(
                s.filter(pred)[a],
            ),
    decreases s.len(),
{
    reveal(Seq::filter);
    if s.len() > 0 {
        let d = s.drop_last();
        let f = s.filter(pred);
        let fd = d.filter(pred);
        lemma_filter_members(d, pred);
        assert forall|a: int| 0 <= a < f.len() implies s.contains(f[a]) && pred(f[a]) by {
            if pred(s.last()) {
                assert(f == fd.push(s.last()));
                if a < fd.len() {
                    assert(f[a] == fd[a]);
                    let w = choose|w: int| 0 <= w < d.len() && d[w] == fd[a];
                    assert(s[w] == f[a]);
                } else {
                    assert(f[a] == s.last());
                    assert(s[s.len() - 1] == s.last());
                }
            } else {
                assert(f == fd);
                let w = choose|w: int| 0 <= w < d.len() && d[w] == fd[a];
                assert(s[w] == f[a]);
            }
        }
    }
}

/// Filtering a duplicate-free sequence leaves it duplicate-free.
proof fn lemma_filter_no_duplicates<A>(s: Seq<A>, pred: spec_fn(A) -> bool)
    requires
        s.no_duplicates(),
    ensures
        s.filter(pred).no_duplicates(),
    decreases s.len(),
{
    reveal(Seq::filter);
    if s.len() > 0 {
        let d = s.drop_last();
        assert(d.no_duplicates()) by {
            assert(forall|a: int, b: int|
                0 <= a < b < d.len() ==> d[a] == s[a] && d[b] == s[b]);
        }
        lemma_filter_no_duplicates(d, pred);
        if pred(s.last()) {
            lemma_filter_members(d, pred);
            let f = d.filter(pred);
            assert(!f.contains(s.last())) by {
                if f.contains(s.last()) {
                    let a = choose|a: int| 0 <= a < f.len() && f[a] == s.last();
                    assert(d.contains(s.last()));
                    let b = choose|b: int| 0 <= b < d.len() && d[b] == s.last();
                    assert(d[b] == s[b]);
                    assert(s[b] == s[s.len() - 1]);
                    assert(false);
                }
            }
            assert(f.push(s.last()).no_duplicates()) by {
                assert(forall|a: int|
                    0 <= a < f.len() ==> f.push(s.last())[a] == f[a]);
                assert(forall|a: int|
                    0 <= a < f.len() ==> f[a] != s.last()) by {
                    assert(forall|a: int| 0 <= a < f.len() ==> f.contains(#[trigger] f[a]));
                }
            }
        }
    }
}

} // verus!
