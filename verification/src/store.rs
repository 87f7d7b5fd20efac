use vstd::prelude::*;
use crate::entities::{KVStore, Matter, NotificationRecord, RepeatTask, Tag, Todo};
use crate::errors::DbError;
use crate::strutil::{lemma_lex_lt_connected, lemma_lex_lt_trans, lex_lt, str_eq, str_lex_lt};
use vstd::string::StringExecFns;
use crate::time::Timestamp;

verus! {

// ---------------------------------------------------------------------------
// Generic table facts: every table is a sequence of records, unique by a
// string key, most of them kept sorted by an integer sort key.
// ---------------------------------------------------------------------------

/// The sequence is sorted ascending by the integer key `ord`.
pub open spec fn sorted_by_key<A>(s: Seq<A>, ord: spec_fn(A) -> int) -> bool {
    forall|i: int, j: int| 0 <= i <= j < s.len() ==> ord(#[trigger] s[i]) <= ord(#[trigger] s[j])
}

/// All records carry pairwise distinct string keys under `key`.
pub open spec fn keys_unique<A>(s: Seq<A>, key: spec_fn(A) -> Seq<char>) -> bool {
    forall|i: int, j: int| 0 <= i < j < s.len() ==> key(#[trigger] s[i]) != key(#[trigger] s[j])
}

/// `post` is `pre` with `x` inserted at its sort position: after every
/// record with an equal or smaller key, before the first strictly larger
/// one. For a sorted `pre` this pins the position exactly.
pub open spec fn inserted_by_key<A>(pre: Seq<A>, post: Seq<A>, x: A, ord: spec_fn(A) -> int) -> bool {
    exists|p: int|
        0 <= p <= pre.len() && post == #[trigger] pre.insert(p, x) && (forall|k: int|
            0 <= k < p ==> ord(#[trigger] pre[k]) <= ord(x)) && (p < pre.len() ==> ord(x) < ord(
            pre[p],
        ))
}

/// Inserting at the sort position preserves sortedness.
pub proof fn lemma_insert_keeps_order<A>(pre: Seq<A>, p: int, x: A, ord: spec_fn(A) -> int)
    requires
        sorted_by_key(pre, ord),
        0 <= p <= pre.len(),
        forall|k: int| 0 <= k < p ==> ord(#[trigger] pre[k]) <= ord(x),
        p < pre.len() ==> ord(x) < ord(pre[p]),
    ensures
        sorted_by_key(pre.insert(p, x), ord),
{
    pre.insert_ensures(p, x);
    let post = pre.insert(p, x);
    assert forall|i: int, j: int| 0 <= i <= j < post.len() implies ord(post[i]) <= ord(
        post[j],
    ) by {
        if i > p {
            assert(pre.insert(p, x)[(i - 1) + 1] == pre[i - 1]);
        }
        if j > p {
            assert(pre.insert(p, x)[(j - 1) + 1] == pre[j - 1]);
        }
        if i < p && j == p {
            assert(ord(pre[i]) <= ord(x));
        }
        if i == p && j > p {
            assert(ord(pre[j - 1]) >= ord(x));
        }
    }
}

/// Inserting a record whose key is fresh preserves key uniqueness.
pub proof fn lemma_insert_keeps_unique<A>(pre: Seq<A>, p: int, x: A, key: spec_fn(A) -> Seq<char>)
    requires
        keys_unique(pre, key),
        0 <= p <= pre.len(),
        forall|k: int| 0 <= k < pre.len() ==> key(#[trigger] pre[k]) != key(x),
    ensures
        keys_unique(pre.insert(p, x), key),
{
    pre.insert_ensures(p, x);
    let post = pre.insert(p, x);
    assert forall|i: int, j: int| 0 <= i < j < post.len() implies key(post[i]) != key(
        post[j],
    ) by {
        if i > p {
            assert(pre.insert(p, x)[(i - 1) + 1] == pre[i - 1]);
        }
        if j > p {
            assert(pre.insert(p, x)[(j - 1) + 1] == pre[j - 1]);
        }
    }
}

/// Removing a record preserves sortedness and uniqueness, and no record of
/// the removed key remains.
pub proof fn lemma_remove_keeps<A>(
    pre: Seq<A>,
    i: int,
    ord: spec_fn(A) -> int,
    key: spec_fn(A) -> Seq<char>,
)
    requires
        sorted_by_key(pre, ord),
        keys_unique(pre, key),
        0 <= i < pre.len(),
    ensures
        sorted_by_key(pre.remove(i), ord),
        keys_unique(pre.remove(i), key),
        forall|k: int| 0 <= k < pre.remove(i).len() ==> key(#[trigger] pre.remove(i)[k]) != key(
            pre[i],
        ),
{
    pre.remove_ensures(i);
    let post = pre.remove(i);
    assert forall|a: int, b: int| 0 <= a <= b < post.len() implies ord(post[a]) <= ord(
        post[b],
    ) by {
        if a >= i {
            assert(pre.remove(i)[a] == pre[a + 1]);
        }
        if b >= i {
            assert(pre.remove(i)[b] == pre[b + 1]);
        }
    }
    assert forall|a: int, b: int| 0 <= a < b < post.len() implies key(post[a]) != key(
        post[b],
    ) by {
        if a >= i {
            assert(pre.remove(i)[a] == pre[a + 1]);
        }
        if b >= i {
            assert(pre.remove(i)[b] == pre[b + 1]);
        }
    }
    assert forall|k: int| 0 <= k < post.len() implies key(post[k]) != key(pre[i]) by {
        if k >= i {
            assert(pre.remove(i)[k] == pre[k + 1]);
        }
    }
}

/// Filtering distributes over `push`.
pub proof fn lemma_filter_push<A>(s: Seq<A>, x: A, pred: spec_fn(A) -> bool)
    ensures
        s.push(x).filter(pred) == if pred(x) {
            s.filter(pred).push(x)
        } else {
            s.filter(pred)
        },
{
    reveal(Seq::filter);
    assert(s.push(x).drop_last() =~= s);
    assert(s.push(x).last() == x);
}

/// Replacing records pointwise while keeping every sort key and every
/// string key preserves sortedness and uniqueness.
pub proof fn lemma_pointwise_same_key_ord<A>(
    pre: Seq<A>,
    post: Seq<A>,
    ord: spec_fn(A) -> int,
    key: spec_fn(A) -> Seq<char>,
)
    requires
        sorted_by_key(pre, ord),
        keys_unique(pre, key),
        post.len() == pre.len(),
        forall|k: int|
            0 <= k < pre.len() ==> ord(#[trigger] post[k]) == ord(pre[k]) && key(post[k]) == key(
                pre[k],
            ),
    ensures
        sorted_by_key(post, ord),
        keys_unique(post, key),
{
}

/// A filter that rejects every element yields the empty sequence.
pub proof fn lemma_filter_none<A>(s: Seq<A>, pred: spec_fn(A) -> bool)
    requires
        forall|i: int| 0 <= i < s.len() ==> !pred(#[trigger] s[i]),
    ensures
        s.filter(pred) =~= Seq::<A>::empty(),
    decreases s.len(),
{
    reveal(Seq::filter);
    if s.len() > 0 {
        lemma_filter_none(s.drop_last(), pred);
    }
}

// ---------------------------------------------------------------------------
// Entity-specific spec shorthands
// ---------------------------------------------------------------------------

pub open spec fn matter_key(m: Matter) -> Seq<char> {
    m.id@
}

pub open spec fn matter_ord(m: Matter) -> int {
    m.start_time.epoch_nanos as int
}

pub open spec fn has_matter(s: Seq<Matter>, id: Seq<char>) -> bool {
    exists|i: int| 0 <= i < s.len() && (#[trigger] s[i]).id@ == id
}

/// The tag table is kept strictly sorted by name in lexicographic order,
/// which also makes names unique.
pub open spec fn tags_sorted(s: Seq<Tag>) -> bool {
    forall|i: int, j: int| 0 <= i < j < s.len() ==> lex_lt(#[trigger] s[i].name@, #[trigger] s[j].name@)
}

pub open spec fn has_tag(s: Seq<Tag>, name: Seq<char>) -> bool {
    exists|i: int| 0 <= i < s.len() && (#[trigger] s[i]).name@ == name
}

/// The effect of idempotent tag creation: an existing name leaves the
/// table untouched; a new name enters it at some position with both
/// instants stamped `now`.
pub open spec fn tag_create_rel(pre: Seq<Tag>, post: Seq<Tag>, name: Seq<char>, now: Timestamp) -> bool {
    if has_tag(pre, name) {
        post == pre
    } else {
        exists|p: int|
            0 <= p <= pre.len() && post == #[trigger] pre.insert(p, post[p]) && post[p].name@
                == name && post[p].created_at == now && post[p].last_used_at == now
    }
}

pub open spec fn kv_key(e: KVStore) -> Seq<char> {
    e.key@
}

pub open spec fn has_kv(s: Seq<KVStore>, key: Seq<char>) -> bool {
    exists|i: int| 0 <= i < s.len() && (#[trigger] s[i]).key@ == key
}

/// The effect of an upsert of `k` to `v` at instant `now`: an existing
/// entry keeps its key and creation instant and takes the new value and
/// update instant; a missing key appends a fresh entry with both instants
/// set to `now`. Every other entry is untouched.
pub open spec fn kv_set_rel(
    pre: Seq<KVStore>,
    post: Seq<KVStore>,
    k: Seq<char>,
    v: Seq<char>,
    now: Timestamp,
) -> bool {
    if has_kv(pre, k) {
        exists|i: int|
            0 <= i < pre.len() && (#[trigger] pre[i]).key@ == k && post.len() == pre.len() && (
            forall|j: int| 0 <= j < pre.len() && j != i ==> post[j] == pre[j]) && post[i].key
                == pre[i].key && post[i].value@ == v && post[i].created_at == pre[i].created_at
                && post[i].updated_at == now
    } else {
        post.len() == pre.len() + 1 && (forall|j: int| 0 <= j < pre.len() ==> post[j] == pre[j])
            && post.last().key@ == k && post.last().value@ == v && post.last().created_at == now
            && post.last().updated_at == now
    }
}

/// Some record carries the given id and is unread.
pub open spec fn has_unread_note(s: Seq<NotificationRecord>, id: Seq<char>) -> bool {
    exists|i: int| 0 <= i < s.len() && (#[trigger] s[i]).status == 0 && s[i].id@ == id
}

pub open spec fn task_key(t: RepeatTask) -> Seq<char> {
    t.id@
}

/// Recurring tasks are ordered newest first: ascending in the negated
/// creation instant.
pub open spec fn task_ord(t: RepeatTask) -> int {
    -(t.created_at.epoch_nanos as int)
}

pub open spec fn has_task(s: Seq<RepeatTask>, id: Seq<char>) -> bool {
    exists|i: int| 0 <= i < s.len() && (#[trigger] s[i]).id@ == id
}

pub open spec fn todo_key(t: Todo) -> Seq<char> {
    t.id@
}

pub open spec fn todo_ord(t: Todo) -> int {
    -(t.created_at.epoch_nanos as int)
}

pub open spec fn has_todo(s: Seq<Todo>, id: Seq<char>) -> bool {
    exists|i: int| 0 <= i < s.len() && (#[trigger] s[i]).id@ == id
}

pub open spec fn note_key(n: NotificationRecord) -> Seq<char> {
    n.id@
}

pub open spec fn note_ord(n: NotificationRecord) -> int {
    -(n.created_at.epoch_nanos as int)
}

pub open spec fn has_note(s: Seq<NotificationRecord>, id: Seq<char>) -> bool {
    exists|i: int| 0 <= i < s.len() && (#[trigger] s[i]).id@ == id
}

/// The event's stored interval intersects the queried range in any form:
/// its start lies within the range, or its end does, or it spans the whole
/// range. This is interval overlap, not containment.
pub open spec fn overlaps(m: Matter, start: Timestamp, end: Timestamp) -> bool {
    (start.le(m.start_time) && m.start_time.le(end)) || (start.le(m.end_time) && m.end_time.le(end))
        || (m.start_time.le(start) && end.le(m.end_time))
}

// ---------------------------------------------------------------------------
// The in-memory table state
// ---------------------------------------------------------------------------

/// The verified table state of the store: six tables of plain records. The
/// optional engine connection mirrors every accepted mutation to the
/// embedded database file; the sequences here are the authoritative model
/// that every contract speaks about.
pub struct Database {
    pub(crate) matters: Vec<Matter>,
    pub(crate) kv: Vec<KVStore>,
    pub(crate) tags: Vec<Tag>,
    pub(crate) tasks: Vec<RepeatTask>,
    pub(crate) todos: Vec<Todo>,
    pub(crate) notes: Vec<NotificationRecord>,
    pub(crate) conn: Option<rusqlite::Connection>,
}

impl Database {
    pub closed spec fn matter_rows(&self) -> Seq<Matter> {
        self.matters@
    }

    pub closed spec fn kv_rows(&self) -> Seq<KVStore> {
        self.kv@
    }

    pub closed spec fn tag_rows(&self) -> Seq<Tag> {
        self.tags@
    }

    pub closed spec fn task_rows(&self) -> Seq<RepeatTask> {
        self.tasks@
    }

    pub closed spec fn todo_rows(&self) -> Seq<Todo> {
        self.todos@
    }

    pub closed spec fn note_rows(&self) -> Seq<NotificationRecord> {
        self.notes@
    }

    /// Well-formedness: every table unique by its key; events sorted by
    /// start time ascending, recurring tasks, todos and notifications by
    /// creation time descending, tags by name ascending.
    pub open spec fn wf(&self) -> bool {
        &&& sorted_by_key(self.matter_rows(), |m: Matter| matter_ord(m))
        &&& keys_unique(self.matter_rows(), |m: Matter| matter_key(m))
        &&& keys_unique(self.kv_rows(), |e: KVStore| kv_key(e))
        &&& tags_sorted(self.tag_rows())
        &&& sorted_by_key(self.task_rows(), |t: RepeatTask| task_ord(t))
        &&& keys_unique(self.task_rows(), |t: RepeatTask| task_key(t))
        &&& sorted_by_key(self.todo_rows(), |t: Todo| todo_ord(t))
        &&& keys_unique(self.todo_rows(), |t: Todo| todo_key(t))
        &&& sorted_by_key(self.note_rows(), |n: NotificationRecord| note_ord(n))
        &&& keys_unique(self.note_rows(), |n: NotificationRecord| note_key(n))
    }

    /// An empty store with no engine connection attached.
    pub fn new() -> (r: Database)
        ensures
            r.wf(),
            r.matter_rows() =~= Seq::<Matter>::empty(),
            r.kv_rows() =~= Seq::<KVStore>::empty(),
            r.tag_rows() =~= Seq::<Tag>::empty(),
            r.task_rows() =~= Seq::<RepeatTask>::empty(),
            r.todo_rows() =~= Seq::<Todo>::empty(),
            r.note_rows() =~= Seq::<NotificationRecord>::empty(),
    {
        Database {
            matters: Vec::new(),
            kv: Vec::new(),
            tags: Vec::new(),
            tasks: Vec::new(),
            todos: Vec::new(),
            notes: Vec::new(),
            conn: None,
        }
    }

    /// Attaches the engine connection that mirrors accepted mutations;
    /// the table state is untouched.
    pub fn attach_connection(&mut self, conn: rusqlite::Connection)
        requires
            old(self).wf(),
        ensures
            final(self).wf(),
            final(self).matter_rows() == old(self).matter_rows(),
            final(self).kv_rows() == old(self).kv_rows(),
            final(self).tag_rows() == old(self).tag_rows(),
            final(self).task_rows() == old(self).task_rows(),
            final(self).todo_rows() == old(self).todo_rows(),
            final(self).note_rows() == old(self).note_rows(),
    {
        self.conn = Some(conn);
    }

    /// The attached engine connection, if one is attached.
    pub fn connection(&self) -> Option<&rusqlite::Connection> {
        match &self.conn {
            Some(c) => Some(c),
            None => None,
        }
    }
}

// ---------------------------------------------------------------------------
// Event ("matter") table operations
// ---------------------------------------------------------------------------

impl Database {
    /// The index of the event with the given id, if it is present.
    fn find_matter(&self, id: &str) -> (r: Option<usize>)
        ensures
            match r {
                Some(i) => i < self.matter_rows().len() && self.matter_rows()[i as int].id@ == id@,
                None => !has_matter(self.matter_rows(), id@),
            },
    {
        let n = self.matters.len();
        let mut i: usize = 0;
        while i < n
            invariant
                n == self.matter_rows().len(),
                0 <= i <= n,
                forall|k: int| 0 <= k < i ==> #[trigger] self.matter_rows()[k].id@ != id@,
            decreases n - i,
        {
            if str_eq(self.matters[i].id.as_str(), id) {
                return Some(i);
            }
            i = i + 1;
        }
        None
    }

    /// The sort position for an event starting at `t`: after every stored
    /// event with an equal or earlier start.
    fn matter_pos(&self, t: Timestamp) -> (p: usize)
        requires
            sorted_by_key(self.matter_rows(), |m: Matter| matter_ord(m)),
        ensures
            p <= self.matter_rows().len(),
            forall|k: int| 0 <= k < p ==> matter_ord(#[trigger] self.matter_rows()[k])
                <= t.epoch_nanos,
            p < self.matter_rows().len() ==> t.epoch_nanos < matter_ord(
                self.matter_rows()[p as int],
            ),
    {
        let n = self.matters.len();
        let mut p: usize = 0;
        while p < n && self.matters[p].start_time.epoch_nanos <= t.epoch_nanos
            invariant
                n == self.matter_rows().len(),
                0 <= p <= n,
                forall|k: int| 0 <= k < p ==> matter_ord(#[trigger] self.matter_rows()[k])
                    <= t.epoch_nanos,
            decreases n - p,
        {
            p = p + 1;
        }
        p
    }

    /// Inserts a new event. Fails with `ConstraintViolation`, leaving every
    /// table unchanged, exactly when the id is already present; otherwise
    /// the event enters the table at its sort position.
    pub fn create_matter(&mut self, m: &Matter) -> (r: Result<(), DbError>)
        requires
            old(self).wf(),
        ensures
            final(self).wf(),
            r is Ok <==> !has_matter(old(self).matter_rows(), m.id@),
            r is Ok ==> inserted_by_key(
                old(self).matter_rows(),
                final(self).matter_rows(),
                *m,
                |mm: Matter| matter_ord(mm),
            ),
            r is Err ==> r == Err::<(), DbError>(DbError::ConstraintViolation) && *final(self)
                == *old(self),
            final(self).kv_rows() == old(self).kv_rows(),
            final(self).tag_rows() == old(self).tag_rows(),
            final(self).task_rows() == old(self).task_rows(),
            final(self).todo_rows() == old(self).todo_rows(),
            final(self).note_rows() == old(self).note_rows(),
    {
        if self.find_matter(m.id.as_str()).is_some() {
            return Err(DbError::ConstraintViolation);
        }
        let pos = self.matter_pos(m.start_time);
        let ghost pre = self.matter_rows();
        self.matters.insert(pos, m.duplicate());
        proof {
            lemma_insert_keeps_order(pre, pos as int, *m, |mm: Matter| matter_ord(mm));
            lemma_insert_keeps_unique(pre, pos as int, *m, |mm: Matter| matter_key(mm));
        }
        Ok(())
    }

    /// The stored event with the given id, or `None`; a missing row is not
    /// an error.
    pub fn matter_by_id(&self, id: &str) -> (r: Option<Matter>)
        requires
            self.wf(),
        ensures
            match r {
                Some(m) => has_matter(self.matter_rows(), id@) && m.id@ == id@ && exists|i: int|
                    0 <= i < self.matter_rows().len() && self.matter_rows()[i] == m,
                None => !has_matter(self.matter_rows(), id@),
            },
    {
        match self.find_matter(id) {
            Some(i) => {
                let m = self.matters[i].duplicate();
                proof {
                    assert(self.matter_rows()[i as int] == m);
                }
                Some(m)
            },
            None => None,
        }
    }

    /// Every stored event, ordered by start time ascending.
    pub fn all_matters(&self) -> (r: Vec<Matter>)
        requires
            self.wf(),
        ensures
            r@ == self.matter_rows(),
            sorted_by_key(r@, |m: Matter| matter_ord(m)),
    {
        let n = self.matters.len();
        let mut out: Vec<Matter> = Vec::new();
        let mut i: usize = 0;
        while i < n
            invariant
                n == self.matter_rows().len(),
                0 <= i <= n,
                out@ =~= self.matter_rows().subrange(0, i as int),
            decreases n - i,
        {
            out.push(self.matters[i].duplicate());
            i = i + 1;
        }
        proof {
            assert(out@ =~= self.matter_rows());
        }
        out
    }

    /// Every stored event whose interval overlaps `[start, end]`, ordered
    /// by start time ascending.
    pub fn matters_in_range(&self, start: Timestamp, end: Timestamp) -> (r: Vec<Matter>)
        requires
            self.wf(),
        ensures
            r@ == self.matter_rows().filter(|m: Matter| overlaps(m, start, end)),
            sorted_by_key(r@, |m: Matter| matter_ord(m)),
            forall|k: int| 0 <= k < r@.len() ==> overlaps(#[trigger] r@[k], start, end),
    {
        let ghost pred = |m: Matter| overlaps(m, start, end);
        let n = self.matters.len();
        let mut out: Vec<Matter> = Vec::new();
        let mut i: usize = 0;
        proof {
            assert(self.matter_rows().subrange(0, 0).filter(pred) =~= Seq::<Matter>::empty())
                by {
                reveal(Seq::filter);
            }
        }
        while i < n
            invariant
                n == self.matter_rows().len(),
                0 <= i <= n,
                out@ == self.matter_rows().subrange(0, i as int).filter(pred),
                pred == (|m: Matter| overlaps(m, start, end)),
                sorted_by_key(self.matter_rows(), |m: Matter| matter_ord(m)),
                sorted_by_key(out@, |m: Matter| matter_ord(m)),
                forall|k: int| 0 <= k < out@.len() ==> overlaps(#[trigger] out@[k], start, end),
                i > 0 ==> forall|k: int| 0 <= k < out@.len() ==> matter_ord(#[trigger] out@[k])
                    <= matter_ord(self.matter_rows()[i - 1]),
            decreases n - i,
        {
            let m = &self.matters[i];
            let in_range = (start.epoch_nanos <= m.start_time.epoch_nanos
                && m.start_time.epoch_nanos <= end.epoch_nanos) || (start.epoch_nanos
                <= m.end_time.epoch_nanos && m.end_time.epoch_nanos <= end.epoch_nanos) || (
            m.start_time.epoch_nanos <= start.epoch_nanos && end.epoch_nanos
                <= m.end_time.epoch_nanos);
            proof {
                assert(self.matter_rows().subrange(0, i + 1).drop_last() =~= self.matter_rows()
                    .subrange(0, i as int));
                assert(self.matter_rows().subrange(0, i + 1) =~= self.matter_rows().subrange(
                    0,
                    i as int,
                ).push(self.matter_rows()[i as int]));
                lemma_filter_push(
                    self.matter_rows().subrange(0, i as int),
                    self.matter_rows()[i as int],
                    pred,
                );
            }
            let ghost out0 = out@;
            if in_range {
                out.push(m.duplicate());
            }
            proof {
                let rows = self.matter_rows();
                assert forall|k: int| 0 <= k < out@.len() implies matter_ord(#[trigger] out@[k])
                    <= matter_ord(rows[i as int]) by {
                    if k < out0.len() {
                        assert(out@[k] == out0[k]);
                        if i > 0 {
                            assert(matter_ord(out0[k]) <= matter_ord(rows[i - 1]));
                            assert(matter_ord(rows[i - 1]) <= matter_ord(rows[i as int]));
                        }
                    }
                }
                assert forall|a: int, b: int| 0 <= a <= b < out@.len() implies matter_ord(
                    out@[a],
                ) <= matter_ord(out@[b]) by {
                    if b < out0.len() {
                        assert(matter_ord(out0[a]) <= matter_ord(out0[b]));
                    } else {
                        assert(matter_ord(out@[a]) <= matter_ord(rows[i as int]));
                    }
                }
            }
            i = i + 1;
        }
        proof {
            assert(self.matter_rows().subrange(0, n as int) =~= self.matter_rows());
        }
        out
    }

    /// Full-row update by id of every mutable column: identifiers and the
    /// creation instant are kept from the stored row, everything else is
    /// taken from `m`. A missing id is a silent no-op.
    pub fn update_matter(&mut self, m: &Matter)
        requires
            old(self).wf(),
        ensures
            final(self).wf(),
            !has_matter(old(self).matter_rows(), m.id@) ==> *final(self) == *old(self),
            has_matter(old(self).matter_rows(), m.id@) ==> exists|i: int|
                0 <= i < old(self).matter_rows().len() && (#[trigger] old(
                    self,
                ).matter_rows()[i]).id@ == m.id@ && inserted_by_key(
                    old(self).matter_rows().remove(i),
                    final(self).matter_rows(),
                    matter_updated(old(self).matter_rows()[i], *m),
                    |mm: Matter| matter_ord(mm),
                ),
            final(self).kv_rows() == old(self).kv_rows(),
            final(self).tag_rows() == old(self).tag_rows(),
            final(self).task_rows() == old(self).task_rows(),
            final(self).todo_rows() == old(self).todo_rows(),
            final(self).note_rows() == old(self).note_rows(),
    {
        let idx = match self.find_matter(m.id.as_str()) {
            Some(i) => i,
            None => {
                return ;
            },
        };
        let ghost pre = self.matter_rows();
        let ghost gi = idx as int;
        let stored = self.matters.remove(idx);
        let upd = Matter {
            id: stored.id,
            title: m.title.clone(),
            description: crate::entities::clone_opt_string(&m.description),
            tags: crate::entities::clone_opt_string(&m.tags),
            start_time: m.start_time,
            end_time: m.end_time,
            priority: m.priority,
            type_: m.type_,
            created_at: stored.created_at,
            updated_at: m.updated_at,
            reserved_1: crate::entities::clone_opt_string(&m.reserved_1),
            reserved_2: crate::entities::clone_opt_string(&m.reserved_2),
            reserved_3: crate::entities::clone_opt_string(&m.reserved_3),
            reserved_4: crate::entities::clone_opt_string(&m.reserved_4),
            reserved_5: crate::entities::clone_opt_string(&m.reserved_5),
        };
        proof {
            lemma_remove_keeps(pre, gi, |mm: Matter| matter_ord(mm), |mm: Matter| matter_key(mm));
            assert(upd == matter_updated(pre[gi], *m));
            assert(upd.id@ == m.id@);
        }
        let pos = self.matter_pos(upd.start_time);
        let ghost mid = self.matter_rows();
        self.matters.insert(pos, upd);
        proof {
            lemma_insert_keeps_order(mid, pos as int, upd, |mm: Matter| matter_ord(mm));
            lemma_insert_keeps_unique(mid, pos as int, upd, |mm: Matter| matter_key(mm));
        }
    }

    /// Removes the event with the given id; deleting a missing id is a
    /// silent no-op.
    pub fn delete_matter(&mut self, id: &str)
        requires
            old(self).wf(),
        ensures
            final(self).wf(),
            !has_matter(old(self).matter_rows(), id@) ==> *final(self) == *old(self),
            has_matter(old(self).matter_rows(), id@) ==> exists|i: int|
                0 <= i < old(self).matter_rows().len() && (#[trigger] old(
                    self,
                ).matter_rows()[i]).id@ == id@ && final(self).matter_rows() == old(
                    self,
                ).matter_rows().remove(i),
            final(self).kv_rows() == old(self).kv_rows(),
            final(self).tag_rows() == old(self).tag_rows(),
            final(self).task_rows() == old(self).task_rows(),
            final(self).todo_rows() == old(self).todo_rows(),
            final(self).note_rows() == old(self).note_rows(),
    {
        let idx = match self.find_matter(id) {
            Some(i) => i,
            None => {
                return ;
            },
        };
        let ghost pre = self.matter_rows();
        self.matters.remove(idx);
        proof {
            lemma_remove_keeps(
                pre,
                idx as int,
                |mm: Matter| matter_ord(mm),
                |mm: Matter| matter_key(mm),
            );
        }
    }
}

/// The row that a full-row update leaves in place of `stored`: every
/// mutable column is taken from `m`, the identifier and the creation
/// instant stay.
pub open spec fn matter_updated(stored: Matter, m: Matter) -> Matter {
    Matter {
        id: stored.id,
        title: m.title,
        description: m.description,
        tags: m.tags,
        start_time: m.start_time,
        end_time: m.end_time,
        priority: m.priority,
        type_: m.type_,
        created_at: stored.created_at,
        updated_at: m.updated_at,
        reserved_1: m.reserved_1,
        reserved_2: m.reserved_2,
        reserved_3: m.reserved_3,
        reserved_4: m.reserved_4,
        reserved_5: m.reserved_5,
    }
}

// ---------------------------------------------------------------------------
// Key-value table operations
// ---------------------------------------------------------------------------

impl Database {
    /// The index of the entry with the given key, if it is present.
    fn find_kv(&self, key: &str) -> (r: Option<usize>)
        ensures
            match r {
                Some(i) => i < self.kv_rows().len() && self.kv_rows()[i as int].key@ == key@,
                None => !has_kv(self.kv_rows(), key@),
            },
    {
        let n = self.kv.len();
        let mut i: usize = 0;
        while i < n
            invariant
                n == self.kv_rows().len(),
                0 <= i <= n,
                forall|k: int| 0 <= k < i ==> (#[trigger] self.kv_rows()[k]).key@ != key@,
            decreases n - i,
        {
            if str_eq(self.kv[i].key.as_str(), key) {
                return Some(i);
            }
            i = i + 1;
        }
        None
    }

    /// Upsert: creates the entry or overwrites its value and update
    /// instant, preserving the creation instant of the first insert.
    pub fn kv_set(&mut self, key: &str, value: &str, now: Timestamp)
        requires
            old(self).wf(),
        ensures
            final(self).wf(),
            kv_set_rel(old(self).kv_rows(), final(self).kv_rows(), key@, value@, now),
            final(self).matter_rows() == old(self).matter_rows(),
            final(self).tag_rows() == old(self).tag_rows(),
            final(self).task_rows() == old(self).task_rows(),
            final(self).todo_rows() == old(self).todo_rows(),
            final(self).note_rows() == old(self).note_rows(),
    {
        let ghost pre = self.kv_rows();
        match self.find_kv(key) {
            Some(i) => {
                let ghost gi = i as int;
                let stored = self.kv.remove(i);
                let upd = KVStore {
                    key: stored.key,
                    value: String::from_str(value),
                    created_at: stored.created_at,
                    updated_at: now,
                };
                self.kv.insert(i, upd);
                proof {
                    pre.remove_ensures(gi);
                    pre.remove(gi).insert_ensures(gi, upd);
                    assert(self.kv_rows() =~= pre.update(gi, upd));
                    assert forall|a: int, b: int|
                        0 <= a < b < self.kv_rows().len() implies (#[trigger] self.kv_rows()[a]).key@
                        != (#[trigger] self.kv_rows()[b]).key@ by {
                        assert(pre[a].key@ != pre[b].key@);
                    }
                }
            },
            None => {
                let entry = KVStore {
                    key: String::from_str(key),
                    value: String::from_str(value),
                    created_at: now,
                    updated_at: now,
                };
                self.kv.push(entry);
                proof {
                    assert forall|a: int, b: int|
                        0 <= a < b < self.kv_rows().len() implies (#[trigger] self.kv_rows()[a]).key@
                        != (#[trigger] self.kv_rows()[b]).key@ by {
                        if b < pre.len() {
                            assert(pre[a].key@ != pre[b].key@);
                        } else {
                            assert(pre[a].key@ != key@);
                        }
                    }
                }
            },
        }
    }

    /// The stored value for the key, or the supplied default when the key
    /// is absent; a missing key is never an error.
    pub fn kv_get(&self, key: &str, default: &str) -> (r: String)
        requires
            self.wf(),
        ensures
            has_kv(self.kv_rows(), key@) ==> exists|i: int|
                0 <= i < self.kv_rows().len() && (#[trigger] self.kv_rows()[i]).key@ == key@ && r@
                    == self.kv_rows()[i].value@,
            !has_kv(self.kv_rows(), key@) ==> r@ == default@,
    {
        match self.find_kv(key) {
            Some(i) => self.kv[i].value.clone(),
            None => String::from_str(default),
        }
    }

    /// Every stored key-value entry, in insertion order.
    pub fn kv_all(&self) -> (r: Vec<KVStore>)
        requires
            self.wf(),
        ensures
            r@ == self.kv_rows(),
    {
        let n = self.kv.len();
        let mut out: Vec<KVStore> = Vec::new();
        let mut i: usize = 0;
        while i < n
            invariant
                n == self.kv_rows().len(),
                0 <= i <= n,
                out@ =~= self.kv_rows().subrange(0, i as int),
            decreases n - i,
        {
            out.push(self.kv[i].duplicate());
            i = i + 1;
        }
        proof {
            assert(out@ =~= self.kv_rows());
        }
        out
    }

    /// Removes the entry with the given key; deleting a missing key is a
    /// silent no-op.
    pub fn kv_delete(&mut self, key: &str)
        requires
            old(self).wf(),
        ensures
            final(self).wf(),
            !has_kv(old(self).kv_rows(), key@) ==> *final(self) == *old(self),
            has_kv(old(self).kv_rows(), key@) ==> exists|i: int|
                0 <= i < old(self).kv_rows().len() && (#[trigger] old(self).kv_rows()[i]).key@
                    == key@ && final(self).kv_rows() == old(self).kv_rows().remove(i),
            final(self).matter_rows() == old(self).matter_rows(),
            final(self).tag_rows() == old(self).tag_rows(),
            final(self).task_rows() == old(self).task_rows(),
            final(self).todo_rows() == old(self).todo_rows(),
            final(self).note_rows() == old(self).note_rows(),
    {
        let idx = match self.find_kv(key) {
            Some(i) => i,
            None => {
                return ;
            },
        };
        let ghost pre = self.kv_rows();
        let ghost gi = idx as int;
        self.kv.remove(idx);
        proof {
            pre.remove_ensures(gi);
            assert forall|a: int, b: int|
                0 <= a < b < self.kv_rows().len() implies (#[trigger] self.kv_rows()[a]).key@
                != (#[trigger] self.kv_rows()[b]).key@ by {
                if a >= gi {
                    assert(pre.remove(gi)[a] == pre[a + 1]);
                }
                if b >= gi {
                    assert(pre.remove(gi)[b] == pre[b + 1]);
                }
            }
        }
    }
}

// ---------------------------------------------------------------------------
// Tag table operations
// ---------------------------------------------------------------------------

/// Inserting a tag between its lexicographic neighbours keeps the table
/// strictly sorted by name.
proof fn lemma_tag_insert_sorted(pre: Seq<Tag>, p: int, x: Tag)
    requires
        tags_sorted(pre),
        0 <= p <= pre.len(),
        forall|k: int| 0 <= k < p ==> lex_lt((#[trigger] pre[k]).name@, x.name@),
        p < pre.len() ==> lex_lt(x.name@, pre[p].name@),
    ensures
        tags_sorted(pre.insert(p, x)),
{
    pre.insert_ensures(p, x);
    let post = pre.insert(p, x);
    assert forall|i: int, j: int| 0 <= i < j < post.len() implies lex_lt(
        post[i].name@,
        post[j].name@,
    ) by {
        if i > p {
            assert(pre.insert(p, x)[(i - 1) + 1] == pre[i - 1]);
        }
        if j > p {
            assert(pre.insert(p, x)[(j - 1) + 1] == pre[j - 1]);
        }
        if i == p && j > p {
            if j - 1 > p {
                lemma_lex_lt_trans(x.name@, pre[p].name@, pre[j - 1].name@);
            }
        }
    }
}

impl Database {
    /// The index of the tag with the given name, if it is present.
    fn find_tag(&self, name: &str) -> (r: Option<usize>)
        ensures
            match r {
                Some(i) => i < self.tag_rows().len() && self.tag_rows()[i as int].name@ == name@,
                None => !has_tag(self.tag_rows(), name@),
            },
    {
        let n = self.tags.len();
        let mut i: usize = 0;
        while i < n
            invariant
                n == self.tag_rows().len(),
                0 <= i <= n,
                forall|k: int| 0 <= k < i ==> (#[trigger] self.tag_rows()[k]).name@ != name@,
            decreases n - i,
        {
            if str_eq(self.tags[i].name.as_str(), name) {
                return Some(i);
            }
            i = i + 1;
        }
        None
    }

    /// Idempotent creation: a new name enters the table at its sorted
    /// position with both instants stamped `now`; a duplicate name is a
    /// silent no-op, not an error.
    pub fn tag_create(&mut self, name: &str, now: Timestamp)
        requires
            old(self).wf(),
        ensures
            final(self).wf(),
            has_tag(old(self).tag_rows(), name@) ==> *final(self) == *old(self),
            tag_create_rel(old(self).tag_rows(), final(self).tag_rows(), name@, now),
            has_tag(final(self).tag_rows(), name@),
            final(self).matter_rows() == old(self).matter_rows(),
            final(self).kv_rows() == old(self).kv_rows(),
            final(self).task_rows() == old(self).task_rows(),
            final(self).todo_rows() == old(self).todo_rows(),
            final(self).note_rows() == old(self).note_rows(),
    {
        if self.find_tag(name).is_some() {
            return ;
        }
        let n = self.tags.len();
        let mut p: usize = 0;
        while p < n && str_lex_lt(self.tags[p].name.as_str(), name)
            invariant
                n == self.tag_rows().len(),
                0 <= p <= n,
                forall|k: int| 0 <= k < p ==> lex_lt((#[trigger] self.tag_rows()[k]).name@, name@),
            decreases n - p,
        {
            p = p + 1;
        }
        proof {
            if p < n {
                lemma_lex_lt_connected(self.tag_rows()[p as int].name@, name@);
            }
        }
        let entry = Tag { name: String::from_str(name), created_at: now, last_used_at: now };
        let ghost pre = self.tag_rows();
        let ghost gx = entry;
        self.tags.insert(p, entry);
        proof {
            lemma_tag_insert_sorted(pre, p as int, gx);
            pre.insert_ensures(p as int, gx);
            assert(self.tag_rows()[p as int] == gx);
        }
    }

    /// Every stored tag, ordered by name ascending.
    pub fn tag_all(&self) -> (r: Vec<Tag>)
        requires
            self.wf(),
        ensures
            r@ == self.tag_rows(),
            tags_sorted(r@),
    {
        let n = self.tags.len();
        let mut out: Vec<Tag> = Vec::new();
        let mut i: usize = 0;
        while i < n
            invariant
                n == self.tag_rows().len(),
                0 <= i <= n,
                out@ =~= self.tag_rows().subrange(0, i as int),
            decreases n - i,
        {
            out.push(self.tags[i].duplicate());
            i = i + 1;
        }
        proof {
            assert(out@ =~= self.tag_rows());
        }
        out
    }

    /// Stamps the tag's last-used instant to `now`; a missing name is a
    /// silent no-op.
    pub fn tag_touch(&mut self, name: &str, now: Timestamp)
        requires
            old(self).wf(),
        ensures
            final(self).wf(),
            !has_tag(old(self).tag_rows(), name@) ==> *final(self) == *old(self),
            has_tag(old(self).tag_rows(), name@) ==> exists|i: int|
                0 <= i < old(self).tag_rows().len() && (#[trigger] old(self).tag_rows()[i]).name@
                    == name@ && final(self).tag_rows() == old(self).tag_rows().update(
                    i,
                    Tag {
                        name: old(self).tag_rows()[i].name,
                        created_at: old(self).tag_rows()[i].created_at,
                        last_used_at: now,
                    },
                ),
            final(self).matter_rows() == old(self).matter_rows(),
            final(self).kv_rows() == old(self).kv_rows(),
            final(self).task_rows() == old(self).task_rows(),
            final(self).todo_rows() == old(self).todo_rows(),
            final(self).note_rows() == old(self).note_rows(),
    {
        let idx = match self.find_tag(name) {
            Some(i) => i,
            None => {
                return ;
            },
        };
        let ghost pre = self.tag_rows();
        let ghost gi = idx as int;
        let stored = self.tags.remove(idx);
        let upd = Tag { name: stored.name, created_at: stored.created_at, last_used_at: now };
        self.tags.insert(idx, upd);
        proof {
            pre.remove_ensures(gi);
            pre.remove(gi).insert_ensures(gi, upd);
            assert(self.tag_rows() =~= pre.update(gi, upd));
            assert forall|a: int, b: int|
                0 <= a < b < self.tag_rows().len() implies lex_lt(
                (#[trigger] self.tag_rows()[a]).name@,
                (#[trigger] self.tag_rows()[b]).name@,
            ) by {
                assert(self.tag_rows()[a] == pre.update(gi, upd)[a]);
                assert(self.tag_rows()[b] == pre.update(gi, upd)[b]);
                assert(self.tag_rows()[a].name@ == pre[a].name@);
                assert(self.tag_rows()[b].name@ == pre[b].name@);
                assert(lex_lt(pre[a].name@, pre[b].name@));
            }
        }
    }

    /// Removes the tag with the given name; deleting a missing name is a
    /// silent no-op.
    pub fn tag_delete(&mut self, name: &str)
        requires
            old(self).wf(),
        ensures
            final(self).wf(),
            !has_tag(old(self).tag_rows(), name@) ==> *final(self) == *old(self),
            has_tag(old(self).tag_rows(), name@) ==> exists|i: int|
                0 <= i < old(self).tag_rows().len() && (#[trigger] old(self).tag_rows()[i]).name@
                    == name@ && final(self).tag_rows() == old(self).tag_rows().remove(i),
            final(self).matter_rows() == old(self).matter_rows(),
            final(self).kv_rows() == old(self).kv_rows(),
            final(self).task_rows() == old(self).task_rows(),
            final(self).todo_rows() == old(self).todo_rows(),
            final(self).note_rows() == old(self).note_rows(),
    {
        let idx = match self.find_tag(name) {
            Some(i) => i,
            None => {
                return ;
            },
        };
        let ghost pre = self.tag_rows();
        let ghost gi = idx as int;
        self.tags.remove(idx);
        proof {
            pre.remove_ensures(gi);
            assert forall|a: int, b: int|
                0 <= a < b < self.tag_rows().len() implies lex_lt(
                (#[trigger] self.tag_rows()[a]).name@,
                (#[trigger] self.tag_rows()[b]).name@,
            ) by {
                assert(self.tag_rows()[a] == pre.remove(gi)[a]);
                assert(self.tag_rows()[b] == pre.remove(gi)[b]);
                if a >= gi {
                    assert(pre.remove(gi)[a] == pre[a + 1]);
                } else {
                    assert(pre.remove(gi)[a] == pre[a]);
                }
                if b >= gi {
                    assert(pre.remove(gi)[b] == pre[b + 1]);
                    if a >= gi {
                        assert(lex_lt(pre[a + 1].name@, pre[b + 1].name@));
                    } else {
                        assert(lex_lt(pre[a].name@, pre[b + 1].name@));
                    }
                } else {
                    assert(pre.remove(gi)[b] == pre[b]);
                    assert(lex_lt(pre[a].name@, pre[b].name@));
                }
            }
        }
    }
}

// ---------------------------------------------------------------------------
// Recurring-task table operations
// ---------------------------------------------------------------------------

/// The row a full-row task update leaves in place of `stored`: every
/// mutable column is taken from `t`, the identifier and the creation
/// instant stay.
pub open spec fn task_updated(stored: RepeatTask, t: RepeatTask) -> RepeatTask {
    RepeatTask {
        id: stored.id,
        title: t.title,
        tags: t.tags,
        repeat_time: t.repeat_time,
        status: t.status,
        created_at: stored.created_at,
        updated_at: t.updated_at,
        priority: t.priority,
        description: t.description,
    }
}

impl Database {
    /// The index of the task with the given id, if it is present.
    fn find_task(&self, id: &str) -> (r: Option<usize>)
        ensures
            match r {
                Some(i) => i < self.task_rows().len() && self.task_rows()[i as int].id@ == id@,
                None => !has_task(self.task_rows(), id@),
            },
    {
        let n = self.tasks.len();
        let mut i: usize = 0;
        while i < n
            invariant
                n == self.task_rows().len(),
                0 <= i <= n,
                forall|k: int| 0 <= k < i ==> (#[trigger] self.task_rows()[k]).id@ != id@,
            decreases n - i,
        {
            if str_eq(self.tasks[i].id.as_str(), id) {
                return Some(i);
            }
            i = i + 1;
        }
        None
    }

    /// The sort position for a task created at `t`: after every stored
    /// task with an equal or later creation instant (newest first).
    fn task_pos(&self, t: Timestamp) -> (p: usize)
        requires
            sorted_by_key(self.task_rows(), |x: RepeatTask| task_ord(x)),
        ensures
            p <= self.task_rows().len(),
            forall|k: int| 0 <= k < p ==> task_ord(#[trigger] self.task_rows()[k]) <= -(
            t.epoch_nanos as int),
            p < self.task_rows().len() ==> -(t.epoch_nanos as int) < task_ord(
                self.task_rows()[p as int],
            ),
    {
        let n = self.tasks.len();
        let mut p: usize = 0;
        while p < n && t.epoch_nanos <= self.tasks[p].created_at.epoch_nanos
            invariant
                n == self.task_rows().len(),
                0 <= p <= n,
                forall|k: int| 0 <= k < p ==> task_ord(#[trigger] self.task_rows()[k]) <= -(
                t.epoch_nanos as int),
            decreases n - p,
        {
            p = p + 1;
        }
        p
    }

    /// Inserts a new recurring task; fails with `ConstraintViolation`,
    /// leaving every table unchanged, exactly when the id already exists.
    pub fn create_task(&mut self, t: &RepeatTask) -> (r: Result<(), DbError>)
        requires
            old(self).wf(),
        ensures
            final(self).wf(),
            r is Ok <==> !has_task(old(self).task_rows(), t.id@),
            r is Ok ==> inserted_by_key(
                old(self).task_rows(),
                final(self).task_rows(),
                *t,
                |x: RepeatTask| task_ord(x),
            ),
            r is Err ==> r == Err::<(), DbError>(DbError::ConstraintViolation) && *final(self)
                == *old(self),
            final(self).matter_rows() == old(self).matter_rows(),
            final(self).kv_rows() == old(self).kv_rows(),
            final(self).tag_rows() == old(self).tag_rows(),
            final(self).todo_rows() == old(self).todo_rows(),
            final(self).note_rows() == old(self).note_rows(),
    {
        if self.find_task(t.id.as_str()).is_some() {
            return Err(DbError::ConstraintViolation);
        }
        let pos = self.task_pos(t.created_at);
        let ghost pre = self.task_rows();
        self.tasks.insert(pos, t.duplicate());
        proof {
            lemma_insert_keeps_order(pre, pos as int, *t, |x: RepeatTask| task_ord(x));
            lemma_insert_keeps_unique(pre, pos as int, *t, |x: RepeatTask| task_key(x));
        }
        Ok(())
    }

    /// The stored task with the given id, or `None`; a missing row is not
    /// an error.
    pub fn task_by_id(&self, id: &str) -> (r: Option<RepeatTask>)
        requires
            self.wf(),
        ensures
            match r {
                Some(t) => has_task(self.task_rows(), id@) && t.id@ == id@ && exists|i: int|
                    0 <= i < self.task_rows().len() && self.task_rows()[i] == t,
                None => !has_task(self.task_rows(), id@),
            },
    {
        match self.find_task(id) {
            Some(i) => {
                let t = self.tasks[i].duplicate();
                proof {
                    assert(self.task_rows()[i as int] == t);
                }
                Some(t)
            },
            None => None,
        }
    }

    /// Every stored task, newest creation instant first.
    pub fn all_tasks(&self) -> (r: Vec<RepeatTask>)
        requires
            self.wf(),
        ensures
            r@ == self.task_rows(),
            sorted_by_key(r@, |x: RepeatTask| task_ord(x)),
    {
        let n = self.tasks.len();
        let mut out: Vec<RepeatTask> = Vec::new();
        let mut i: usize = 0;
        while i < n
            invariant
                n == self.task_rows().len(),
                0 <= i <= n,
                out@ =~= self.task_rows().subrange(0, i as int),
            decreases n - i,
        {
            out.push(self.tasks[i].duplicate());
            i = i + 1;
        }
        proof {
            assert(out@ =~= self.task_rows());
        }
        out
    }

    /// Every task whose status is active, newest creation instant first.
    pub fn active_tasks(&self) -> (r: Vec<RepeatTask>)
        requires
            self.wf(),
        ensures
            r@ == self.task_rows().filter(|x: RepeatTask| x.status == 1),
            sorted_by_key(r@, |x: RepeatTask| task_ord(x)),
            forall|k: int| 0 <= k < r@.len() ==> (#[trigger] r@[k]).status == 1,
    {
        let ghost pred = |x: RepeatTask| x.status == 1;
        let n = self.tasks.len();
        let mut out: Vec<RepeatTask> = Vec::new();
        let mut i: usize = 0;
        proof {
            assert(self.task_rows().subrange(0, 0).filter(pred) =~= Seq::<RepeatTask>::empty())
                by {
                reveal(Seq::filter);
            }
        }
        while i < n
            invariant
                n == self.task_rows().len(),
                0 <= i <= n,
                out@ == self.task_rows().subrange(0, i as int).filter(pred),
                pred == (|x: RepeatTask| x.status == 1),
                sorted_by_key(self.task_rows(), |x: RepeatTask| task_ord(x)),
                sorted_by_key(out@, |x: RepeatTask| task_ord(x)),
                forall|k: int| 0 <= k < out@.len() ==> (#[trigger] out@[k]).status == 1,
                i > 0 ==> forall|k: int| 0 <= k < out@.len() ==> task_ord(#[trigger] out@[k])
                    <= task_ord(self.task_rows()[i - 1]),
            decreases n - i,
        {
            proof {
                assert(self.task_rows().subrange(0, i + 1) =~= self.task_rows().subrange(
                    0,
                    i as int,
                ).push(self.task_rows()[i as int]));
                lemma_filter_push(
                    self.task_rows().subrange(0, i as int),
                    self.task_rows()[i as int],
                    pred,
                );
            }
            let ghost out0 = out@;
            if self.tasks[i].status == 1 {
                out.push(self.tasks[i].duplicate());
            }
            proof {
                let rows = self.task_rows();
                assert forall|k: int| 0 <= k < out@.len() implies task_ord(#[trigger] out@[k])
                    <= task_ord(rows[i as int]) by {
                    if k < out0.len() {
                        assert(out@[k] == out0[k]);
                        if i > 0 {
                            assert(task_ord(out0[k]) <= task_ord(rows[i - 1]));
                            assert(task_ord(rows[i - 1]) <= task_ord(rows[i as int]));
                        }
                    }
                }
                assert forall|a: int, b: int| 0 <= a <= b < out@.len() implies task_ord(
                    out@[a],
                ) <= task_ord(out@[b]) by {
                    if b < out0.len() {
                        assert(task_ord(out0[a]) <= task_ord(out0[b]));
                    } else {
                        assert(task_ord(out@[a]) <= task_ord(rows[i as int]));
                    }
                }
            }
            i = i + 1;
        }
        proof {
            assert(self.task_rows().subrange(0, n as int) =~= self.task_rows());
        }
        out
    }

    /// Full-row update by id of every mutable column; the identifier and
    /// the creation instant stay. A missing id is a silent no-op.
    pub fn update_task(&mut self, t: &RepeatTask)
        requires
            old(self).wf(),
        ensures
            final(self).wf(),
            !has_task(old(self).task_rows(), t.id@) ==> *final(self) == *old(self),
            has_task(old(self).task_rows(), t.id@) ==> exists|i: int|
                0 <= i < old(self).task_rows().len() && (#[trigger] old(self).task_rows()[i]).id@
                    == t.id@ && final(self).task_rows() == old(self).task_rows().update(
                    i,
                    task_updated(old(self).task_rows()[i], *t),
                ),
            final(self).matter_rows() == old(self).matter_rows(),
            final(self).kv_rows() == old(self).kv_rows(),
            final(self).tag_rows() == old(self).tag_rows(),
            final(self).todo_rows() == old(self).todo_rows(),
            final(self).note_rows() == old(self).note_rows(),
    {
        let idx = match self.find_task(t.id.as_str()) {
            Some(i) => i,
            None => {
                return ;
            },
        };
        let ghost pre = self.task_rows();
        let ghost gi = idx as int;
        let stored = self.tasks.remove(idx);
        let upd = RepeatTask {
            id: stored.id,
            title: t.title.clone(),
            tags: crate::entities::clone_opt_string(&t.tags),
            repeat_time: t.repeat_time.clone(),
            status: t.status,
            created_at: stored.created_at,
            updated_at: t.updated_at,
            priority: t.priority,
            description: crate::entities::clone_opt_string(&t.description),
        };
        self.tasks.insert(idx, upd);
        proof {
            pre.remove_ensures(gi);
            pre.remove(gi).insert_ensures(gi, upd);
            assert(self.task_rows() =~= pre.update(gi, upd));
            assert forall|k: int|
                0 <= k < pre.len() implies task_ord(#[trigger] self.task_rows()[k]) == task_ord(
                pre[k],
            ) && task_key(self.task_rows()[k]) == task_key(pre[k]) by {
                assert(self.task_rows()[k] == pre.update(gi, upd)[k]);
            }
            lemma_pointwise_same_key_ord(
                pre,
                self.task_rows(),
                |x: RepeatTask| task_ord(x),
                |x: RepeatTask| task_key(x),
            );
        }
    }

    /// Removes the task with the given id; deleting a missing id is a
    /// silent no-op.
    pub fn delete_task(&mut self, id: &str)
        requires
            old(self).wf(),
        ensures
            final(self).wf(),
            !has_task(old(self).task_rows(), id@) ==> *final(self) == *old(self),
            has_task(old(self).task_rows(), id@) ==> exists|i: int|
                0 <= i < old(self).task_rows().len() && (#[trigger] old(self).task_rows()[i]).id@
                    == id@ && final(self).task_rows() == old(self).task_rows().remove(i),
            final(self).matter_rows() == old(self).matter_rows(),
            final(self).kv_rows() == old(self).kv_rows(),
            final(self).tag_rows() == old(self).tag_rows(),
            final(self).todo_rows() == old(self).todo_rows(),
            final(self).note_rows() == old(self).note_rows(),
    {
        let idx = match self.find_task(id) {
            Some(i) => i,
            None => {
                return ;
            },
        };
        let ghost pre = self.task_rows();
        self.tasks.remove(idx);
        proof {
            lemma_remove_keeps(
                pre,
                idx as int,
                |x: RepeatTask| task_ord(x),
                |x: RepeatTask| task_key(x),
            );
        }
    }

    /// Partial update: sets only the status and stamps the update instant;
    /// a missing id is a silent no-op.
    pub fn set_task_status(&mut self, id: &str, new_status: i32, now: Timestamp)
        requires
            old(self).wf(),
        ensures
            final(self).wf(),
            !has_task(old(self).task_rows(), id@) ==> *final(self) == *old(self),
            has_task(old(self).task_rows(), id@) ==> exists|i: int|
                0 <= i < old(self).task_rows().len() && (#[trigger] old(self).task_rows()[i]).id@
                    == id@ && final(self).task_rows() == old(self).task_rows().update(
                    i,
                    RepeatTask {
                        status: new_status,
                        updated_at: now,
                        ..old(self).task_rows()[i]
                    },
                ),
            final(self).matter_rows() == old(self).matter_rows(),
            final(self).kv_rows() == old(self).kv_rows(),
            final(self).tag_rows() == old(self).tag_rows(),
            final(self).todo_rows() == old(self).todo_rows(),
            final(self).note_rows() == old(self).note_rows(),
    {
        let idx = match self.find_task(id) {
            Some(i) => i,
            None => {
                return ;
            },
        };
        let ghost pre = self.task_rows();
        let ghost gi = idx as int;
        let stored = self.tasks.remove(idx);
        let upd = RepeatTask { status: new_status, updated_at: now, ..stored };
        self.tasks.insert(idx, upd);
        proof {
            pre.remove_ensures(gi);
            pre.remove(gi).insert_ensures(gi, upd);
            assert(self.task_rows() =~= pre.update(gi, upd));
            assert forall|k: int|
                0 <= k < pre.len() implies task_ord(#[trigger] self.task_rows()[k]) == task_ord(
                pre[k],
            ) && task_key(self.task_rows()[k]) == task_key(pre[k]) by {
                assert(self.task_rows()[k] == pre.update(gi, upd)[k]);
            }
            lemma_pointwise_same_key_ord(
                pre,
                self.task_rows(),
                |x: RepeatTask| task_ord(x),
                |x: RepeatTask| task_key(x),
            );
        }
    }
}

// ---------------------------------------------------------------------------
// Todo table operations
// ---------------------------------------------------------------------------

/// The row a full-row todo update leaves in place of `stored`: the title,
/// status and update instant are taken from `t`, the identifier and the
/// creation instant stay.
pub open spec fn todo_updated(stored: Todo, t: Todo) -> Todo {
    Todo {
        id: stored.id,
        title: t.title,
        status: t.status,
        created_at: stored.created_at,
        updated_at: t.updated_at,
    }
}

impl Database {
    /// The index of the todo with the given id, if it is present.
    fn find_todo(&self, id: &str) -> (r: Option<usize>)
        ensures
            match r {
                Some(i) => i < self.todo_rows().len() && self.todo_rows()[i as int].id@ == id@,
                None => !has_todo(self.todo_rows(), id@),
            },
    {
        let n = self.todos.len();
        let mut i: usize = 0;
        while i < n
            invariant
                n == self.todo_rows().len(),
                0 <= i <= n,
                forall|k: int| 0 <= k < i ==> (#[trigger] self.todo_rows()[k]).id@ != id@,
            decreases n - i,
        {
            if str_eq(self.todos[i].id.as_str(), id) {
                return Some(i);
            }
            i = i + 1;
        }
        None
    }

    /// The sort position for a todo created at `t` (newest first).
    fn todo_pos(&self, t: Timestamp) -> (p: usize)
        requires
            sorted_by_key(self.todo_rows(), |x: Todo| todo_ord(x)),
        ensures
            p <= self.todo_rows().len(),
            forall|k: int| 0 <= k < p ==> todo_ord(#[trigger] self.todo_rows()[k]) <= -(
            t.epoch_nanos as int),
            p < self.todo_rows().len() ==> -(t.epoch_nanos as int) < todo_ord(
                self.todo_rows()[p as int],
            ),
    {
        let n = self.todos.len();
        let mut p: usize = 0;
        while p < n && t.epoch_nanos <= self.todos[p].created_at.epoch_nanos
            invariant
                n == self.todo_rows().len(),
                0 <= p <= n,
                forall|k: int| 0 <= k < p ==> todo_ord(#[trigger] self.todo_rows()[k]) <= -(
                t.epoch_nanos as int),
            decreases n - p,
        {
            p = p + 1;
        }
        p
    }

    /// Inserts a new todo; fails with `ConstraintViolation`, leaving every
    /// table unchanged, exactly when the id already exists.
    pub fn create_todo(&mut self, t: &Todo) -> (r: Result<(), DbError>)
        requires
            old(self).wf(),
        ensures
            final(self).wf(),
            r is Ok <==> !has_todo(old(self).todo_rows(), t.id@),
            r is Ok ==> inserted_by_key(
                old(self).todo_rows(),
                final(self).todo_rows(),
                *t,
                |x: Todo| todo_ord(x),
            ),
            r is Err ==> r == Err::<(), DbError>(DbError::ConstraintViolation) && *final(self)
                == *old(self),
            final(self).matter_rows() == old(self).matter_rows(),
            final(self).kv_rows() == old(self).kv_rows(),
            final(self).tag_rows() == old(self).tag_rows(),
            final(self).task_rows() == old(self).task_rows(),
            final(self).note_rows() == old(self).note_rows(),
    {
        if self.find_todo(t.id.as_str()).is_some() {
            return Err(DbError::ConstraintViolation);
        }
        let pos = self.todo_pos(t.created_at);
        let ghost pre = self.todo_rows();
        self.todos.insert(pos, t.duplicate());
        proof {
            lemma_insert_keeps_order(pre, pos as int, *t, |x: Todo| todo_ord(x));
            lemma_insert_keeps_unique(pre, pos as int, *t, |x: Todo| todo_key(x));
        }
        Ok(())
    }

    /// The stored todo with the given id, or `None`; a missing row is not
    /// an error.
    pub fn todo_by_id(&self, id: &str) -> (r: Option<Todo>)
        requires
            self.wf(),
        ensures
            match r {
                Some(t) => has_todo(self.todo_rows(), id@) && t.id@ == id@ && exists|i: int|
                    0 <= i < self.todo_rows().len() && self.todo_rows()[i] == t,
                None => !has_todo(self.todo_rows(), id@),
            },
    {
        match self.find_todo(id) {
            Some(i) => {
                let t = self.todos[i].duplicate();
                proof {
                    assert(self.todo_rows()[i as int] == t);
                }
                Some(t)
            },
            None => None,
        }
    }

    /// Every stored todo, newest creation instant first.
    pub fn all_todos(&self) -> (r: Vec<Todo>)
        requires
            self.wf(),
        ensures
            r@ == self.todo_rows(),
            sorted_by_key(r@, |x: Todo| todo_ord(x)),
    {
        let n = self.todos.len();
        let mut out: Vec<Todo> = Vec::new();
        let mut i: usize = 0;
        while i < n
            invariant
                n == self.todo_rows().len(),
                0 <= i <= n,
                out@ =~= self.todo_rows().subrange(0, i as int),
            decreases n - i,
        {
            out.push(self.todos[i].duplicate());
            i = i + 1;
        }
        proof {
            assert(out@ =~= self.todo_rows());
        }
        out
    }

    /// Full-row update by id of the title, status and update instant; the
    /// identifier and the creation instant stay. A missing id is a silent
    /// no-op.
    pub fn update_todo(&mut self, t: &Todo)
        requires
            old(self).wf(),
        ensures
            final(self).wf(),
            !has_todo(old(self).todo_rows(), t.id@) ==> *final(self) == *old(self),
            has_todo(old(self).todo_rows(), t.id@) ==> exists|i: int|
                0 <= i < old(self).todo_rows().len() && (#[trigger] old(self).todo_rows()[i]).id@
                    == t.id@ && final(self).todo_rows() == old(self).todo_rows().update(
                    i,
                    todo_updated(old(self).todo_rows()[i], *t),
                ),
            final(self).matter_rows() == old(self).matter_rows(),
            final(self).kv_rows() == old(self).kv_rows(),
            final(self).tag_rows() == old(self).tag_rows(),
            final(self).task_rows() == old(self).task_rows(),
            final(self).note_rows() == old(self).note_rows(),
    {
        let idx = match self.find_todo(t.id.as_str()) {
            Some(i) => i,
            None => {
                return ;
            },
        };
        let ghost pre = self.todo_rows();
        let ghost gi = idx as int;
        let stored = self.todos.remove(idx);
        let upd = Todo {
            id: stored.id,
            title: t.title.clone(),
            status: t.status.clone(),
            created_at: stored.created_at,
            updated_at: t.updated_at,
        };
        self.todos.insert(idx, upd);
        proof {
            pre.remove_ensures(gi);
            pre.remove(gi).insert_ensures(gi, upd);
            assert(self.todo_rows() =~= pre.update(gi, upd));
            assert forall|k: int|
                0 <= k < pre.len() implies todo_ord(#[trigger] self.todo_rows()[k]) == todo_ord(
                pre[k],
            ) && todo_key(self.todo_rows()[k]) == todo_key(pre[k]) by {
                assert(self.todo_rows()[k] == pre.update(gi, upd)[k]);
            }
            lemma_pointwise_same_key_ord(
                pre,
                self.todo_rows(),
                |x: Todo| todo_ord(x),
                |x: Todo| todo_key(x),
            );
        }
    }

    /// Removes the todo with the given id; deleting a missing id is a
    /// silent no-op.
    pub fn delete_todo(&mut self, id: &str)
        requires
            old(self).wf(),
        ensures
            final(self).wf(),
            !has_todo(old(self).todo_rows(), id@) ==> *final(self) == *old(self),
            has_todo(old(self).todo_rows(), id@) ==> exists|i: int|
                0 <= i < old(self).todo_rows().len() && (#[trigger] old(self).todo_rows()[i]).id@
                    == id@ && final(self).todo_rows() == old(self).todo_rows().remove(i),
            final(self).matter_rows() == old(self).matter_rows(),
            final(self).kv_rows() == old(self).kv_rows(),
            final(self).tag_rows() == old(self).tag_rows(),
            final(self).task_rows() == old(self).task_rows(),
            final(self).note_rows() == old(self).note_rows(),
    {
        let idx = match self.find_todo(id) {
            Some(i) => i,
            None => {
                return ;
            },
        };
        let ghost pre = self.todo_rows();
        self.todos.remove(idx);
        proof {
            lemma_remove_keeps(pre, idx as int, |x: Todo| todo_ord(x), |x: Todo| todo_key(x));
        }
    }
}

// ---------------------------------------------------------------------------
// Notification table operations
// ---------------------------------------------------------------------------

/// The record after marking: an unread record becomes read with `read_at`
/// stamped to `now`; a record already read is unchanged, so `read_at` is
/// written exactly once, at the transition.
pub open spec fn note_marked(n: NotificationRecord, now: Timestamp) -> NotificationRecord {
    if n.status == 0 {
        NotificationRecord { status: 1, read_at: Some(now), ..n }
    } else {
        n
    }
}

/// The row a full-row notification update leaves in place of `stored`:
/// every mutable column is taken from `m`; the identifier, the creation
/// instant and the read instant stay.
pub open spec fn note_updated(stored: NotificationRecord, m: NotificationRecord) -> NotificationRecord {
    NotificationRecord {
        id: stored.id,
        title: m.title,
        content: m.content,
        type_: m.type_,
        status: m.status,
        related_task_id: m.related_task_id,
        created_at: stored.created_at,
        read_at: stored.read_at,
        expire_at: m.expire_at,
        action_url: m.action_url,
        reserved_1: m.reserved_1,
        reserved_2: m.reserved_2,
        reserved_3: m.reserved_3,
        reserved_4: m.reserved_4,
        reserved_5: m.reserved_5,
    }
}

impl Database {
    /// The index of the notification with the given id, if it is present.
    fn find_note(&self, id: &str) -> (r: Option<usize>)
        ensures
            match r {
                Some(i) => i < self.note_rows().len() && self.note_rows()[i as int].id@ == id@,
                None => !has_note(self.note_rows(), id@),
            },
    {
        let n = self.notes.len();
        let mut i: usize = 0;
        while i < n
            invariant
                n == self.note_rows().len(),
                0 <= i <= n,
                forall|k: int| 0 <= k < i ==> (#[trigger] self.note_rows()[k]).id@ != id@,
            decreases n - i,
        {
            if str_eq(self.notes[i].id.as_str(), id) {
                return Some(i);
            }
            i = i + 1;
        }
        None
    }

    /// The sort position for a notification created at `t` (newest first).
    fn note_pos(&self, t: Timestamp) -> (p: usize)
        requires
            sorted_by_key(self.note_rows(), |x: NotificationRecord| note_ord(x)),
        ensures
            p <= self.note_rows().len(),
            forall|k: int| 0 <= k < p ==> note_ord(#[trigger] self.note_rows()[k]) <= -(
            t.epoch_nanos as int),
            p < self.note_rows().len() ==> -(t.epoch_nanos as int) < note_ord(
                self.note_rows()[p as int],
            ),
    {
        let n = self.notes.len();
        let mut p: usize = 0;
        while p < n && t.epoch_nanos <= self.notes[p].created_at.epoch_nanos
            invariant
                n == self.note_rows().len(),
                0 <= p <= n,
                forall|k: int| 0 <= k < p ==> note_ord(#[trigger] self.note_rows()[k]) <= -(
                t.epoch_nanos as int),
            decreases n - p,
        {
            p = p + 1;
        }
        p
    }

    /// Inserts a new notification; fails with `ConstraintViolation`,
    /// leaving every table unchanged, exactly when the id already exists.
    pub fn create_note(&mut self, m: &NotificationRecord) -> (r: Result<(), DbError>)
        requires
            old(self).wf(),
        ensures
            final(self).wf(),
            r is Ok <==> !has_note(old(self).note_rows(), m.id@),
            r is Ok ==> inserted_by_key(
                old(self).note_rows(),
                final(self).note_rows(),
                *m,
                |x: NotificationRecord| note_ord(x),
            ),
            r is Err ==> r == Err::<(), DbError>(DbError::ConstraintViolation) && *final(self)
                == *old(self),
            final(self).matter_rows() == old(self).matter_rows(),
            final(self).kv_rows() == old(self).kv_rows(),
            final(self).tag_rows() == old(self).tag_rows(),
            final(self).task_rows() == old(self).task_rows(),
            final(self).todo_rows() == old(self).todo_rows(),
    {
        if self.find_note(m.id.as_str()).is_some() {
            return Err(DbError::ConstraintViolation);
        }
        let pos = self.note_pos(m.created_at);
        let ghost pre = self.note_rows();
        self.notes.insert(pos, m.duplicate());
        proof {
            lemma_insert_keeps_order(pre, pos as int, *m, |x: NotificationRecord| note_ord(x));
            lemma_insert_keeps_unique(pre, pos as int, *m, |x: NotificationRecord| note_key(x));
        }
        Ok(())
    }

    /// The stored notification with the given id, or `None`; a missing row
    /// is not an error.
    pub fn note_by_id(&self, id: &str) -> (r: Option<NotificationRecord>)
        requires
            self.wf(),
        ensures
            match r {
                Some(m) => has_note(self.note_rows(), id@) && m.id@ == id@ && exists|i: int|
                    0 <= i < self.note_rows().len() && self.note_rows()[i] == m,
                None => !has_note(self.note_rows(), id@),
            },
    {
        match self.find_note(id) {
            Some(i) => {
                let m = self.notes[i].duplicate();
                proof {
                    assert(self.note_rows()[i as int] == m);
                }
                Some(m)
            },
            None => None,
        }
    }

    /// Every unread notification, newest creation instant first.
    pub fn unread_notes(&self) -> (r: Vec<NotificationRecord>)
        requires
            self.wf(),
        ensures
            r@ == self.note_rows().filter(|x: NotificationRecord| x.status == 0),
            sorted_by_key(r@, |x: NotificationRecord| note_ord(x)),
            forall|k: int| 0 <= k < r@.len() ==> (#[trigger] r@[k]).status == 0,
            forall|k: int| 0 <= k < r@.len() ==> has_unread_note(
                self.note_rows(),
                (#[trigger] r@[k]).id@,
            ),
    {
        let ghost pred = |x: NotificationRecord| x.status == 0;
        let n = self.notes.len();
        let mut out: Vec<NotificationRecord> = Vec::new();
        let mut i: usize = 0;
        proof {
            assert(self.note_rows().subrange(0, 0).filter(pred) =~= Seq::<
                NotificationRecord,
            >::empty()) by {
                reveal(Seq::filter);
            }
        }
        while i < n
            invariant
                n == self.note_rows().len(),
                0 <= i <= n,
                out@ == self.note_rows().subrange(0, i as int).filter(pred),
                pred == (|x: NotificationRecord| x.status == 0),
                sorted_by_key(self.note_rows(), |x: NotificationRecord| note_ord(x)),
                sorted_by_key(out@, |x: NotificationRecord| note_ord(x)),
                forall|k: int| 0 <= k < out@.len() ==> (#[trigger] out@[k]).status == 0,
                forall|k: int| 0 <= k < out@.len() ==> has_unread_note(
                    self.note_rows(),
                    (#[trigger] out@[k]).id@,
                ),
                i > 0 ==> forall|k: int| 0 <= k < out@.len() ==> note_ord(#[trigger] out@[k])
                    <= note_ord(self.note_rows()[i - 1]),
            decreases n - i,
        {
            proof {
                assert(self.note_rows().subrange(0, i + 1) =~= self.note_rows().subrange(
                    0,
                    i as int,
                ).push(self.note_rows()[i as int]));
                lemma_filter_push(
                    self.note_rows().subrange(0, i as int),
                    self.note_rows()[i as int],
                    pred,
                );
            }
            let ghost out0 = out@;
            if self.notes[i].status == 0 {
                out.push(self.notes[i].duplicate());
            }
            proof {
                let rows = self.note_rows();
                assert forall|k: int| 0 <= k < out@.len() implies note_ord(#[trigger] out@[k])
                    <= note_ord(rows[i as int]) by {
                    if k < out0.len() {
                        assert(out@[k] == out0[k]);
                        if i > 0 {
                            assert(note_ord(out0[k]) <= note_ord(rows[i - 1]));
                            assert(note_ord(rows[i - 1]) <= note_ord(rows[i as int]));
                        }
                    }
                }
                assert forall|a: int, b: int| 0 <= a <= b < out@.len() implies note_ord(
                    out@[a],
                ) <= note_ord(out@[b]) by {
                    if b < out0.len() {
                        assert(note_ord(out0[a]) <= note_ord(out0[b]));
                    } else {
                        assert(note_ord(out@[a]) <= note_ord(rows[i as int]));
                    }
                }
            }
            i = i + 1;
        }
        proof {
            assert(self.note_rows().subrange(0, n as int) =~= self.note_rows());
        }
        out
    }

    /// Marks the notification with the given id: if it is unread its
    /// status becomes read and `read_at` is stamped to `now`; an already
    /// read row, or a missing id, is left as it is.
    pub fn mark_note_read(&mut self, id: &str, now: Timestamp)
        requires
            old(self).wf(),
        ensures
            final(self).wf(),
            !has_note(old(self).note_rows(), id@) ==> *final(self) == *old(self),
            has_note(old(self).note_rows(), id@) ==> exists|i: int|
                0 <= i < old(self).note_rows().len() && (#[trigger] old(self).note_rows()[i]).id@
                    == id@ && final(self).note_rows() == old(self).note_rows().update(
                    i,
                    note_marked(old(self).note_rows()[i], now),
                ),
            final(self).matter_rows() == old(self).matter_rows(),
            final(self).kv_rows() == old(self).kv_rows(),
            final(self).tag_rows() == old(self).tag_rows(),
            final(self).task_rows() == old(self).task_rows(),
            final(self).todo_rows() == old(self).todo_rows(),
    {
        let idx = match self.find_note(id) {
            Some(i) => i,
            None => {
                return ;
            },
        };
        let ghost pre = self.note_rows();
        let ghost gi = idx as int;
        if self.notes[idx].status != 0 {
            proof {
                assert(note_marked(pre[gi], now) == pre[gi]);
                assert(pre.update(gi, pre[gi]) =~= pre);
            }
            return ;
        }
        let stored = self.notes.remove(idx);
        let upd = NotificationRecord { status: 1, read_at: Some(now), ..stored };
        self.notes.insert(idx, upd);
        proof {
            pre.remove_ensures(gi);
            pre.remove(gi).insert_ensures(gi, upd);
            assert(self.note_rows() =~= pre.update(gi, upd));
            assert forall|k: int|
                0 <= k < pre.len() implies note_ord(#[trigger] self.note_rows()[k]) == note_ord(
                pre[k],
            ) && note_key(self.note_rows()[k]) == note_key(pre[k]) by {
                assert(self.note_rows()[k] == pre.update(gi, upd)[k]);
            }
            lemma_pointwise_same_key_ord(
                pre,
                self.note_rows(),
                |x: NotificationRecord| note_ord(x),
                |x: NotificationRecord| note_key(x),
            );
        }
    }

    /// Marks every unread notification of the given type as read, stamping
    /// `read_at` to `now` at the transition; other rows are unchanged.
    pub fn mark_notes_read_by_type(&mut self, type_: i32, now: Timestamp)
        requires
            old(self).wf(),
        ensures
            final(self).wf(),
            final(self).note_rows().len() == old(self).note_rows().len(),
            forall|k: int|
                0 <= k < old(self).note_rows().len() ==> final(self).note_rows()[k] == (if (
                #[trigger] old(self).note_rows()[k]).type_ == type_ {
                    note_marked(old(self).note_rows()[k], now)
                } else {
                    old(self).note_rows()[k]
                }),
            final(self).matter_rows() == old(self).matter_rows(),
            final(self).kv_rows() == old(self).kv_rows(),
            final(self).tag_rows() == old(self).tag_rows(),
            final(self).task_rows() == old(self).task_rows(),
            final(self).todo_rows() == old(self).todo_rows(),
    {
        let ghost pre = self.note_rows();
        let n = self.notes.len();
        let mut out: Vec<NotificationRecord> = Vec::new();
        let mut i: usize = 0;
        while i < n
            invariant
                n == pre.len(),
                pre == self.note_rows(),
                0 <= i <= n,
                out@.len() == i,
                forall|k: int|
                    0 <= k < i ==> out@[k] == (if (#[trigger] pre[k]).type_ == type_ {
                        note_marked(pre[k], now)
                    } else {
                        pre[k]
                    }),
            decreases n - i,
        {
            let m = &self.notes[i];
            if m.type_ == type_ && m.status == 0 {
                let mut upd = m.duplicate();
                upd.status = 1;
                upd.read_at = Some(now);
                out.push(upd);
            } else {
                out.push(m.duplicate());
            }
            i = i + 1;
        }
        self.notes = out;
        proof {
            assert forall|k: int|
                0 <= k < pre.len() implies note_ord(#[trigger] self.note_rows()[k]) == note_ord(
                pre[k],
            ) && note_key(self.note_rows()[k]) == note_key(pre[k]) by {
                assert(self.note_rows()[k] == out@[k]);
            }
            lemma_pointwise_same_key_ord(
                pre,
                self.note_rows(),
                |x: NotificationRecord| note_ord(x),
                |x: NotificationRecord| note_key(x),
            );
        }
    }

    /// Marks every unread notification as read, stamping `read_at` to
    /// `now` at the transition; rows already read are unchanged. No unread
    /// row remains afterwards.
    pub fn mark_all_notes_read(&mut self, now: Timestamp)
        requires
            old(self).wf(),
        ensures
            final(self).wf(),
            final(self).note_rows().len() == old(self).note_rows().len(),
            forall|k: int|
                0 <= k < old(self).note_rows().len() ==> final(self).note_rows()[k]
                    == note_marked(#[trigger] old(self).note_rows()[k], now),
            final(self).note_rows().filter(|x: NotificationRecord| x.status == 0) == Seq::<
                NotificationRecord,
            >::empty(),
            final(self).matter_rows() == old(self).matter_rows(),
            final(self).kv_rows() == old(self).kv_rows(),
            final(self).tag_rows() == old(self).tag_rows(),
            final(self).task_rows() == old(self).task_rows(),
            final(self).todo_rows() == old(self).todo_rows(),
    {
        let ghost pre = self.note_rows();
        let n = self.notes.len();
        let mut out: Vec<NotificationRecord> = Vec::new();
        let mut i: usize = 0;
        while i < n
            invariant
                n == pre.len(),
                pre == self.note_rows(),
                0 <= i <= n,
                out@.len() == i,
                forall|k: int| 0 <= k < i ==> out@[k] == note_marked(#[trigger] pre[k], now),
            decreases n - i,
        {
            let m = &self.notes[i];
            if m.status == 0 {
                let mut upd = m.duplicate();
                upd.status = 1;
                upd.read_at = Some(now);
                out.push(upd);
            } else {
                out.push(m.duplicate());
            }
            i = i + 1;
        }
        self.notes = out;
        proof {
            assert forall|k: int|
                0 <= k < pre.len() implies note_ord(#[trigger] self.note_rows()[k]) == note_ord(
                pre[k],
            ) && note_key(self.note_rows()[k]) == note_key(pre[k]) by {
                assert(self.note_rows()[k] == out@[k]);
            }
            lemma_pointwise_same_key_ord(
                pre,
                self.note_rows(),
                |x: NotificationRecord| note_ord(x),
                |x: NotificationRecord| note_key(x),
            );
            lemma_filter_none(self.note_rows(), |x: NotificationRecord| x.status == 0);
        }
    }

    /// Full-row update by id of every mutable column; the identifier, the
    /// creation instant and the read instant stay. A missing id is a
    /// silent no-op.
    pub fn update_note(&mut self, m: &NotificationRecord)
        requires
            old(self).wf(),
        ensures
            final(self).wf(),
            !has_note(old(self).note_rows(), m.id@) ==> *final(self) == *old(self),
            has_note(old(self).note_rows(), m.id@) ==> exists|i: int|
                0 <= i < old(self).note_rows().len() && (#[trigger] old(self).note_rows()[i]).id@
                    == m.id@ && final(self).note_rows() == old(self).note_rows().update(
                    i,
                    note_updated(old(self).note_rows()[i], *m),
                ),
            final(self).matter_rows() == old(self).matter_rows(),
            final(self).kv_rows() == old(self).kv_rows(),
            final(self).tag_rows() == old(self).tag_rows(),
            final(self).task_rows() == old(self).task_rows(),
            final(self).todo_rows() == old(self).todo_rows(),
    {
        let idx = match self.find_note(m.id.as_str()) {
            Some(i) => i,
            None => {
                return ;
            },
        };
        let ghost pre = self.note_rows();
        let ghost gi = idx as int;
        let stored = self.notes.remove(idx);
        let upd = NotificationRecord {
            id: stored.id,
            title: m.title.clone(),
            content: m.content.clone(),
            type_: m.type_,
            status: m.status,
            related_task_id: crate::entities::clone_opt_string(&m.related_task_id),
            created_at: stored.created_at,
            read_at: stored.read_at,
            expire_at: m.expire_at,
            action_url: crate::entities::clone_opt_string(&m.action_url),
            reserved_1: crate::entities::clone_opt_string(&m.reserved_1),
            reserved_2: crate::entities::clone_opt_string(&m.reserved_2),
            reserved_3: crate::entities::clone_opt_string(&m.reserved_3),
            reserved_4: crate::entities::clone_opt_string(&m.reserved_4),
            reserved_5: crate::entities::clone_opt_string(&m.reserved_5),
        };
        self.notes.insert(idx, upd);
        proof {
            pre.remove_ensures(gi);
            pre.remove(gi).insert_ensures(gi, upd);
            assert(self.note_rows() =~= pre.update(gi, upd));
            assert forall|k: int|
                0 <= k < pre.len() implies note_ord(#[trigger] self.note_rows()[k]) == note_ord(
                pre[k],
            ) && note_key(self.note_rows()[k]) == note_key(pre[k]) by {
                assert(self.note_rows()[k] == pre.update(gi, upd)[k]);
            }
            lemma_pointwise_same_key_ord(
                pre,
                self.note_rows(),
                |x: NotificationRecord| note_ord(x),
                |x: NotificationRecord| note_key(x),
            );
        }
    }

    /// Removes the notification with the given id; deleting a missing id
    /// is a silent no-op.
    pub fn delete_note(&mut self, id: &str)
        requires
            old(self).wf(),
        ensures
            final(self).wf(),
            !has_note(old(self).note_rows(), id@) ==> *final(self) == *old(self),
            has_note(old(self).note_rows(), id@) ==> exists|i: int|
                0 <= i < old(self).note_rows().len() && (#[trigger] old(self).note_rows()[i]).id@
                    == id@ && final(self).note_rows() == old(self).note_rows().remove(i),
            final(self).matter_rows() == old(self).matter_rows(),
            final(self).kv_rows() == old(self).kv_rows(),
            final(self).tag_rows() == old(self).tag_rows(),
            final(self).task_rows() == old(self).task_rows(),
            final(self).todo_rows() == old(self).todo_rows(),
    {
        let idx = match self.find_note(id) {
            Some(i) => i,
            None => {
                return ;
            },
        };
        let ghost pre = self.note_rows();
        self.notes.remove(idx);
        proof {
            lemma_remove_keeps(
                pre,
                idx as int,
                |x: NotificationRecord| note_ord(x),
                |x: NotificationRecord| note_key(x),
            );
        }
    }
}

// ---------------------------------------------------------------------------
// Dynamic single-column event query
// ---------------------------------------------------------------------------

/// The closed allow-list of columns a dynamic event query may name: this
/// is the chosen enumeration, and it covers exactly the nine text columns
/// (`id`, `title`, `description`, `tags`, `reserved_1` to `reserved_5`).
/// The numeric and instant columns (`priority`, `type`, `start_time`,
/// `end_time`, `created_at`, `updated_at`) are deliberately outside it:
/// a text pattern has no single meaning against them, and every name
/// outside the enumeration is rejected as malformed before it reaches the
/// storage layer, which rules out statement-text injection.
pub open spec fn is_matter_text_field(f: Seq<char>) -> bool {
    ||| f == "id"@
    ||| f == "title"@
    ||| f == "description"@
    ||| f == "tags"@
    ||| f == "reserved_1"@
    ||| f == "reserved_2"@
    ||| f == "reserved_3"@
    ||| f == "reserved_4"@
    ||| f == "reserved_5"@
}

pub open spec fn opt_text(o: Option<String>) -> Option<Seq<char>> {
    match o {
        Some(s) => Some(s@),
        None => None,
    }
}

/// The text the named column holds for this event; an absent optional
/// column holds nothing and never matches.
pub open spec fn matter_field_text(m: Matter, f: Seq<char>) -> Option<Seq<char>> {
    if f == "id"@ {
        Some(m.id@)
    } else if f == "title"@ {
        Some(m.title@)
    } else if f == "description"@ {
        opt_text(m.description)
    } else if f == "tags"@ {
        opt_text(m.tags)
    } else if f == "reserved_1"@ {
        opt_text(m.reserved_1)
    } else if f == "reserved_2"@ {
        opt_text(m.reserved_2)
    } else if f == "reserved_3"@ {
        opt_text(m.reserved_3)
    } else if f == "reserved_4"@ {
        opt_text(m.reserved_4)
    } else if f == "reserved_5"@ {
        opt_text(m.reserved_5)
    } else {
        None
    }
}

/// Exact match compares the whole text; otherwise the query value is a
/// substring pattern, compared case-folded as the engine's `LIKE` with
/// wildcard markers on both sides would.
pub open spec fn text_matches(t: Seq<char>, v: Seq<char>, exact: bool) -> bool {
    if exact {
        t == v
    } else {
        crate::strutil::contains_folded(t, v)
    }
}

/// The event matches the dynamic query on the named column.
pub open spec fn matches_matter_field(m: Matter, f: Seq<char>, v: Seq<char>, exact: bool) -> bool {
    match matter_field_text(m, f) {
        Some(t) => text_matches(t, v, exact),
        None => false,
    }
}

/// Whether the stored text matches the query value.
fn text_match(t: &str, v: &str, exact: bool) -> (r: bool)
    ensures
        r == text_matches(t@, v@, exact),
{
    if exact {
        str_eq(t, v)
    } else {
        crate::strutil::str_contains_folded(t, v)
    }
}

/// Whether the stored optional text matches the query value; an absent
/// text never matches.
fn opt_text_match(t: &Option<String>, v: &str, exact: bool) -> (r: bool)
    ensures
        r == (match opt_text(*t) {
            Some(tt) => text_matches(tt, v@, exact),
            None => false,
        }),
{
    match t {
        Some(tt) => text_match(tt.as_str(), v, exact),
        None => false,
    }
}

/// Whether the event matches the dynamic query on the named column.
fn matter_field_match(m: &Matter, field: &str, value: &str, exact: bool) -> (r: bool)
    ensures
        r == matches_matter_field(*m, field@, value@, exact),
{
    if str_eq(field, "id") {
        text_match(m.id.as_str(), value, exact)
    } else if str_eq(field, "title") {
        text_match(m.title.as_str(), value, exact)
    } else if str_eq(field, "description") {
        opt_text_match(&m.description, value, exact)
    } else if str_eq(field, "tags") {
        opt_text_match(&m.tags, value, exact)
    } else if str_eq(field, "reserved_1") {
        opt_text_match(&m.reserved_1, value, exact)
    } else if str_eq(field, "reserved_2") {
        opt_text_match(&m.reserved_2, value, exact)
    } else if str_eq(field, "reserved_3") {
        opt_text_match(&m.reserved_3, value, exact)
    } else if str_eq(field, "reserved_4") {
        opt_text_match(&m.reserved_4, value, exact)
    } else if str_eq(field, "reserved_5") {
        opt_text_match(&m.reserved_5, value, exact)
    } else {
        false
    }
}

impl Database {
    /// Dynamic single-column filter over the event table. The field name
    /// must come from the chosen enumeration of queryable columns — the
    /// nine text columns listed at `is_matter_text_field` — and any other
    /// name, the numeric and instant columns included, fails with
    /// `MalformedQuery`. Exact match compares equality, a non-exact match
    /// is a case-folded substring search, as the engine's `LIKE` with
    /// wildcard markers on both sides performs it. Results are ordered by
    /// start time ascending.
    pub fn matters_by_field(&self, field: &str, value: &str, exact_match: bool) -> (r: Result<
        Vec<Matter>,
        DbError,
    >)
        requires
            self.wf(),
        ensures
            !is_matter_text_field(field@) ==> r == Err::<Vec<Matter>, DbError>(
                DbError::MalformedQuery,
            ),
            is_matter_text_field(field@) ==> r is Ok && r.unwrap()@ == self.matter_rows().filter(
                |m: Matter| matches_matter_field(m, field@, value@, exact_match),
            ) && sorted_by_key(r.unwrap()@, |m: Matter| matter_ord(m)) && (forall|k: int|
                0 <= k < r.unwrap()@.len() ==> matches_matter_field(
                    #[trigger] r.unwrap()@[k],
                    field@,
                    value@,
                    exact_match,
                )),
    {
        let allowed = str_eq(field, "id") || str_eq(field, "title") || str_eq(field, "description")
            || str_eq(field, "tags") || str_eq(field, "reserved_1") || str_eq(field, "reserved_2")
            || str_eq(field, "reserved_3") || str_eq(field, "reserved_4") || str_eq(
            field,
            "reserved_5",
        );
        if !allowed {
            return Err(DbError::MalformedQuery);
        }
        let ghost pred = |m: Matter| matches_matter_field(m, field@, value@, exact_match);
        let n = self.matters.len();
        let mut out: Vec<Matter> = Vec::new();
        let mut i: usize = 0;
        proof {
            assert(self.matter_rows().subrange(0, 0).filter(pred) =~= Seq::<Matter>::empty())
                by {
                reveal(Seq::filter);
            }
        }
        while i < n
            invariant
                n == self.matter_rows().len(),
                0 <= i <= n,
                out@ == self.matter_rows().subrange(0, i as int).filter(pred),
                pred == (|m: Matter| matches_matter_field(m, field@, value@, exact_match)),
                sorted_by_key(self.matter_rows(), |m: Matter| matter_ord(m)),
                sorted_by_key(out@, |m: Matter| matter_ord(m)),
                forall|k: int| 0 <= k < out@.len() ==> matches_matter_field(
                    #[trigger] out@[k],
                    field@,
                    value@,
                    exact_match,
                ),
                i > 0 ==> forall|k: int| 0 <= k < out@.len() ==> matter_ord(#[trigger] out@[k])
                    <= matter_ord(self.matter_rows()[i - 1]),
            decreases n - i,
        {
            proof {
                assert(self.matter_rows().subrange(0, i + 1) =~= self.matter_rows().subrange(
                    0,
                    i as int,
                ).push(self.matter_rows()[i as int]));
                lemma_filter_push(
                    self.matter_rows().subrange(0, i as int),
                    self.matter_rows()[i as int],
                    pred,
                );
            }
            let ghost out0 = out@;
            if matter_field_match(&self.matters[i], field, value, exact_match) {
                out.push(self.matters[i].duplicate());
            }
            proof {
                let rows = self.matter_rows();
                assert forall|k: int| 0 <= k < out@.len() implies matter_ord(#[trigger] out@[k])
                    <= matter_ord(rows[i as int]) by {
                    if k < out0.len() {
                        assert(out@[k] == out0[k]);
                        if i > 0 {
                            assert(matter_ord(out0[k]) <= matter_ord(rows[i - 1]));
                            assert(matter_ord(rows[i - 1]) <= matter_ord(rows[i as int]));
                        }
                    }
                }
                assert forall|a: int, b: int| 0 <= a <= b < out@.len() implies matter_ord(
                    out@[a],
                ) <= matter_ord(out@[b]) by {
                    if b < out0.len() {
                        assert(matter_ord(out0[a]) <= matter_ord(out0[b]));
                    } else {
                        assert(matter_ord(out@[a]) <= matter_ord(rows[i as int]));
                    }
                }
            }
            i = i + 1;
        }
        proof {
            assert(self.matter_rows().subrange(0, n as int) =~= self.matter_rows());
        }
        Ok(out)
    }
}

// ---------------------------------------------------------------------------
// Row loading
// ---------------------------------------------------------------------------

impl Database {
    /// Takes a stored key-value row as it is, both instants included;
    /// fails exactly when the key is already present.
    pub fn insert_kv_row(&mut self, e: KVStore) -> (r: Result<(), DbError>)
        requires
            old(self).wf(),
        ensures
            final(self).wf(),
            r is Ok <==> !has_kv(old(self).kv_rows(), e.key@),
            r is Ok ==> final(self).kv_rows() == old(self).kv_rows().push(e),
            r is Err ==> r == Err::<(), DbError>(DbError::ConstraintViolation) && *final(self)
                == *old(self),
            final(self).matter_rows() == old(self).matter_rows(),
            final(self).tag_rows() == old(self).tag_rows(),
            final(self).task_rows() == old(self).task_rows(),
            final(self).todo_rows() == old(self).todo_rows(),
            final(self).note_rows() == old(self).note_rows(),
    {
        if self.find_kv(e.key.as_str()).is_some() {
            return Err(DbError::ConstraintViolation);
        }
        let ghost pre = self.kv_rows();
        let ghost ge = e;
        self.kv.push(e);
        proof {
            assert forall|a: int, b: int|
                0 <= a < b < self.kv_rows().len() implies (#[trigger] self.kv_rows()[a]).key@
                != (#[trigger] self.kv_rows()[b]).key@ by {
                if b < pre.len() {
                    assert(pre[a].key@ != pre[b].key@);
                } else {
                    assert(pre[a].key@ != ge.key@);
                }
            }
        }
        Ok(())
    }

    /// Takes a stored tag row as it is, both instants included; fails
    /// exactly when the name is already present.
    pub fn insert_tag_row(&mut self, t: Tag) -> (r: Result<(), DbError>)
        requires
            old(self).wf(),
        ensures
            final(self).wf(),
            r is Ok <==> !has_tag(old(self).tag_rows(), t.name@),
            r is Ok ==> exists|p: int|
                0 <= p <= old(self).tag_rows().len() && final(self).tag_rows() == #[trigger] old(
                    self,
                ).tag_rows().insert(p, t),
            r is Err ==> r == Err::<(), DbError>(DbError::ConstraintViolation) && *final(self)
                == *old(self),
            final(self).matter_rows() == old(self).matter_rows(),
            final(self).kv_rows() == old(self).kv_rows(),
            final(self).task_rows() == old(self).task_rows(),
            final(self).todo_rows() == old(self).todo_rows(),
            final(self).note_rows() == old(self).note_rows(),
    {
        if self.find_tag(t.name.as_str()).is_some() {
            return Err(DbError::ConstraintViolation);
        }
        let n = self.tags.len();
        let mut p: usize = 0;
        while p < n && str_lex_lt(self.tags[p].name.as_str(), t.name.as_str())
            invariant
                n == self.tag_rows().len(),
                0 <= p <= n,
                forall|k: int| 0 <= k < p ==> lex_lt(
                    (#[trigger] self.tag_rows()[k]).name@,
                    t.name@,
                ),
            decreases n - p,
        {
            p = p + 1;
        }
        proof {
            if p < n {
                lemma_lex_lt_connected(self.tag_rows()[p as int].name@, t.name@);
            }
        }
        let ghost pre = self.tag_rows();
        let ghost gx = t;
        self.tags.insert(p, t);
        proof {
            lemma_tag_insert_sorted(pre, p as int, gx);
        }
        Ok(())
    }
}

// ---------------------------------------------------------------------------
// Key presence checks
// ---------------------------------------------------------------------------

impl Database {
    /// Whether an event with the given id is stored.
    pub fn has_matter_key(&self, id: &str) -> (r: bool)
        ensures
            r == has_matter(self.matter_rows(), id@),
    {
        self.find_matter(id).is_some()
    }

    /// Whether an entry with the given key is stored.
    pub fn has_kv_key(&self, key: &str) -> (r: bool)
        ensures
            r == has_kv(self.kv_rows(), key@),
    {
        self.find_kv(key).is_some()
    }

    /// Whether a tag with the given name is stored.
    pub fn has_tag_name(&self, name: &str) -> (r: bool)
        ensures
            r == has_tag(self.tag_rows(), name@),
    {
        self.find_tag(name).is_some()
    }

    /// Whether a recurring task with the given id is stored.
    pub fn has_task_key(&self, id: &str) -> (r: bool)
        ensures
            r == has_task(self.task_rows(), id@),
    {
        self.find_task(id).is_some()
    }

    /// Whether a todo with the given id is stored.
    pub fn has_todo_key(&self, id: &str) -> (r: bool)
        ensures
            r == has_todo(self.todo_rows(), id@),
    {
        self.find_todo(id).is_some()
    }

    /// Whether a notification with the given id is stored.
    pub fn has_note_key(&self, id: &str) -> (r: bool)
        ensures
            r == has_note(self.note_rows(), id@),
    {
        self.find_note(id).is_some()
    }
}

} // verus!
