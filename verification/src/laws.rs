use vstd::prelude::*;
use crate::entities::{KVStore, Matter, NotificationRecord, RepeatTask, Tag, Todo};
use crate::store::{
    has_kv, has_matter, has_note, has_task, has_todo, has_unread_note, inserted_by_key, keys_unique,
    kv_key, kv_set_rel, matter_key, matter_ord, note_key, note_marked, note_ord, tag_create_rel,
    tags_sorted, task_key, task_ord, todo_key, todo_ord,
};
use crate::strutil::lemma_lex_lt_irrefl;
use crate::time::Timestamp;

verus! {

/// Creating a record under a fresh key and then looking that key up finds
/// exactly the created record, whatever position the insert chose.
proof fn lemma_create_round_trip<A>(
    pre: Seq<A>,
    post: Seq<A>,
    v: A,
    ord: spec_fn(A) -> int,
    key: spec_fn(A) -> Seq<char>,
)
    requires
        forall|k: int| 0 <= k < pre.len() ==> key(#[trigger] pre[k]) != key(v),
        inserted_by_key(pre, post, v, ord),
    ensures
        exists|i: int| 0 <= i < post.len() && key(#[trigger] post[i]) == key(v),
        forall|i: int| 0 <= i < post.len() && key(#[trigger] post[i]) == key(v) ==> post[i] == v,
{
    let p = choose|p: int|
        0 <= p <= pre.len() && post == #[trigger] pre.insert(p, v) && (forall|k: int|
            0 <= k < p ==> ord(#[trigger] pre[k]) <= ord(v)) && (p < pre.len() ==> ord(v) < ord(
            pre[p],
        ));
    pre.insert_ensures(p, v);
    assert(post[p] == v);
    assert forall|i: int| 0 <= i < post.len() && key(#[trigger] post[i]) == key(v) implies post[i]
        == v by {
        if i < p {
            assert(post[i] == pre[i]);
        } else if i > p {
            assert(pre.insert(p, v)[(i - 1) + 1] == pre[i - 1]);
        }
    }
}

/// Round trip for events: after a successful `create` of `v` into a table
/// without `v`'s id, the unique row carrying that id is `v` itself, field
/// for field — so a following `get_by_id(v.id)` returns `v`.
pub proof fn lemma_matter_round_trip(pre: Seq<Matter>, post: Seq<Matter>, v: Matter)
    requires
        !has_matter(pre, v.id@),
        inserted_by_key(pre, post, v, |x: Matter| matter_ord(x)),
    ensures
        has_matter(post, v.id@),
        forall|i: int| 0 <= i < post.len() && (#[trigger] post[i]).id@ == v.id@ ==> post[i] == v,
{
    lemma_create_round_trip(pre, post, v, |x: Matter| matter_ord(x), |x: Matter| matter_key(x));
}

/// Round trip for recurring tasks, as for events.
pub proof fn lemma_task_round_trip(pre: Seq<RepeatTask>, post: Seq<RepeatTask>, v: RepeatTask)
    requires
        !has_task(pre, v.id@),
        inserted_by_key(pre, post, v, |x: RepeatTask| task_ord(x)),
    ensures
        has_task(post, v.id@),
        forall|i: int| 0 <= i < post.len() && (#[trigger] post[i]).id@ == v.id@ ==> post[i] == v,
{
    lemma_create_round_trip(
        pre,
        post,
        v,
        |x: RepeatTask| task_ord(x),
        |x: RepeatTask| task_key(x),
    );
}

/// Round trip for todos, as for events.
pub proof fn lemma_todo_round_trip(pre: Seq<Todo>, post: Seq<Todo>, v: Todo)
    requires
        !has_todo(pre, v.id@),
        inserted_by_key(pre, post, v, |x: Todo| todo_ord(x)),
    ensures
        has_todo(post, v.id@),
        forall|i: int| 0 <= i < post.len() && (#[trigger] post[i]).id@ == v.id@ ==> post[i] == v,
{
    lemma_create_round_trip(pre, post, v, |x: Todo| todo_ord(x), |x: Todo| todo_key(x));
}

/// Round trip for notifications, as for events.
pub proof fn lemma_note_round_trip(
    pre: Seq<NotificationRecord>,
    post: Seq<NotificationRecord>,
    v: NotificationRecord,
)
    requires
        !has_note(pre, v.id@),
        inserted_by_key(pre, post, v, |x: NotificationRecord| note_ord(x)),
    ensures
        has_note(post, v.id@),
        forall|i: int| 0 <= i < post.len() && (#[trigger] post[i]).id@ == v.id@ ==> post[i] == v,
{
    lemma_create_round_trip(
        pre,
        post,
        v,
        |x: NotificationRecord| note_ord(x),
        |x: NotificationRecord| note_key(x),
    );
}

/// Upsert idempotence: setting `k` to `v1` and then to `v2` leaves one row
/// for `k` holding `v2`, whose update instant is the second write's and
/// whose creation instant is the first insert's — the first write's
/// instant if `k` was fresh, the original row's otherwise.
pub proof fn lemma_kv_upsert(
    pre: Seq<KVStore>,
    mid: Seq<KVStore>,
    post: Seq<KVStore>,
    k: Seq<char>,
    v1: Seq<char>,
    v2: Seq<char>,
    t1: Timestamp,
    t2: Timestamp,
)
    requires
        keys_unique(pre, |e: KVStore| kv_key(e)),
        kv_set_rel(pre, mid, k, v1, t1),
        kv_set_rel(mid, post, k, v2, t2),
    ensures
        exists|i: int|
            0 <= i < post.len() && (#[trigger] post[i]).key@ == k && post[i].value@ == v2
                && post[i].updated_at == t2 && (!has_kv(pre, k) ==> post[i].created_at == t1) && (
            has_kv(pre, k) ==> exists|j: int|
                0 <= j < pre.len() && (#[trigger] pre[j]).key@ == k && post[i].created_at
                    == pre[j].created_at),
{
    if has_kv(pre, k) {
        let i = choose|i: int|
            0 <= i < pre.len() && (#[trigger] pre[i]).key@ == k && mid.len() == pre.len() && (
            forall|j: int| 0 <= j < pre.len() && j != i ==> mid[j] == pre[j]) && mid[i].key
                == pre[i].key && mid[i].value@ == v1 && mid[i].created_at == pre[i].created_at
                && mid[i].updated_at == t1;
        assert(mid[i].key@ == k);
        assert(has_kv(mid, k));
        let i2 = choose|i2: int|
            0 <= i2 < mid.len() && (#[trigger] mid[i2]).key@ == k && post.len() == mid.len() && (
            forall|j: int| 0 <= j < mid.len() && j != i2 ==> post[j] == mid[j]) && post[i2].key
                == mid[i2].key && post[i2].value@ == v2 && post[i2].created_at
                == mid[i2].created_at && post[i2].updated_at == t2;
        if i2 != i {
            assert(mid[i2] == pre[i2]);
            assert(pre[i2].key@ == k && pre[i].key@ == k);
            assert(false);
        }
        assert(post[i].key@ == k && post[i].value@ == v2 && post[i].updated_at == t2);
        assert(post[i].created_at == pre[i].created_at);
    } else {
        let n = pre.len() as int;
        assert(mid[n].key@ == k && mid[n].created_at == t1);
        assert(has_kv(mid, k));
        let i2 = choose|i2: int|
            0 <= i2 < mid.len() && (#[trigger] mid[i2]).key@ == k && post.len() == mid.len() && (
            forall|j: int| 0 <= j < mid.len() && j != i2 ==> post[j] == mid[j]) && post[i2].key
                == mid[i2].key && post[i2].value@ == v2 && post[i2].created_at
                == mid[i2].created_at && post[i2].updated_at == t2;
        if i2 != n {
            assert(mid[i2] == pre[i2]);
            assert(pre[i2].key@ != k);
            assert(false);
        }
        assert(post[n].key@ == k && post[n].value@ == v2 && post[n].created_at == t1
            && post[n].updated_at == t2);
    }
}

/// Idempotent tag creation: creating the same name twice, against any
/// strictly sorted table, leaves exactly one row carrying that name and
/// raises no error — the operation's result type has no error case.
pub proof fn lemma_tag_create_idempotent(
    pre: Seq<Tag>,
    mid: Seq<Tag>,
    post: Seq<Tag>,
    name: Seq<char>,
    t1: Timestamp,
    t2: Timestamp,
)
    requires
        tags_sorted(pre),
        tag_create_rel(pre, mid, name, t1),
        tag_create_rel(mid, post, name, t2),
    ensures
        crate::store::has_tag(post, name),
        forall|i: int, j: int|
            0 <= i < j < post.len() ==> !((#[trigger] post[i]).name@ == name && (
            #[trigger] post[j]).name@ == name),
{
    if !crate::store::has_tag(pre, name) {
        let q = choose|q: int|
            0 <= q <= pre.len() && mid == #[trigger] pre.insert(q, mid[q]) && mid[q].name@ == name
                && mid[q].created_at == t1 && mid[q].last_used_at == t1;
        pre.insert_ensures(q, mid[q]);
        assert(crate::store::has_tag(mid, name));
    }
    assert(post == mid);
    if crate::store::has_tag(pre, name) {
        assert(mid == pre);
        assert forall|i: int, j: int|
            0 <= i < j < post.len() implies !((#[trigger] post[i]).name@ == name && (
        #[trigger] post[j]).name@ == name) by {
            if post[i].name@ == name && post[j].name@ == name {
                lemma_lex_lt_irrefl(name);
            }
        }
    } else {
        let p = choose|p: int|
            0 <= p <= pre.len() && mid == #[trigger] pre.insert(p, mid[p]) && mid[p].name@ == name
                && mid[p].created_at == t1 && mid[p].last_used_at == t1;
        pre.insert_ensures(p, mid[p]);
        assert forall|i: int, j: int|
            0 <= i < j < post.len() implies !((#[trigger] post[i]).name@ == name && (
        #[trigger] post[j]).name@ == name) by {
            if post[i].name@ == name && post[j].name@ == name {
                if i < p {
                    assert(post[i] == pre[i]);
                } else if i > p {
                    assert(pre.insert(p, mid[p])[(i - 1) + 1] == pre[i - 1]);
                }
                if j < p {
                    assert(post[j] == pre[j]);
                } else if j > p {
                    assert(pre.insert(p, mid[p])[(j - 1) + 1] == pre[j - 1]);
                }
                assert(i == p || j == p);
            }
        }
    }
}

/// Read transition: marking the record at index `i` leaves no unread row
/// with its id — a following unread query excludes it — and, if it was
/// unread, the marked row is read with its read instant set to the moment
/// of the transition.
pub proof fn lemma_marked_not_unread(
    pre: Seq<NotificationRecord>,
    post: Seq<NotificationRecord>,
    i: int,
    now: Timestamp,
)
    requires
        keys_unique(pre, |x: NotificationRecord| note_key(x)),
        0 <= i < pre.len(),
        post == pre.update(i, note_marked(pre[i], now)),
    ensures
        !has_unread_note(post, pre[i].id@),
        pre[i].status == 0 ==> post[i].status == 1 && post[i].read_at == Some(now),
{
    assert(post[i] == note_marked(pre[i], now));
    assert(post[i].status != 0);
    assert forall|k: int|
        0 <= k < post.len() && (#[trigger] post[k]).status == 0 implies post[k].id@ != pre[i].id@
        by {
        if k != i {
            assert(post[k] == pre[k]);
        }
    }
}

/// Marking everything leaves nothing unread: the unread query on the
/// marked table returns the empty sequence. This is stated and proved as
/// part of the marking operation's contract as well; here it stands on
/// the pointwise description alone.
pub proof fn lemma_mark_all_clears_unread(
    pre: Seq<NotificationRecord>,
    post: Seq<NotificationRecord>,
    now: Timestamp,
)
    requires
        post.len() == pre.len(),
        forall|k: int| 0 <= k < pre.len() ==> post[k] == note_marked(#[trigger] pre[k], now),
    ensures
        post.filter(|x: NotificationRecord| x.status == 0) == Seq::<NotificationRecord>::empty(),
{
    assert forall|k: int| 0 <= k < post.len() implies !((#[trigger] post[k]).status == 0) by {
        assert(post[k] == note_marked(pre[k], now));
    }
    crate::store::lemma_filter_none(post, |x: NotificationRecord| x.status == 0);
    assert(post.filter(|x: NotificationRecord| x.status == 0) =~= Seq::<
        NotificationRecord,
    >::empty());
}

} // verus!
