//! The mathematical model of the live pool: a sequence of instance records in
//! the order in which they were admitted, no identifier occurring twice.

use crate::config::LlamaServerConfigView;
use vstd::prelude::*;

verus! {

/// Where a worker stands in its life.
///
/// A record is made in `Starting`, is `Running` from the moment it is
/// admitted to the pool, and is `Stopped` once its process has exited or it
/// was asked to stop; a stopped record leaves the pool and is not started
/// again. `Failed` is reserved: no operation of this crate enters it.
#[derive(Clone, Copy, Debug, PartialEq, Eq, Structural)]
pub enum ServiceStatus {
    Starting,
    Running,
    Failed,
    Stopped,
}

impl ServiceStatus {
    /// The steps a record may take: `Starting` to `Running` or `Failed`,
    /// and `Running` to `Stopped`.
    pub open spec fn may_become(self, next: ServiceStatus) -> bool {
        ||| self == ServiceStatus::Starting && next == ServiceStatus::Running
        ||| self == ServiceStatus::Starting && next == ServiceStatus::Failed
        ||| self == ServiceStatus::Running && next == ServiceStatus::Stopped
    }
}

/// An instance record as mathematical values.
pub struct InstanceView {
    pub id: Seq<char>,
    pub config: LlamaServerConfigView,
    pub server_addr: Seq<char>,
    pub status: ServiceStatus,
}

/// The live pool as mathematical values.
pub type PoolView = Seq<InstanceView>;

/// Whether a record with this identifier is in the pool.
pub open spec fn has_id(pool: PoolView, id: Seq<char>) -> bool {
    exists|i: int| 0 <= i < pool.len() && (#[trigger] pool[i]).id == id
}

/// Whether `i` is the place of the first record with this identifier.
pub open spec fn is_first_with_id(pool: PoolView, id: Seq<char>, i: int) -> bool {
    &&& 0 <= i < pool.len()
    &&& pool[i].id == id
    &&& forall|k: int| 0 <= k < i ==> (#[trigger] pool[k]).id != id
}

/// The place of the first record with this identifier, or the pool's length
/// where there is none.
pub open spec fn position(pool: PoolView, id: Seq<char>) -> int {
    if exists|i: int| is_first_with_id(pool, id, i) {
        choose|i: int| is_first_with_id(pool, id, i)
    } else {
        pool.len() as int
    }
}

/// No identifier occurs twice.
pub open spec fn distinct_ids(pool: PoolView) -> bool {
    forall|i: int, j: int|
        0 <= i < pool.len() && 0 <= j < pool.len() && i != j ==> (#[trigger] pool[i]).id != (
        #[trigger] pool[j]).id
}

/// The record with this identifier, if the pool holds one.
pub open spec fn lookup(pool: PoolView, id: Seq<char>) -> Option<InstanceView> {
    let p = position(pool, id);
    if p < pool.len() {
        Some(pool[p])
    } else {
        None
    }
}

/// The pool without the record that has this identifier.
pub open spec fn remove(pool: PoolView, id: Seq<char>) -> PoolView {
    let p = position(pool, id);
    if p < pool.len() {
        pool.remove(p)
    } else {
        pool
    }
}

/// `inst` with another status.
pub open spec fn with_status(inst: InstanceView, status: ServiceStatus) -> InstanceView {
    InstanceView { status, ..inst }
}

/// The length of the longest identifier in the pool.
pub open spec fn longest_id(pool: PoolView) -> nat
    decreases pool.len(),
{
    if pool.len() == 0 {
        0
    } else {
        let before = longest_id(pool.drop_last());
        if pool.last().id.len() > before {
            pool.last().id.len()
        } else {
            before
        }
    }
}

/// `n` dashes.
pub open spec fn dashes(n: nat) -> Seq<char> {
    Seq::new(n, |i: int| '-')
}

/// The identifier under which a record enters the pool, given the one that
/// was drawn for it: the drawn one where no record has it, else the drawn
/// one with dashes added until it is longer than every identifier in the
/// pool.
pub open spec fn fresh_identifier(pool: PoolView, drawn: Seq<char>) -> Seq<char> {
    if !has_id(pool, drawn) {
        drawn
    } else {
        drawn + dashes((longest_id(pool) + 1 - drawn.len()) as nat)
    }
}

/// How many records are `Running`.
pub open spec fn running_count(pool: PoolView) -> nat
    decreases pool.len(),
{
    if pool.len() == 0 {
        0
    } else {
        running_count(pool.drop_last()) + if pool.last().status == ServiceStatus::Running {
            1nat
        } else {
            0nat
        }
    }
}

/// Whether `i` is the place of the first `Running` record.
pub open spec fn is_first_running(pool: PoolView, i: int) -> bool {
    &&& 0 <= i < pool.len()
    &&& pool[i].status == ServiceStatus::Running
    &&& forall|k: int| 0 <= k < i ==> (#[trigger] pool[k]).status != ServiceStatus::Running
}

/// The first `Running` record in admission order: the one a request is
/// dispatched to.
pub open spec fn first_running(pool: PoolView) -> Option<InstanceView> {
    if exists|i: int| is_first_running(pool, i) {
        Some(pool[choose|i: int| is_first_running(pool, i)])
    } else {
        None
    }
}

/// The place found by a scan from the front is `position`.
pub proof fn lemma_position_found(pool: PoolView, id: Seq<char>, i: int)
    requires
        is_first_with_id(pool, id, i),
    ensures
        position(pool, id) == i,
        has_id(pool, id),
{
    let c = choose|c: int| is_first_with_id(pool, id, c);
    assert(is_first_with_id(pool, id, c));
    if c < i {
        assert(pool[c].id != id);
    }
    if i < c {
        assert(pool[i].id != id);
    }
}

/// A scan that finds nothing: `position` is the pool's length.
pub proof fn lemma_position_absent(pool: PoolView, id: Seq<char>)
    requires
        forall|k: int| 0 <= k < pool.len() ==> (#[trigger] pool[k]).id != id,
    ensures
        position(pool, id) == pool.len(),
        !has_id(pool, id),
{
    if exists|i: int| is_first_with_id(pool, id, i) {
        let c = choose|c: int| is_first_with_id(pool, id, c);
        assert(pool[c].id != id);
    }
}

/// `position` is within the pool exactly where the identifier is known.
pub proof fn lemma_position_range(pool: PoolView, id: Seq<char>)
    ensures
        0 <= position(pool, id) <= pool.len(),
        position(pool, id) < pool.len() <==> has_id(pool, id),
        position(pool, id) < pool.len() ==> is_first_with_id(pool, id, position(pool, id)),
{
    if exists|i: int| is_first_with_id(pool, id, i) {
        let c = choose|c: int| is_first_with_id(pool, id, c);
        assert(is_first_with_id(pool, id, c));
    } else {
        if has_id(pool, id) {
            let w = choose|w: int| 0 <= w < pool.len() && (#[trigger] pool[w]).id == id;
            lemma_first_exists(pool, id, w);
        }
    }
}

/// Below any record with the identifier there is a first one.
proof fn lemma_first_exists(pool: PoolView, id: Seq<char>, w: int)
    requires
        0 <= w < pool.len(),
        pool[w].id == id,
    ensures
        exists|i: int| is_first_with_id(pool, id, i),
    decreases w,
{
    if forall|k: int| 0 <= k < w ==> (#[trigger] pool[k]).id != id {
        assert(is_first_with_id(pool, id, w));
    } else {
        let k = choose|k: int| 0 <= k < w && (#[trigger] pool[k]).id == id;
        lemma_first_exists(pool, id, k);
    }
}

/// The first running record found by a scan from the front.
pub proof fn lemma_first_running_found(pool: PoolView, i: int)
    requires
        is_first_running(pool, i),
    ensures
        first_running(pool) == Some(pool[i]),
{
    let c = choose|c: int| is_first_running(pool, c);
    assert(is_first_running(pool, c));
    if c < i {
        assert(pool[c].status != ServiceStatus::Running);
    }
    if i < c {
        assert(pool[i].status != ServiceStatus::Running);
    }
}

/// A scan that finds no running record.
pub proof fn lemma_first_running_absent(pool: PoolView)
    requires
        forall|k: int| 0 <= k < pool.len() ==> (#[trigger] pool[k]).status != ServiceStatus::Running,
    ensures
        first_running(pool).is_none(),
        running_count(pool) == 0,
    decreases pool.len(),
{
    if exists|i: int| is_first_running(pool, i) {
        let c = choose|c: int| is_first_running(pool, c);
        assert(pool[c].status != ServiceStatus::Running);
    }
    if pool.len() > 0 {
        lemma_first_running_absent(pool.drop_last());
    }
}

/// No more records run than the pool holds.
pub proof fn lemma_running_count_bounded(pool: PoolView)
    ensures
        running_count(pool) <= pool.len(),
    decreases pool.len(),
{
    if pool.len() > 0 {
        lemma_running_count_bounded(pool.drop_last());
    }
}

/// The dispatcher finds a candidate exactly where the load gate counts a
/// running record: some record runs exactly where the count of running
/// records is not zero.
pub proof fn law_candidate_iff_running(pool: PoolView)
    ensures
        running_count(pool) > 0 <==> first_running(pool).is_some(),
    decreases pool.len(),
{
    if forall|k: int| 0 <= k < pool.len() ==> (#[trigger] pool[k]).status != ServiceStatus::Running {
        lemma_first_running_absent(pool);
    } else {
        let w = choose|w: int|
            0 <= w < pool.len() && (#[trigger] pool[w]).status == ServiceStatus::Running;
        lemma_some_first_running(pool, w);
        lemma_running_count_at_least_one(pool, w);
    }
}

proof fn lemma_some_first_running(pool: PoolView, w: int)
    requires
        0 <= w < pool.len(),
        pool[w].status == ServiceStatus::Running,
    ensures
        exists|i: int| is_first_running(pool, i),
    decreases w,
{
    if forall|k: int| 0 <= k < w ==> (#[trigger] pool[k]).status != ServiceStatus::Running {
        assert(is_first_running(pool, w));
    } else {
        let k = choose|k: int|
            0 <= k < w && (#[trigger] pool[k]).status == ServiceStatus::Running;
        lemma_some_first_running(pool, k);
    }
}

proof fn lemma_running_count_at_least_one(pool: PoolView, w: int)
    requires
        0 <= w < pool.len(),
        pool[w].status == ServiceStatus::Running,
    ensures
        running_count(pool) >= 1,
    decreases pool.len(),
{
    if w < pool.len() - 1 {
        lemma_running_count_at_least_one(pool.drop_last(), w);
    }
}

/// What a look-up by identifier sees: the record's status, if there is a record.
pub open spec fn status_in(pool: PoolView, id: Seq<char>) -> Option<ServiceStatus> {
    match lookup(pool, id) {
        Some(i) => Some(i.status),
        None => None,
    }
}

/// The invariant of a pool that may hold `capacity` records: it holds no
/// more, no identifier occurs twice, and every record is `Running`. A
/// record that is `Stopped` has left the pool.
pub open spec fn pool_inv(pool: PoolView, capacity: nat) -> bool {
    &&& pool.len() <= capacity
    &&& distinct_ids(pool)
    &&& forall|i: int| 0 <= i < pool.len() ==> (#[trigger] pool[i]).status == ServiceStatus::Running
}

/// What can happen to a pool.
pub enum PoolOp {
    /// A launch that has passed every check but those of admission, for
    /// this record.
    Launch(InstanceView),
    /// A request to stop the instance with this identifier.
    Stop(Seq<char>),
    /// The exit of the process of the instance with this identifier.
    Exit(Seq<char>),
}

/// Whether a launch of the record `inst` is admitted: the pool has room,
/// and no record in it has the identifier.
pub open spec fn admits(pool: PoolView, capacity: nat, inst: InstanceView) -> bool {
    pool.len() < capacity && !has_id(pool, inst.id)
}

/// The pool after one operation. A launch that is admitted puts its record
/// at the end of the pool as `Running`, and one that is not changes
/// nothing; a stop and an exit both take the record out of the pool.
pub open spec fn apply(pool: PoolView, capacity: nat, op: PoolOp) -> PoolView {
    match op {
        PoolOp::Launch(inst) => if admits(pool, capacity, inst) {
            pool.push(with_status(inst, ServiceStatus::Running))
        } else {
            pool
        },
        PoolOp::Stop(id) => remove(pool, id),
        PoolOp::Exit(id) => remove(pool, id),
    }
}

/// The pool after a sequence of operations.
pub open spec fn apply_all(pool: PoolView, capacity: nat, ops: Seq<PoolOp>) -> PoolView
    decreases ops.len(),
{
    if ops.len() == 0 {
        pool
    } else {
        apply(apply_all(pool, capacity, ops.drop_last()), capacity, ops.last())
    }
}

/// Whether the operation makes the instance `id` enter `Running`: it is a
/// launch of that instance, and it is admitted.
pub open spec fn enters_running(pool: PoolView, capacity: nat, op: PoolOp, id: Seq<char>) -> bool {
    op matches PoolOp::Launch(inst) && inst.id == id && admits(pool, capacity, inst)
}

/// Whether the operation makes the instance `id` enter `Stopped`: it runs,
/// and it is stopped or its process exits.
pub open spec fn enters_stopped(pool: PoolView, op: PoolOp, id: Seq<char>) -> bool {
    status_in(pool, id) == Some(ServiceStatus::Running) && (op == PoolOp::Stop(id) || op
        == PoolOp::Exit(id))
}

/// How often the instance `id` enters `Running` in the course of `ops`.
pub open spec fn running_entries(pool: PoolView, capacity: nat, ops: Seq<PoolOp>, id: Seq<char>) -> nat
    decreases ops.len(),
{
    if ops.len() == 0 {
        0
    } else {
        running_entries(pool, capacity, ops.drop_last(), id) + if enters_running(
            apply_all(pool, capacity, ops.drop_last()),
            capacity,
            ops.last(),
            id,
        ) {
            1nat
        } else {
            0nat
        }
    }
}

/// How often the instance `id` enters `Stopped` in the course of `ops`.
pub open spec fn stopped_entries(pool: PoolView, capacity: nat, ops: Seq<PoolOp>, id: Seq<char>) -> nat
    decreases ops.len(),
{
    if ops.len() == 0 {
        0
    } else {
        stopped_entries(pool, capacity, ops.drop_last(), id) + if enters_stopped(
            apply_all(pool, capacity, ops.drop_last()),
            ops.last(),
            id,
        ) {
            1nat
        } else {
            0nat
        }
    }
}

/// Whether `op` launches the instance `id`.
pub open spec fn launches(op: PoolOp, id: Seq<char>) -> bool {
    op matches PoolOp::Launch(inst) && inst.id == id
}

/// No identifier is handed to two launches.
pub open spec fn launched_at_most_once(ops: Seq<PoolOp>, id: Seq<char>) -> bool {
    forall|i: int, j: int|
        0 <= i < j < ops.len() ==> !(launches(#[trigger] ops[i], id) && launches(
            #[trigger] ops[j],
            id,
        ))
}

/// No identifier in the pool is longer than `longest_id` says.
pub proof fn lemma_longest_id_bounds(pool: PoolView)
    ensures
        forall|i: int| 0 <= i < pool.len() ==> (#[trigger] pool[i]).id.len() <= longest_id(pool),
    decreases pool.len(),
{
    if pool.len() > 0 {
        lemma_longest_id_bounds(pool.drop_last());
        assert forall|i: int| 0 <= i < pool.len() implies (#[trigger] pool[i]).id.len()
            <= longest_id(pool) by {
            if i < pool.len() - 1 {
                assert(pool.drop_last()[i] == pool[i]);
            }
        }
    }
}

/// The identifier under which a record enters the pool is new to the pool,
/// and begins with the one that was drawn.
pub proof fn law_fresh_identifier_is_new(pool: PoolView, drawn: Seq<char>)
    ensures
        !has_id(pool, fresh_identifier(pool, drawn)),
        fresh_identifier(pool, drawn).len() >= drawn.len(),
        fresh_identifier(pool, drawn).subrange(0, drawn.len() as int) == drawn,
        !has_id(pool, drawn) ==> fresh_identifier(pool, drawn) == drawn,
{
    let fresh = fresh_identifier(pool, drawn);
    lemma_longest_id_bounds(pool);
    if has_id(pool, drawn) {
        let w = choose|w: int| 0 <= w < pool.len() && (#[trigger] pool[w]).id == drawn;
        assert(drawn.len() <= longest_id(pool));
        assert(fresh.len() == longest_id(pool) + 1);
        assert(fresh.subrange(0, drawn.len() as int) =~= drawn);
        if has_id(pool, fresh) {
            let k = choose|k: int| 0 <= k < pool.len() && (#[trigger] pool[k]).id == fresh;
            assert(pool[k].id.len() <= longest_id(pool));
        }
    } else {
        assert(fresh.subrange(0, drawn.len() as int) =~= drawn);
    }
}

/// After a record was put at the end of a pool that did not have its
/// identifier, a look-up by its identifier finds it, and a look-up by any
/// other identifier finds what it found before.
pub proof fn lemma_lookup_push(pool: PoolView, inst: InstanceView, id: Seq<char>)
    requires
        distinct_ids(pool),
        !has_id(pool, inst.id),
    ensures
        distinct_ids(pool.push(inst)),
        lookup(pool.push(inst), id) == if inst.id == id {
            Some(inst)
        } else {
            lookup(pool, id)
        },
{
    let after = pool.push(inst);
    lemma_position_range(pool, id);
    lemma_position_range(after, id);
    assert(distinct_ids(after)) by {
        assert forall|i: int, j: int|
            0 <= i < after.len() && 0 <= j < after.len() && i != j implies (#[trigger] after[i]).id
            != (#[trigger] after[j]).id by {
            if i < pool.len() {
                assert(after[i] == pool[i]);
            }
            if j < pool.len() {
                assert(after[j] == pool[j]);
            }
        }
    }
    if inst.id == id {
        let at = pool.len() as int;
        assert(after[at] == inst);
        assert forall|k: int| 0 <= k < at implies (#[trigger] after[k]).id != id by {
            assert(after[k] == pool[k]);
        }
        lemma_position_found(after, id, at);
    } else {
        let q = position(pool, id);
        if q < pool.len() {
            assert(after[q] == pool[q]);
            assert forall|k: int| 0 <= k < q implies (#[trigger] after[k]).id != id by {
                assert(after[k] == pool[k]);
            }
            lemma_position_found(after, id, q);
        } else {
            assert forall|k: int| 0 <= k < after.len() implies (#[trigger] after[k]).id != id by {
                if k < pool.len() {
                    assert(after[k] == pool[k]);
                    assert(pool[k].id != id);
                }
            }
            lemma_position_absent(after, id);
        }
    }
}

/// After a record was removed, a look-up by its identifier finds nothing,
/// and a look-up by any other identifier finds what it found before.
pub proof fn lemma_lookup_remove(pool: PoolView, removed: Seq<char>, id: Seq<char>)
    requires
        distinct_ids(pool),
    ensures
        distinct_ids(remove(pool, removed)),
        lookup(remove(pool, removed), id) == if removed == id {
            None
        } else {
            lookup(pool, id)
        },
        remove(pool, removed).len() <= pool.len(),
{
    let after = remove(pool, removed);
    let p = position(pool, removed);
    lemma_position_range(pool, removed);
    lemma_position_range(pool, id);
    lemma_position_range(after, id);
    if p < pool.len() {
        assert forall|k: int| 0 <= k < after.len() implies #[trigger] after[k] == pool[if k < p {
            k
        } else {
            k + 1
        }] by {}
        assert(distinct_ids(after)) by {
            assert forall|i: int, j: int|
                0 <= i < after.len() && 0 <= j < after.len() && i != j implies (
            #[trigger] after[i]).id != (#[trigger] after[j]).id by {
                let a = if i < p {
                    i
                } else {
                    i + 1
                };
                let b = if j < p {
                    j
                } else {
                    j + 1
                };
                assert(after[i] == pool[a]);
                assert(after[j] == pool[b]);
                assert(pool[a].id != pool[b].id);
            }
        }
        if removed == id {
            assert forall|k: int| 0 <= k < after.len() implies (#[trigger] after[k]).id != id by {
                let a = if k < p {
                    k
                } else {
                    k + 1
                };
                assert(after[k] == pool[a]);
                assert(pool[a].id != pool[p].id);
            }
            lemma_position_absent(after, id);
        } else {
            let q = position(pool, id);
            if q < pool.len() {
                let at = if q < p {
                    q
                } else {
                    q - 1
                };
                assert(after[at] == pool[q]);
                assert forall|k: int| 0 <= k < at implies (#[trigger] after[k]).id != id by {
                    let a = if k < p {
                        k
                    } else {
                        k + 1
                    };
                    assert(after[k] == pool[a]);
                    assert(pool[a].id != id);
                }
                lemma_position_found(after, id, at);
            } else {
                assert forall|k: int| 0 <= k < after.len() implies (#[trigger] after[k]).id
                    != id by {
                    let a = if k < p {
                        k
                    } else {
                        k + 1
                    };
                    assert(after[k] == pool[a]);
                    assert(pool[a].id != id);
                }
                lemma_position_absent(after, id);
            }
        }
    }
}

/// Every operation keeps the invariant of the pool.
pub proof fn lemma_apply_keeps_inv(pool: PoolView, capacity: nat, op: PoolOp)
    requires
        pool_inv(pool, capacity),
    ensures
        pool_inv(apply(pool, capacity, op), capacity),
{
    let after = apply(pool, capacity, op);
    match op {
        PoolOp::Launch(inst) => {
            if admits(pool, capacity, inst) {
                let record = with_status(inst, ServiceStatus::Running);
                lemma_lookup_push(pool, record, inst.id);
                assert forall|i: int| 0 <= i < after.len() implies (#[trigger] after[i]).status
                    == ServiceStatus::Running by {
                    if i < pool.len() {
                        assert(after[i] == pool[i]);
                    }
                }
            }
        },
        PoolOp::Stop(id) => {
            lemma_remove_keeps_inv(pool, capacity, id);
        },
        PoolOp::Exit(id) => {
            lemma_remove_keeps_inv(pool, capacity, id);
        },
    }
}

/// Taking a record out keeps the invariant of the pool.
pub proof fn lemma_remove_keeps_inv(pool: PoolView, capacity: nat, id: Seq<char>)
    requires
        pool_inv(pool, capacity),
    ensures
        pool_inv(remove(pool, id), capacity),
{
    let after = remove(pool, id);
    lemma_lookup_remove(pool, id, id);
    lemma_position_range(pool, id);
    let p = position(pool, id);
    assert forall|i: int| 0 <= i < after.len() implies (#[trigger] after[i]).status
        == ServiceStatus::Running by {
        if p < pool.len() {
            let a = if i < p {
                i
            } else {
                i + 1
            };
            assert(after[i] == pool[a]);
        }
    }
}

/// At every time the pool holds no more records than it may: whatever is
/// done to a pool that starts empty, in whatever order, its invariant holds
/// afterwards, and with it the cap.
pub proof fn law_capacity_never_exceeded(capacity: nat, ops: Seq<PoolOp>)
    ensures
        pool_inv(apply_all(Seq::<InstanceView>::empty(), capacity, ops), capacity),
        apply_all(Seq::<InstanceView>::empty(), capacity, ops).len() <= capacity,
    decreases ops.len(),
{
    if ops.len() > 0 {
        law_capacity_never_exceeded(capacity, ops.drop_last());
        lemma_apply_keeps_inv(
            apply_all(Seq::<InstanceView>::empty(), capacity, ops.drop_last()),
            capacity,
            ops.last(),
        );
    }
}

/// What a look-up of `id` sees after one operation, in terms of what it saw
/// before.
pub proof fn lemma_status_step(pool: PoolView, capacity: nat, op: PoolOp, id: Seq<char>)
    requires
        pool_inv(pool, capacity),
    ensures
        status_in(apply(pool, capacity, op), id) == if enters_running(pool, capacity, op, id) {
            Some(ServiceStatus::Running)
        } else if op == PoolOp::Stop(id) || op == PoolOp::Exit(id) {
            None
        } else {
            status_in(pool, id)
        },
{
    match op {
        PoolOp::Launch(inst) => {
            if admits(pool, capacity, inst) {
                lemma_lookup_push(pool, with_status(inst, ServiceStatus::Running), id);
            }
        },
        PoolOp::Stop(removed) => {
            lemma_lookup_remove(pool, removed, id);
        },
        PoolOp::Exit(exited) => {
            lemma_lookup_remove(pool, exited, id);
        },
    }
}

/// How the entries of `id` and what a look-up sees of it go together, after
/// the operations `ops` on an empty pool.
spec fn lifecycle_inv(capacity: nat, ops: Seq<PoolOp>, id: Seq<char>) -> bool {
    let empty = Seq::<InstanceView>::empty();
    let seen = status_in(apply_all(empty, capacity, ops), id);
    let r = running_entries(empty, capacity, ops, id);
    let s = stopped_entries(empty, capacity, ops, id);
    &&& r <= 1
    &&& s <= r
    &&& seen == Some(ServiceStatus::Running) ==> r == 1 && s == 0
    &&& seen.is_none() || seen == Some(ServiceStatus::Running)
    &&& r == 1 ==> exists|k: int| 0 <= k < ops.len() && launches(#[trigger] ops[k], id)
}

proof fn lemma_lifecycle(capacity: nat, ops: Seq<PoolOp>, id: Seq<char>)
    requires
        launched_at_most_once(ops, id),
    ensures
        lifecycle_inv(capacity, ops, id),
    decreases ops.len(),
{
    let empty = Seq::<InstanceView>::empty();
    if ops.len() == 0 {
        lemma_position_absent(empty, id);
    } else {
        let before_ops = ops.drop_last();
        let op = ops.last();
        assert(launched_at_most_once(before_ops, id)) by {
            assert forall|i: int, j: int| 0 <= i < j < before_ops.len() implies !(launches(
                #[trigger] before_ops[i],
                id,
            ) && launches(#[trigger] before_ops[j], id)) by {
                assert(before_ops[i] == ops[i]);
                assert(before_ops[j] == ops[j]);
            }
        }
        lemma_lifecycle(capacity, before_ops, id);
        let pool = apply_all(empty, capacity, before_ops);
        law_capacity_never_exceeded(capacity, before_ops);
        law_capacity_never_exceeded(capacity, ops);
        lemma_status_step(pool, capacity, op, id);
        lemma_position_range(apply_all(empty, capacity, ops), id);
        let r0 = running_entries(empty, capacity, before_ops, id);
        if r0 == 1 {
            let k = choose|k: int| 0 <= k < before_ops.len() && launches(
                #[trigger] before_ops[k],
                id,
            );
            assert(before_ops[k] == ops[k]);
            assert(launches(ops[k], id));
            assert(ops[ops.len() - 1] == op);
            assert(!launches(op, id));
        }
        if enters_running(pool, capacity, op, id) {
            assert(launches(ops[ops.len() - 1], id));
        }
        let r = running_entries(empty, capacity, ops, id);
        if r == 1 && !enters_running(pool, capacity, op, id) {
            let k = choose|k: int| 0 <= k < before_ops.len() && launches(
                #[trigger] before_ops[k],
                id,
            );
            assert(before_ops[k] == ops[k]);
            assert(launches(ops[k], id));
        }
    }
}

/// In the life of an instance it enters `Running` once and `Stopped` at
/// most once.
///
/// Whatever is done to a pool that starts empty: as long as no identifier
/// is handed to two launches, the instance `id` enters `Running` at most
/// once and `Stopped` at most once, never `Stopped` without having run,
/// and an instance that is in the pool has entered `Running` exactly once
/// and `Stopped` not at all.
pub proof fn law_running_once_stopped_at_most_once(
    capacity: nat,
    ops: Seq<PoolOp>,
    id: Seq<char>,
)
    requires
        launched_at_most_once(ops, id),
    ensures
        running_entries(Seq::<InstanceView>::empty(), capacity, ops, id) <= 1,
        stopped_entries(Seq::<InstanceView>::empty(), capacity, ops, id) <= 1,
        stopped_entries(Seq::<InstanceView>::empty(), capacity, ops, id) <= running_entries(
            Seq::<InstanceView>::empty(),
            capacity,
            ops,
            id,
        ),
        has_id(apply_all(Seq::<InstanceView>::empty(), capacity, ops), id) ==> running_entries(
            Seq::<InstanceView>::empty(),
            capacity,
            ops,
            id,
        ) == 1 && stopped_entries(Seq::<InstanceView>::empty(), capacity, ops, id) == 0,
{
    lemma_lifecycle(capacity, ops, id);
    let pool = apply_all(Seq::<InstanceView>::empty(), capacity, ops);
    law_capacity_never_exceeded(capacity, ops);
    lemma_position_range(pool, id);
    if has_id(pool, id) {
        let p = position(pool, id);
        assert(pool[p].status == ServiceStatus::Running);
    }
}

/// A record never goes backwards: from one operation to the next, as long
/// as its identifier is not handed to another launch, a record that is in
/// the pool stays as it is, or leaves the pool by the step from `Running`
/// to `Stopped`; a record that has left the pool does not come back.
pub proof fn law_status_steps_forward(pool: PoolView, capacity: nat, op: PoolOp, id: Seq<char>)
    requires
        pool_inv(pool, capacity),
        !launches(op, id),
    ensures
        match (status_in(pool, id), status_in(apply(pool, capacity, op), id)) {
            (Some(before), Some(after)) => before == after,
            (Some(before), None) => before.may_become(ServiceStatus::Stopped),
            (None, Some(_)) => false,
            (None, None) => true,
        },
{
    lemma_status_step(pool, capacity, op, id);
    lemma_position_range(pool, id);
}

/// A launch that is admitted puts the record of a new instance at the end
/// of the pool as `Running`, the step that `Starting` takes; its
/// identifier was in the pool before under no record, and every other
/// record is seen as before.
pub proof fn law_launch_enters_running(pool: PoolView, capacity: nat, inst: InstanceView)
    requires
        pool_inv(pool, capacity),
        admits(pool, capacity, inst),
    ensures
        ServiceStatus::Starting.may_become(ServiceStatus::Running),
        lookup(pool, inst.id).is_none(),
        lookup(apply(pool, capacity, PoolOp::Launch(inst)), inst.id) == Some(
            with_status(inst, ServiceStatus::Running),
        ),
        forall|other: Seq<char>|
            other != inst.id ==> lookup(apply(pool, capacity, PoolOp::Launch(inst)), other)
                == lookup(pool, other),
{
    let record = with_status(inst, ServiceStatus::Running);
    lemma_lookup_push(pool, record, inst.id);
    lemma_position_range(pool, inst.id);
    assert forall|other: Seq<char>| other != inst.id implies lookup(
        apply(pool, capacity, PoolOp::Launch(inst)),
        other,
    ) == lookup(pool, other) by {
        lemma_lookup_push(pool, record, other);
    }
}

/// The load of a pool lies between zero and one: no more records run than
/// the pool may hold.
pub proof fn law_reading_within_bounds(pool: PoolView, capacity: nat)
    requires
        pool_inv(pool, capacity),
    ensures
        running_count(pool) <= pool.len() <= capacity,
{
    lemma_running_count_bounded(pool);
}

/// The address of a record is not changed after its insertion, nor is its
/// configuration: whatever is done to the pool, as long as the identifier
/// is not handed to another launch, a look-up finds the record as it was,
/// or finds it no more.
pub proof fn law_address_is_kept(pool: PoolView, capacity: nat, op: PoolOp, id: Seq<char>)
    requires
        pool_inv(pool, capacity),
        !launches(op, id),
    ensures
        match (lookup(pool, id), lookup(apply(pool, capacity, op), id)) {
            (Some(before), Some(after)) => after == before,
            (None, Some(_)) => false,
            _ => true,
        },
{
    match op {
        PoolOp::Launch(inst) => {
            if admits(pool, capacity, inst) {
                lemma_lookup_push(pool, with_status(inst, ServiceStatus::Running), id);
            }
        },
        PoolOp::Stop(removed) => {
            lemma_lookup_remove(pool, removed, id);
        },
        PoolOp::Exit(exited) => {
            lemma_lookup_remove(pool, exited, id);
        },
    }
}

} // verus!
