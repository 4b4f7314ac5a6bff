//! The persistence core: the relational rows for users, settings and
//! tasks, their integrity invariants, and the verified operations over
//! them. The store keeps its rows in memory in the shape of the
//! persisted schema; the asynchronous SQL engine that mirrors these
//! operations onto disk lives outside the verified library.

use vstd::prelude::*;
use crate::math::{lemma_operation_round_trip, op_code, op_of_code, Operation, Task};

verus! {

/// The grading state of a stored task.
#[derive(Clone, Copy, Debug, PartialEq, Eq, Structural)]
pub enum TaskStatus {
    NEW,
    CORRECT,
    WRONG,
}

/// The stable integer encoding of a `TaskStatus` in the persisted
/// format. These codes are part of the stored data and must never be
/// renumbered.
pub open spec fn status_code(s: TaskStatus) -> i32 {
    match s {
        TaskStatus::NEW => 0,
        TaskStatus::CORRECT => 1,
        TaskStatus::WRONG => 2,
    }
}

/// The partial inverse of `status_code`: which status a stored integer
/// denotes, if any.
pub open spec fn status_of_code(val: i32) -> Option<TaskStatus> {
    if val == 0 {
        Some(TaskStatus::NEW)
    } else if val == 1 {
        Some(TaskStatus::CORRECT)
    } else if val == 2 {
        Some(TaskStatus::WRONG)
    } else {
        None
    }
}

impl TaskStatus {
    /// The integer under which this status is stored.
    pub fn to_int(&self) -> (r: i32)
        ensures
            r == status_code(*self),
    {
        match self {
            TaskStatus::NEW => 0,
            TaskStatus::CORRECT => 1,
            TaskStatus::WRONG => 2,
        }
    }

    /// The status a stored integer denotes; `None` for an integer
    /// outside the three codes.
    pub fn from_int(val: i32) -> (r: Option<TaskStatus>)
        ensures
            r == status_of_code(val),
    {
        match val {
            0 => Some(TaskStatus::NEW),
            1 => Some(TaskStatus::CORRECT),
            2 => Some(TaskStatus::WRONG),
            _ => None,
        }
    }
}

/// Encoding a status and decoding the code yields the status again.
pub proof fn lemma_status_round_trip(s: TaskStatus)
    ensures
        status_of_code(status_code(s)) == Some(s),
{
}

/// A stored integer decodes to some status exactly when it is one of
/// the three codes 0 through 2.
pub proof fn lemma_status_code_range(val: i32)
    ensures
        (status_of_code(val) is Some) <==> (0 <= val <= 2),
{
}

/// Errors of the persistence layer.
#[derive(Clone, Copy, Debug, PartialEq, Eq, Structural)]
pub enum DBError {
    /// The engine refused the statement. The verified store raises it
    /// for an integrity violation: a duplicate external chat identity,
    /// a task for an unknown user, or an exhausted id counter.
    Storage,
    /// Schema setup failed. The verified store never raises it; the
    /// storage edge maps a failed migration to it, fatal at startup.
    Migration,
    /// No row matches the given key.
    NotFound,
    /// A stored integer maps to no known enum variant: the row is
    /// corrupt, surfaced as a recoverable error instead of a panic.
    InvalidColumnValue,
}

/// One stored user row: `users(id, chat_id, name)`. The chat identity
/// is the external contact identifier, unique across users.
#[derive(Debug)]
pub struct UserRow {
    pub id: i64,
    pub chat_id: i64,
    pub name: String,
}

/// One per-operation column group of a settings row: the selection
/// weight, held as the bit pattern of the floating-point weight (the
/// weight itself is only ever consumed outside the verified core), and
/// the operand range for that operation.
#[derive(Clone, Copy, Debug, PartialEq, Eq, Structural)]
pub struct OpSettings {
    pub prob_bits: u64,
    pub n_from: u64,
    pub n_to: u64,
}

/// One stored settings row: exactly one per user, with one column
/// group per operation —
/// `settings(user_id, {plus,minus,mul,div}_{prob,from,to})`.
#[derive(Clone, Copy, Debug, PartialEq, Eq, Structural)]
pub struct SettingsRow {
    pub user_id: i64,
    pub plus: OpSettings,
    pub minus: OpSettings,
    pub mul: OpSettings,
    pub div: OpSettings,
}

/// One stored task row:
/// `tasks(id, user_id, n_left, n_right, operation, status)`, the
/// operation and status held as their integer codes.
#[derive(Clone, Copy, Debug, PartialEq, Eq, Structural)]
pub struct StoredTask {
    pub id: i64,
    pub user_id: i64,
    pub n_left: u64,
    pub n_right: u64,
    pub operation: i32,
    pub status: i32,
}

/// Per-user, per-operation configuration as handed to callers: the
/// selection weight (as its bit pattern) and the operand range.
#[derive(Clone, Copy, Debug, PartialEq, Eq, Structural)]
pub struct UserSettings {
    pub operation: Operation,
    pub prob_bits: u64,
    pub n_from: u64,
    pub n_to: u64,
}

/// One user with the four settings entries attached.
#[derive(Debug)]
pub struct User {
    pub id: i64,
    pub chat_id: i64,
    pub name: String,
    pub settings: Vec<UserSettings>,
}

/// One task row decoded back into its enums.
#[derive(Clone, Copy, Debug, PartialEq, Eq, Structural)]
pub struct TaskRow {
    pub id: i64,
    pub task: Task,
    pub status: TaskStatus,
}

/// The bit pattern of the floating-point weight one, the default
/// selection weight of a fresh settings row.
pub const DEFAULT_PROB_BITS: u64 = 0x3FF0000000000000;

/// Default lower operand bound of a fresh settings row.
pub const DEFAULT_RANGE_FROM: u64 = 1;

/// Default exclusive upper operand bound of a fresh settings row.
pub const DEFAULT_RANGE_TO: u64 = 10;

/// The settings row a newly created user starts with: the default
/// weight and range for every operation.
pub open spec fn spec_default_settings(user_id: i64) -> SettingsRow {
    SettingsRow {
        user_id,
        plus: OpSettings {
            prob_bits: DEFAULT_PROB_BITS,
            n_from: DEFAULT_RANGE_FROM,
            n_to: DEFAULT_RANGE_TO,
        },
        minus: OpSettings {
            prob_bits: DEFAULT_PROB_BITS,
            n_from: DEFAULT_RANGE_FROM,
            n_to: DEFAULT_RANGE_TO,
        },
        mul: OpSettings {
            prob_bits: DEFAULT_PROB_BITS,
            n_from: DEFAULT_RANGE_FROM,
            n_to: DEFAULT_RANGE_TO,
        },
        div: OpSettings {
            prob_bits: DEFAULT_PROB_BITS,
            n_from: DEFAULT_RANGE_FROM,
            n_to: DEFAULT_RANGE_TO,
        },
    }
}

/// How a stored user row and its settings row are assembled into the
/// `User` value handed to callers: the four entries stand in the fixed
/// order PLUS, MINUS, MULTIPLY, DIVIDE.
pub open spec fn user_matches(u: UserRow, s: SettingsRow, out: User) -> bool {
    &&& out.id == u.id
    &&& out.chat_id == u.chat_id
    &&& out.name@ == u.name@
    &&& out.settings@.len() == 4
    &&& out.settings@[0] == (UserSettings {
        operation: Operation::PLUS,
        prob_bits: s.plus.prob_bits,
        n_from: s.plus.n_from,
        n_to: s.plus.n_to,
    })
    &&& out.settings@[1] == (UserSettings {
        operation: Operation::MINUS,
        prob_bits: s.minus.prob_bits,
        n_from: s.minus.n_from,
        n_to: s.minus.n_to,
    })
    &&& out.settings@[2] == (UserSettings {
        operation: Operation::MULTIPLY,
        prob_bits: s.mul.prob_bits,
        n_from: s.mul.n_from,
        n_to: s.mul.n_to,
    })
    &&& out.settings@[3] == (UserSettings {
        operation: Operation::DIVIDE,
        prob_bits: s.div.prob_bits,
        n_from: s.div.n_from,
        n_to: s.div.n_to,
    })
}

/// Every user value the store assembles carries exactly four settings
/// entries, one per operation: in the fixed order, with no duplicate
/// and no gap.
pub proof fn lemma_user_settings_complete(u: UserRow, s: SettingsRow, out: User)
    requires
        user_matches(u, s, out),
    ensures
        out.settings@.len() == 4,
        out.settings@[0].operation == Operation::PLUS,
        out.settings@[1].operation == Operation::MINUS,
        out.settings@[2].operation == Operation::MULTIPLY,
        out.settings@[3].operation == Operation::DIVIDE,
        forall|i: int, j: int|
            0 <= i < j < 4 ==> out.settings@[i].operation != out.settings@[j].operation,
{
}

/// One settings entry applied to a stored settings row: the column
/// group of the entry's operation is overwritten with the entry's
/// weight and range; the other three groups keep their values.
pub open spec fn apply_setting(row: SettingsRow, e: UserSettings) -> SettingsRow {
    let g = OpSettings { prob_bits: e.prob_bits, n_from: e.n_from, n_to: e.n_to };
    match e.operation {
        Operation::PLUS => SettingsRow {
            user_id: row.user_id,
            plus: g,
            minus: row.minus,
            mul: row.mul,
            div: row.div,
        },
        Operation::MINUS => SettingsRow {
            user_id: row.user_id,
            plus: row.plus,
            minus: g,
            mul: row.mul,
            div: row.div,
        },
        Operation::MULTIPLY => SettingsRow {
            user_id: row.user_id,
            plus: row.plus,
            minus: row.minus,
            mul: g,
            div: row.div,
        },
        Operation::DIVIDE => SettingsRow {
            user_id: row.user_id,
            plus: row.plus,
            minus: row.minus,
            mul: row.mul,
            div: g,
        },
    }
}

/// The settings entries of an update applied to a stored row in order;
/// a later entry for the same operation overrides an earlier one.
pub open spec fn apply_settings(row: SettingsRow, entries: Seq<UserSettings>) -> SettingsRow
    decreases entries.len(),
{
    if entries.len() == 0 {
        row
    } else {
        apply_setting(apply_settings(row, entries.drop_last()), entries.last())
    }
}

/// Whether a stored task row belongs to the user and passes the
/// optional status filter; the filter compares the stored code.
pub open spec fn task_selected(t: StoredTask, user_id: i64, filter: Option<TaskStatus>) -> bool {
    t.user_id == user_id && match filter {
        Some(s) => t.status == status_code(s),
        None => true,
    }
}

/// The stored task rows selected for a user and filter, in stored order.
pub open spec fn select_tasks(
    ts: Seq<StoredTask>,
    user_id: i64,
    filter: Option<TaskStatus>,
) -> Seq<StoredTask>
    decreases ts.len(),
{
    if ts.len() == 0 {
        Seq::empty()
    } else {
        let init = select_tasks(ts.drop_last(), user_id, filter);
        if task_selected(ts.last(), user_id, filter) {
            init.push(ts.last())
        } else {
            init
        }
    }
}

/// Whether a stored row's operation and status codes both decode to
/// known variants.
pub open spec fn task_decodes(t: StoredTask) -> bool {
    op_of_code(t.operation) is Some && status_of_code(t.status) is Some
}

/// The decoded form of a stored task row.
pub open spec fn decode_task(t: StoredTask) -> TaskRow {
    TaskRow {
        id: t.id,
        task: Task {
            num_left: t.n_left,
            num_right: t.n_right,
            operation: op_of_code(t.operation).unwrap(),
        },
        status: status_of_code(t.status).unwrap(),
    }
}

/// Applying settings entries to a stored row never touches the row's
/// owner.
proof fn lemma_apply_settings_user_id(row: SettingsRow, entries: Seq<UserSettings>)
    ensures
        apply_settings(row, entries).user_id == row.user_id,
    decreases entries.len(),
{
    if entries.len() > 0 {
        lemma_apply_settings_user_id(row, entries.drop_last());
    }
}

/// Whether some user row carries this user id.
pub open spec fn user_id_exists(users: Seq<UserRow>, id: i64) -> bool {
    exists|i: int| 0 <= i < users.len() && users[i].id == id
}

/// How the selection grows from one prefix of the task table to the
/// next: the row at `k` is appended exactly when it is selected.
proof fn lemma_select_take_step(
    ts: Seq<StoredTask>,
    user_id: i64,
    filter: Option<TaskStatus>,
    k: int,
)
    requires
        0 <= k < ts.len(),
    ensures
        select_tasks(ts.take(k + 1), user_id, filter) == if task_selected(ts[k], user_id, filter) {
            select_tasks(ts.take(k), user_id, filter).push(ts[k])
        } else {
            select_tasks(ts.take(k), user_id, filter)
        },
{
    assert(ts.take(k + 1).drop_last() =~= ts.take(k));
    assert(ts.take(k + 1).last() == ts[k]);
}

/// A selected row of the task table occurs in the selection.
proof fn lemma_selected_in_select(
    ts: Seq<StoredTask>,
    user_id: i64,
    filter: Option<TaskStatus>,
    k: int,
)
    requires
        0 <= k < ts.len(),
        task_selected(ts[k], user_id, filter),
    ensures
        ({
            let sel = select_tasks(ts, user_id, filter);
            exists|j: int| 0 <= j < sel.len() && sel[j] == ts[k]
        }),
    decreases ts.len(),
{
    let sel = select_tasks(ts, user_id, filter);
    if k == ts.len() - 1 {
        assert(sel[sel.len() - 1] == ts[k]);
    } else {
        lemma_selected_in_select(ts.drop_last(), user_id, filter, k);
        let init = select_tasks(ts.drop_last(), user_id, filter);
        let j = choose|j: int| 0 <= j < init.len() && init[j] == ts.drop_last()[k];
        assert(sel[j] == ts[k]);
    }
}

/// Storing one task for a user lengthens that user's unfiltered task
/// list by exactly one, and the appended row decodes back to the very
/// exercise that was stored, graded NEW.
pub proof fn lemma_added_task_listed(ts: Seq<StoredTask>, user_id: i64, id: i64, t: Task)
    ensures
        ({
            let st = StoredTask {
                id,
                user_id,
                n_left: t.num_left,
                n_right: t.num_right,
                operation: op_code(t.operation),
                status: status_code(TaskStatus::NEW),
            };
            let before = select_tasks(ts, user_id, None);
            let after = select_tasks(ts.push(st), user_id, None);
            &&& after.len() == before.len() + 1
            &&& after =~= before.push(st)
            &&& task_decodes(st)
            &&& decode_task(st) == (TaskRow { id, task: t, status: TaskStatus::NEW })
        }),
{
    let st = StoredTask {
        id,
        user_id,
        n_left: t.num_left,
        n_right: t.num_right,
        operation: op_code(t.operation),
        status: status_code(TaskStatus::NEW),
    };
    assert(ts.push(st).drop_last() =~= ts);
    assert(ts.push(st).last() == st);
    lemma_operation_round_trip(t.operation);
    lemma_status_round_trip(TaskStatus::NEW);
}

/// The relational integrity of the three tables: ids are positive,
/// unique and below the respective counter; the external chat identity
/// is unique; each user owns exactly one settings row, kept aligned by
/// index; and every task points at an existing user.
pub open spec fn store_wf(
    users: Seq<UserRow>,
    settings: Seq<SettingsRow>,
    tasks: Seq<StoredTask>,
    next_user_id: i64,
    next_task_id: i64,
) -> bool {
    &&& 1 <= next_user_id
    &&& 1 <= next_task_id
    &&& settings.len() == users.len()
    &&& forall|i: int|
        0 <= i < users.len() ==> (#[trigger] settings[i]).user_id == users[i].id
    &&& forall|i: int| 0 <= i < users.len() ==> 0 < (#[trigger] users[i]).id < next_user_id
    &&& forall|i: int, j: int| 0 <= i < j < users.len() ==> users[i].id != users[j].id
    &&& forall|i: int, j: int| 0 <= i < j < users.len() ==> users[i].chat_id != users[j].chat_id
    &&& forall|i: int| 0 <= i < tasks.len() ==> 0 < (#[trigger] tasks[i]).id < next_task_id
    &&& forall|i: int, j: int| 0 <= i < j < tasks.len() ==> tasks[i].id != tasks[j].id
    &&& forall|i: int|
        0 <= i < tasks.len() ==> user_id_exists(users, (#[trigger] tasks[i]).user_id)
}

/// The reading loop's intermediate state: `out` holds the decoded form
/// of exactly the rows selected from the first `k` of the task table.
spec fn tasks_prefix_decoded(
    ts: Seq<StoredTask>,
    user_id: i64,
    filter: Option<TaskStatus>,
    k: int,
    out: Seq<TaskRow>,
) -> bool {
    let selk = select_tasks(ts.take(k), user_id, filter);
    &&& out.len() == selk.len()
    &&& forall|i: int|
        0 <= i < selk.len() ==> task_decodes(#[trigger] selk[i]) && out[i] == decode_task(selk[i])
}

/// The embedded relational store. It keeps the three tables in memory
/// in the shape of the persisted schema; every operation states exactly
/// how it reads or rewrites them.
pub struct DB {
    migrated: bool,
    users: Vec<UserRow>,
    settings: Vec<SettingsRow>,
    tasks: Vec<StoredTask>,
    next_user_id: i64,
    next_task_id: i64,
}

impl DB {
    /// The user table, in insertion order.
    pub closed spec fn spec_users(&self) -> Seq<UserRow> {
        self.users@
    }

    /// The settings table, aligned with the user table: the row at
    /// index `i` belongs to the user at index `i`.
    pub closed spec fn spec_settings(&self) -> Seq<SettingsRow> {
        self.settings@
    }

    /// The task table, in insertion order.
    pub closed spec fn spec_tasks(&self) -> Seq<StoredTask> {
        self.tasks@
    }

    /// Whether the schema has been applied.
    pub closed spec fn spec_migrated(&self) -> bool {
        self.migrated
    }

    /// The id the next created user will get.
    pub closed spec fn spec_next_user_id(&self) -> i64 {
        self.next_user_id
    }

    /// The id the next stored task will get.
    pub closed spec fn spec_next_task_id(&self) -> i64 {
        self.next_task_id
    }

    /// The relational integrity of the store: ids are positive, unique
    /// and below the respective counter; the external chat identity is
    /// unique; each user owns exactly one settings row, kept aligned by
    /// index; and every task points at an existing user.
    pub open spec fn wf(&self) -> bool {
        store_wf(
            self.spec_users(),
            self.spec_settings(),
            self.spec_tasks(),
            self.spec_next_user_id(),
            self.spec_next_task_id(),
        )
    }

    /// Opens a fresh, empty store; the schema is not yet applied.
    pub fn new() -> (r: DB)
        ensures
            r.wf(),
            !r.spec_migrated(),
            r.spec_users() =~= Seq::<UserRow>::empty(),
            r.spec_settings() =~= Seq::<SettingsRow>::empty(),
            r.spec_tasks() =~= Seq::<StoredTask>::empty(),
            r.spec_next_user_id() == 1,
            r.spec_next_task_id() == 1,
    {
        DB {
            migrated: false,
            users: Vec::new(),
            settings: Vec::new(),
            tasks: Vec::new(),
            next_user_id: 1,
            next_task_id: 1,
        }
    }

    /// Applies the schema. Idempotent: on any store, migrated before or
    /// not, it succeeds and leaves every row and counter unchanged.
    pub fn migrate(&mut self) -> (r: Result<(), DBError>)
        requires
            old(self).wf(),
        ensures
            r is Ok,
            final(self).wf(),
            final(self).spec_migrated(),
            final(self).spec_users() == old(self).spec_users(),
            final(self).spec_settings() == old(self).spec_settings(),
            final(self).spec_tasks() == old(self).spec_tasks(),
            final(self).spec_next_user_id() == old(self).spec_next_user_id(),
            final(self).spec_next_task_id() == old(self).spec_next_task_id(),
    {
        self.migrated = true;
        Ok(())
    }

    /// Returns every user with its four settings entries attached, in
    /// insertion order of the user table. Callers must not rely on that
    /// order; the engine behind the mirrored SQL query promises none.
    pub fn get_users(&self) -> (r: Result<Vec<User>, DBError>)
        requires
            self.wf(),
            self.spec_migrated(),
        ensures
            r is Ok,
            r.unwrap()@.len() == self.spec_users().len(),
            forall|i: int|
                0 <= i < self.spec_users().len() ==> user_matches(
                    self.spec_users()[i],
                    self.spec_settings()[i],
                    #[trigger] r.unwrap()@[i],
                ),
    {
        let mut out: Vec<User> = Vec::new();
        let n = self.users.len();
        for k in 0..n
            invariant
                n == self.spec_users().len(),
                self.wf(),
                out@.len() == k,
                forall|i: int|
                    0 <= i < k ==> user_matches(
                        self.spec_users()[i],
                        self.spec_settings()[i],
                        #[trigger] out@[i],
                    ),
        {
            let u = &self.users[k];
            let s = &self.settings[k];
            let mut entries: Vec<UserSettings> = Vec::new();
            entries.push(UserSettings {
                operation: Operation::PLUS,
                prob_bits: s.plus.prob_bits,
                n_from: s.plus.n_from,
                n_to: s.plus.n_to,
            });
            entries.push(UserSettings {
                operation: Operation::MINUS,
                prob_bits: s.minus.prob_bits,
                n_from: s.minus.n_from,
                n_to: s.minus.n_to,
            });
            entries.push(UserSettings {
                operation: Operation::MULTIPLY,
                prob_bits: s.mul.prob_bits,
                n_from: s.mul.n_from,
                n_to: s.mul.n_to,
            });
            entries.push(UserSettings {
                operation: Operation::DIVIDE,
                prob_bits: s.div.prob_bits,
                n_from: s.div.n_from,
                n_to: s.div.n_to,
            });
            out.push(User { id: u.id, chat_id: u.chat_id, name: u.name.clone(), settings: entries });
        }
        Ok(out)
    }

    /// Looks a user up by its external chat identity. Exactly one row
    /// can match, the chat identity being unique; with no match the
    /// lookup fails with `NotFound`.
    pub fn get_user_by_chat(&self, chat_id: i64) -> (r: Result<i64, DBError>)
        requires
            self.wf(),
            self.spec_migrated(),
        ensures
            match r {
                Ok(uid) => exists|i: int|
                    0 <= i < self.spec_users().len() && (#[trigger] self.spec_users()[i]).chat_id
                        == chat_id && self.spec_users()[i].id == uid,
                Err(e) => e == DBError::NotFound && forall|i: int|
                    0 <= i < self.spec_users().len() ==> (#[trigger] self.spec_users()[i]).chat_id
                        != chat_id,
            },
    {
        let n = self.users.len();
        for k in 0..n
            invariant
                n == self.spec_users().len(),
                forall|i: int|
                    0 <= i < k ==> (#[trigger] self.spec_users()[i]).chat_id != chat_id,
        {
            if self.users[k].chat_id == chat_id {
                return Ok(self.users[k].id);
            }
        }
        Err(DBError::NotFound)
    }

    /// Creates a user for an external chat identity: the user row, with
    /// an empty name, and its single settings row carrying the default
    /// weight and range for every operation, as one atomic unit. Fails,
    /// leaving the store unchanged, when the chat identity is already
    /// taken or the id counter is exhausted.
    pub fn new_user(&mut self, chat_id: i64) -> (r: Result<i64, DBError>)
        requires
            old(self).wf(),
            old(self).spec_migrated(),
        ensures
            final(self).wf(),
            final(self).spec_migrated(),
            final(self).spec_tasks() == old(self).spec_tasks(),
            final(self).spec_next_task_id() == old(self).spec_next_task_id(),
            r is Ok <==> (forall|i: int|
                0 <= i < old(self).spec_users().len()
                    ==> (#[trigger] old(self).spec_users()[i]).chat_id != chat_id)
                && old(self).spec_next_user_id() < i64::MAX,
            match r {
                Ok(uid) => {
                    &&& uid == old(self).spec_next_user_id()
                    &&& final(self).spec_users().len() == old(self).spec_users().len() + 1
                    &&& final(self).spec_users().drop_last() =~= old(self).spec_users()
                    &&& final(self).spec_users().last().id == uid
                    &&& final(self).spec_users().last().chat_id == chat_id
                    &&& final(self).spec_users().last().name@ =~= Seq::<char>::empty()
                    &&& final(self).spec_settings() =~= old(self).spec_settings().push(
                        spec_default_settings(uid),
                    )
                    &&& final(self).spec_next_user_id() == uid + 1
                }
                Err(e) => {
                    &&& e == DBError::Storage
                    &&& final(self).spec_users() == old(self).spec_users()
                    &&& final(self).spec_settings() == old(self).spec_settings()
                    &&& final(self).spec_next_user_id() == old(self).spec_next_user_id()
                }
            },
    {
        if self.get_user_by_chat(chat_id).is_ok() {
            return Err(DBError::Storage);
        }
        if self.next_user_id == i64::MAX {
            return Err(DBError::Storage);
        }
        let uid = self.next_user_id;
        self.users.push(UserRow { id: uid, chat_id, name: String::new() });
        self.settings.push(SettingsRow {
            user_id: uid,
            plus: OpSettings {
                prob_bits: DEFAULT_PROB_BITS,
                n_from: DEFAULT_RANGE_FROM,
                n_to: DEFAULT_RANGE_TO,
            },
            minus: OpSettings {
                prob_bits: DEFAULT_PROB_BITS,
                n_from: DEFAULT_RANGE_FROM,
                n_to: DEFAULT_RANGE_TO,
            },
            mul: OpSettings {
                prob_bits: DEFAULT_PROB_BITS,
                n_from: DEFAULT_RANGE_FROM,
                n_to: DEFAULT_RANGE_TO,
            },
            div: OpSettings {
                prob_bits: DEFAULT_PROB_BITS,
                n_from: DEFAULT_RANGE_FROM,
                n_to: DEFAULT_RANGE_TO,
            },
        });
        self.next_user_id = uid + 1;
        proof {
            let u0 = old(self).spec_users();
            let s0 = old(self).spec_settings();
            let u1 = self.spec_users();
            let s1 = self.spec_settings();
            let t = self.spec_tasks();
            let n = u0.len() as int;
            assert(u1.drop_last() =~= u0);
            assert forall|i: int| 0 <= i < n + 1 implies (#[trigger] s1[i]).user_id
                == u1[i].id by {
                if i < n {
                    assert(s1[i] == s0[i]);
                    assert(u1[i] == u0[i]);
                }
            }
            assert forall|i: int| 0 <= i < n + 1 implies 0 < (#[trigger] u1[i]).id
                < self.spec_next_user_id() by {
                if i < n {
                    assert(u1[i] == u0[i]);
                }
            }
            assert forall|i: int, j: int| 0 <= i < j < n + 1 implies u1[i].id != u1[j].id by {
                assert(u1[i] == u0[i]);
                if j < n {
                    assert(u1[j] == u0[j]);
                }
            }
            assert forall|i: int, j: int|
                0 <= i < j < n + 1 implies u1[i].chat_id != u1[j].chat_id by {
                assert(u1[i] == u0[i]);
                if j < n {
                    assert(u1[j] == u0[j]);
                }
            }
            assert forall|i: int|
                0 <= i < t.len() implies user_id_exists(u1, (#[trigger] t[i]).user_id) by {
                let w = choose|j: int| 0 <= j < u0.len() && u0[j].id == t[i].user_id;
                assert(u1[w] == u0[w]);
            }
            assert(self.wf());
        }
        Ok(uid)
    }

    /// The index of the user row carrying this id, if any.
    fn find_user_index(&self, id: i64) -> (r: Option<usize>)
        ensures
            match r {
                Some(i) => i < self.spec_users().len() && self.spec_users()[i as int].id == id,
                None => forall|j: int|
                    0 <= j < self.spec_users().len() ==> (#[trigger] self.spec_users()[j]).id
                        != id,
            },
    {
        let n = self.users.len();
        for k in 0..n
            invariant
                n == self.spec_users().len(),
                forall|j: int| 0 <= j < k ==> (#[trigger] self.spec_users()[j]).id != id,
        {
            if self.users[k].id == id {
                return Some(k);
            }
        }
        None
    }

    /// Overwrites the user's name and, for each settings entry
    /// supplied, the matching operation's column group of the user's
    /// settings row, a later entry for the same operation overriding an
    /// earlier one; every other row is untouched. A user id that
    /// matches no row leaves the store unchanged, still succeeding, as
    /// an UPDATE that affects no row does.
    pub fn update_user(&mut self, user: &User) -> (r: Result<(), DBError>)
        requires
            old(self).wf(),
            old(self).spec_migrated(),
        ensures
            r is Ok,
            final(self).wf(),
            final(self).spec_migrated(),
            final(self).spec_tasks() == old(self).spec_tasks(),
            final(self).spec_next_user_id() == old(self).spec_next_user_id(),
            final(self).spec_next_task_id() == old(self).spec_next_task_id(),
            final(self).spec_users().len() == old(self).spec_users().len(),
            final(self).spec_settings().len() == old(self).spec_settings().len(),
            forall|i: int|
                0 <= i < old(self).spec_users().len() ==> if (
                #[trigger] old(self).spec_users()[i]).id == user.id {
                    &&& final(self).spec_users()[i].id == old(self).spec_users()[i].id
                    &&& final(self).spec_users()[i].chat_id == old(self).spec_users()[i].chat_id
                    &&& final(self).spec_users()[i].name@ == user.name@
                    &&& final(self).spec_settings()[i] == apply_settings(
                        old(self).spec_settings()[i],
                        user.settings@,
                    )
                } else {
                    &&& final(self).spec_users()[i] == old(self).spec_users()[i]
                    &&& final(self).spec_settings()[i] == old(self).spec_settings()[i]
                },
    {
        let idx_opt = self.find_user_index(user.id);
        match idx_opt {
            None => Ok(()),
            Some(idx) => {
                let row = &self.users[idx];
                let new_row = UserRow { id: row.id, chat_id: row.chat_id, name: user.name.clone() };
                let ghost srow0 = self.spec_settings()[idx as int];
                let mut srow = self.settings[idx];
                let m = user.settings.len();
                for k in 0..m
                    invariant
                        m == user.settings@.len(),
                        srow == apply_settings(srow0, user.settings@.take(k as int)),
                {
                    let e = &user.settings[k];
                    let g = OpSettings { prob_bits: e.prob_bits, n_from: e.n_from, n_to: e.n_to };
                    srow = match e.operation {
                        Operation::PLUS => SettingsRow {
                            user_id: srow.user_id,
                            plus: g,
                            minus: srow.minus,
                            mul: srow.mul,
                            div: srow.div,
                        },
                        Operation::MINUS => SettingsRow {
                            user_id: srow.user_id,
                            plus: srow.plus,
                            minus: g,
                            mul: srow.mul,
                            div: srow.div,
                        },
                        Operation::MULTIPLY => SettingsRow {
                            user_id: srow.user_id,
                            plus: srow.plus,
                            minus: srow.minus,
                            mul: g,
                            div: srow.div,
                        },
                        Operation::DIVIDE => SettingsRow {
                            user_id: srow.user_id,
                            plus: srow.plus,
                            minus: srow.minus,
                            mul: srow.mul,
                            div: g,
                        },
                    };
                    proof {
                        assert(user.settings@.take(k as int + 1).drop_last() =~= user.settings@.take(
                            k as int,
                        ));
                        assert(user.settings@.take(k as int + 1).last() == user.settings@[k as int]);
                    }
                }
                proof {
                    assert(user.settings@.take(m as int) =~= user.settings@);
                }
                self.users.set(idx, new_row);
                self.settings.set(idx, srow);
                proof {
                    let u0 = old(self).spec_users();
                    let s0 = old(self).spec_settings();
                    let u1 = self.spec_users();
                    let s1 = self.spec_settings();
                    let t = self.spec_tasks();
                    lemma_apply_settings_user_id(srow0, user.settings@);
                    assert forall|i: int| 0 <= i < u0.len() && i != idx implies u1[i] == u0[i]
                        && s1[i] == s0[i] by {}
                    assert(u1[idx as int].id == u0[idx as int].id);
                    assert(s1[idx as int].user_id == s0[idx as int].user_id);
                    assert forall|i: int|
                        0 <= i < t.len() implies user_id_exists(u1, (#[trigger] t[i]).user_id) by {
                        let w = choose|j: int| 0 <= j < u0.len() && u0[j].id == t[i].user_id;
                        assert(u1[w].id == u0[w].id);
                    }
                    assert(self.wf());
                }
                Ok(())
            }
        }
    }

    /// Stores one generated exercise for a user with status NEW, under
    /// a fresh task id; nothing else changes, and identical tasks may
    /// coexist. Fails, leaving the store unchanged, when no user row
    /// carries the id or the id counter is exhausted.
    pub fn add_task(&mut self, user_id: i64, task: &Task) -> (r: Result<(), DBError>)
        requires
            old(self).wf(),
            old(self).spec_migrated(),
        ensures
            final(self).wf(),
            final(self).spec_migrated(),
            final(self).spec_users() == old(self).spec_users(),
            final(self).spec_settings() == old(self).spec_settings(),
            final(self).spec_next_user_id() == old(self).spec_next_user_id(),
            r is Ok <==> user_id_exists(old(self).spec_users(), user_id) && old(
                self,
            ).spec_next_task_id() < i64::MAX,
            match r {
                Ok(_) => {
                    &&& final(self).spec_tasks() =~= old(self).spec_tasks().push(
                        StoredTask {
                            id: old(self).spec_next_task_id(),
                            user_id,
                            n_left: task.num_left,
                            n_right: task.num_right,
                            operation: op_code(task.operation),
                            status: status_code(TaskStatus::NEW),
                        },
                    )
                    &&& final(self).spec_next_task_id() == old(self).spec_next_task_id() + 1
                }
                Err(e) => {
                    &&& e == DBError::Storage
                    &&& final(self).spec_tasks() == old(self).spec_tasks()
                    &&& final(self).spec_next_task_id() == old(self).spec_next_task_id()
                }
            },
    {
        let found = self.find_user_index(user_id);
        if found.is_none() {
            return Err(DBError::Storage);
        }
        if self.next_task_id == i64::MAX {
            return Err(DBError::Storage);
        }
        let id = self.next_task_id;
        let st = StoredTask {
            id,
            user_id,
            n_left: task.num_left,
            n_right: task.num_right,
            operation: task.operation.to_int(),
            status: TaskStatus::NEW.to_int(),
        };
        self.tasks.push(st);
        self.next_task_id = id + 1;
        proof {
            let t0 = old(self).spec_tasks();
            let t1 = self.spec_tasks();
            let u = self.spec_users();
            let n = t0.len() as int;
            assert(t1.drop_last() =~= t0);
            assert forall|i: int| 0 <= i < n + 1 implies 0 < (#[trigger] t1[i]).id
                < self.spec_next_task_id() by {
                if i < n {
                    assert(t1[i] == t0[i]);
                }
            }
            assert forall|i: int, j: int| 0 <= i < j < n + 1 implies t1[i].id != t1[j].id by {
                assert(t1[i] == t0[i]);
                if j < n {
                    assert(t1[j] == t0[j]);
                }
            }
            assert forall|i: int|
                0 <= i < n + 1 implies user_id_exists(u, (#[trigger] t1[i]).user_id) by {
                if i < n {
                    assert(t1[i] == t0[i]);
                }
            }
            assert(self.wf());
        }
        Ok(())
    }

    /// Returns the user's task rows in stored order, their operation
    /// and status decoded back into the enums, restricted to one status
    /// when a filter is given. A stored integer outside the known codes
    /// fails the whole read with `InvalidColumnValue`: corrupt data is
    /// surfaced, never silently defaulted.
    pub fn get_tasks(&self, user_id: i64, filter: Option<TaskStatus>) -> (r: Result<
        Vec<TaskRow>,
        DBError,
    >)
        requires
            self.wf(),
            self.spec_migrated(),
        ensures
            ({
                let sel = select_tasks(self.spec_tasks(), user_id, filter);
                match r {
                    Ok(rows) => {
                        &&& forall|i: int| 0 <= i < sel.len() ==> task_decodes(#[trigger] sel[i])
                        &&& rows@.len() == sel.len()
                        &&& forall|i: int|
                            0 <= i < sel.len() ==> rows@[i] == decode_task(#[trigger] sel[i])
                    }
                    Err(e) => {
                        &&& e == DBError::InvalidColumnValue
                        &&& exists|i: int| 0 <= i < sel.len() && !task_decodes(#[trigger] sel[i])
                    }
                }
            }),
    {
        let mut out: Vec<TaskRow> = Vec::new();
        let n = self.tasks.len();
        for k in 0..n
            invariant
                n == self.spec_tasks().len(),
                tasks_prefix_decoded(self.spec_tasks(), user_id, filter, k as int, out@),
        {
            let t = self.tasks[k];
            let matches_filter = match filter {
                None => true,
                Some(s) => t.status == s.to_int(),
            };
            let selected = t.user_id == user_id && matches_filter;
            proof {
                lemma_select_take_step(self.spec_tasks(), user_id, filter, k as int);
            }
            if selected {
                let op = match Operation::from_int(t.operation) {
                    Some(op) => op,
                    None => {
                        proof {
                            lemma_selected_in_select(self.spec_tasks(), user_id, filter, k as int);
                            let sel = select_tasks(self.spec_tasks(), user_id, filter);
                            let j = choose|j: int|
                                0 <= j < sel.len() && sel[j] == self.spec_tasks()[k as int];
                            assert(!task_decodes(sel[j]));
                        }
                        return Err(DBError::InvalidColumnValue);
                    },
                };
                let status = match TaskStatus::from_int(t.status) {
                    Some(s) => s,
                    None => {
                        proof {
                            lemma_selected_in_select(self.spec_tasks(), user_id, filter, k as int);
                            let sel = select_tasks(self.spec_tasks(), user_id, filter);
                            let j = choose|j: int|
                                0 <= j < sel.len() && sel[j] == self.spec_tasks()[k as int];
                            assert(!task_decodes(sel[j]));
                        }
                        return Err(DBError::InvalidColumnValue);
                    },
                };
                let row = TaskRow {
                    id: t.id,
                    task: Task { num_left: t.n_left, num_right: t.n_right, operation: op },
                    status,
                };
                let ghost pre = out@;
                out.push(row);
                proof {
                    let tk = self.spec_tasks()[k as int];
                    let selk = select_tasks(self.spec_tasks().take(k as int), user_id, filter);
                    let selk1 = select_tasks(
                        self.spec_tasks().take(k as int + 1),
                        user_id,
                        filter,
                    );
                    assert(tk == t);
                    assert(selk1 == selk.push(tk));
                    assert(out@ == pre.push(row));
                    assert(task_decodes(tk));
                    assert(decode_task(tk) == row);
                    assert forall|i: int|
                        0 <= i < selk1.len() implies task_decodes(#[trigger] selk1[i]) && out@[i]
                            == decode_task(selk1[i]) by {
                        if i < selk1.len() - 1 {
                            assert(selk1[i] == selk[i]);
                            assert(out@[i] == pre[i]);
                        } else {
                            assert(selk1[i] == tk);
                            assert(out@[i] == row);
                        }
                    }
                    assert(tasks_prefix_decoded(
                        self.spec_tasks(),
                        user_id,
                        filter,
                        k as int + 1,
                        out@,
                    ));
                }
            } else {
                proof {
                    let selk = select_tasks(self.spec_tasks().take(k as int), user_id, filter);
                    let selk1 = select_tasks(
                        self.spec_tasks().take(k as int + 1),
                        user_id,
                        filter,
                    );
                    assert(selk1 == selk);
                    assert(tasks_prefix_decoded(
                        self.spec_tasks(),
                        user_id,
                        filter,
                        k as int + 1,
                        out@,
                    ));
                }
            }
        }
        proof {
            assert(self.spec_tasks().take(n as int) =~= self.spec_tasks());
        }
        Ok(out)
    }

    /// The index of the task row carrying this id that still awaits a
    /// grade, if any.
    fn find_gradable_task(&self, task_id: i64) -> (r: Option<usize>)
        ensures
            match r {
                Some(i) => i < self.spec_tasks().len() && self.spec_tasks()[i as int].id == task_id
                    && self.spec_tasks()[i as int].status == status_code(TaskStatus::NEW),
                None => forall|i: int|
                    0 <= i < self.spec_tasks().len() ==> !((#[trigger] self.spec_tasks()[i]).id
                        == task_id && self.spec_tasks()[i].status == status_code(TaskStatus::NEW)),
            },
    {
        let new_code = TaskStatus::NEW.to_int();
        let n = self.tasks.len();
        for k in 0..n
            invariant
                n == self.spec_tasks().len(),
                new_code == status_code(TaskStatus::NEW),
                forall|i: int|
                    0 <= i < k ==> !((#[trigger] self.spec_tasks()[i]).id == task_id
                        && self.spec_tasks()[i].status == status_code(TaskStatus::NEW)),
        {
            if self.tasks[k].id == task_id && self.tasks[k].status == new_code {
                return Some(k);
            }
        }
        None
    }

    /// Records the grading of one task: the row moves from NEW to
    /// CORRECT when the answer was right, to WRONG otherwise — the only
    /// transitions the store admits, both terminal. When no row with
    /// this id still awaits a grade (it never existed, or was graded
    /// before), the store is unchanged and the call fails with
    /// `NotFound`.
    pub fn grade_task(&mut self, task_id: i64, correct: bool) -> (r: Result<(), DBError>)
        requires
            old(self).wf(),
            old(self).spec_migrated(),
        ensures
            final(self).wf(),
            final(self).spec_migrated(),
            final(self).spec_users() == old(self).spec_users(),
            final(self).spec_settings() == old(self).spec_settings(),
            final(self).spec_next_user_id() == old(self).spec_next_user_id(),
            final(self).spec_next_task_id() == old(self).spec_next_task_id(),
            match r {
                Ok(_) => exists|i: int|
                    {
                        &&& 0 <= i < old(self).spec_tasks().len()
                        &&& (#[trigger] old(self).spec_tasks()[i]).id == task_id
                        &&& old(self).spec_tasks()[i].status == status_code(TaskStatus::NEW)
                        &&& final(self).spec_tasks() =~= old(self).spec_tasks().update(
                            i,
                            StoredTask {
                                id: old(self).spec_tasks()[i].id,
                                user_id: old(self).spec_tasks()[i].user_id,
                                n_left: old(self).spec_tasks()[i].n_left,
                                n_right: old(self).spec_tasks()[i].n_right,
                                operation: old(self).spec_tasks()[i].operation,
                                status: status_code(
                                    if correct {
                                        TaskStatus::CORRECT
                                    } else {
                                        TaskStatus::WRONG
                                    },
                                ),
                            },
                        )
                    },
                Err(e) => {
                    &&& e == DBError::NotFound
                    &&& final(self).spec_tasks() == old(self).spec_tasks()
                    &&& forall|i: int|
                        0 <= i < old(self).spec_tasks().len() ==> !((#[trigger] old(
                            self,
                        ).spec_tasks()[i]).id == task_id && old(self).spec_tasks()[i].status
                            == status_code(TaskStatus::NEW))
                },
            },
    {
        match self.find_gradable_task(task_id) {
            None => Err(DBError::NotFound),
            Some(i) => {
                let verdict = if correct {
                    TaskStatus::CORRECT
                } else {
                    TaskStatus::WRONG
                };
                let t = self.tasks[i];
                let updated = StoredTask {
                    id: t.id,
                    user_id: t.user_id,
                    n_left: t.n_left,
                    n_right: t.n_right,
                    operation: t.operation,
                    status: verdict.to_int(),
                };
                self.tasks.set(i, updated);
                proof {
                    let t0 = old(self).spec_tasks();
                    let t1 = self.spec_tasks();
                    let u = self.spec_users();
                    assert forall|j: int| 0 <= j < t0.len() implies (#[trigger] t1[j]).id
                        == t0[j].id && t1[j].user_id == t0[j].user_id by {
                        if j != i {
                            assert(t1[j] == t0[j]);
                        }
                    }
                    assert forall|j: int|
                        0 <= j < t1.len() implies user_id_exists(u, (#[trigger] t1[j]).user_id) by {
                        assert(t1[j].user_id == t0[j].user_id);
                    }
                    assert(self.wf());
                }
                Ok(())
            }
        }
    }
}

} // verus!
