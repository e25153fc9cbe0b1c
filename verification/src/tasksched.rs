//! Task Scheduler: tasks with a logon/boot trigger, read through COM
//! `ITaskService`, and switching `Enabled` — a task is NEVER deleted.
//!
//! The COM calls live outside this crate; they hand in what each task
//! reports. Which tasks are startup tasks, how a task path splits into
//! folder and name, and the order of the list are decided here.

use vstd::prelude::*;

use crate::order::{is_stable_order, key_views, stable_order, text_key, text_key_of};
use crate::text::{
    chars_of, is_last_at, lowercase, occurs_from, rfind, slice_chars, string_from,
    to_lowercase, trim_chars, trim_spec,
};

verus! {

/// `TASK_TRIGGER_BOOT`.
pub const TASK_TRIGGER_BOOT: i32 = 8i32;

/// `TASK_TRIGGER_LOGON`.
pub const TASK_TRIGGER_LOGON: i32 = 9i32;

/// How deep below the root folder the task tree is walked.
pub const MAX_FOLDER_DEPTH: u8 = 4u8;

/// A scheduled task that runs at boot or logon.
#[derive(Debug, Clone)]
pub struct StartupTask {
    /// The full path in the task tree (e.g. `\Adobe\Updater`).
    pub path: String,
    pub name: String,
    pub enabled: bool,
    /// The binary it runs (the first action), when it can be found.
    pub command: Option<String>,
}

/// What one registered task reports, as read: `None` where a call
/// failed. `trigger_kinds` lists the types of the triggers that could be
/// read; `command` is the path of the first action when it is an
/// `IExecAction`.
#[derive(Debug, Clone, Default)]
pub struct TaskRow {
    pub path: Option<String>,
    pub name: Option<String>,
    pub enabled: Option<bool>,
    pub trigger_kinds: Vec<i32>,
    pub command: Option<String>,
}

/// `StartupTask` as mathematical values.
pub struct StartupTaskView {
    pub path: Seq<char>,
    pub name: Seq<char>,
    pub enabled: bool,
    pub command: Option<Seq<char>>,
}

impl View for StartupTask {
    type V = StartupTaskView;

    open spec fn view(&self) -> StartupTaskView {
        StartupTaskView {
            path: self.path@,
            name: self.name@,
            enabled: self.enabled,
            command: match self.command {
                Some(c) => Some(c@),
                None => None,
            },
        }
    }
}

/// Whether the folder at `depth` is walked into further.
pub fn descend_into(depth: u8) -> (b: bool)
    ensures
        b == (depth < MAX_FOLDER_DEPTH),
{
    depth < MAX_FOLDER_DEPTH
}

/// A trigger that runs the task at startup: logon or boot.
pub open spec fn is_startup_kind(kind: i32) -> bool {
    kind == TASK_TRIGGER_LOGON || kind == TASK_TRIGGER_BOOT
}

/// The folder and the name of a task path, split at the last `\`: a
/// task directly under the root (or with no `\`) lives in `\`.
pub open spec fn split_path_spec(path: Seq<char>) -> (Seq<char>, Seq<char>) {
    if occurs_from(path, seq!['\\'], 0) {
        let i = choose|i: int| is_last_at(path, seq!['\\'], i);
        if i == 0 {
            (seq!['\\'], path.skip(1))
        } else {
            (path.take(i), path.skip(i + 1))
        }
    } else {
        (seq!['\\'], path)
    }
}

/// Splits a task path into its folder and its name.
pub fn split_task_path(path: &str) -> (r: (String, String))
    ensures
        (r.0@, r.1@) == split_path_spec(path@),
{
    let cs = chars_of(path);
    let sep: Vec<char> = vec!['\\'];
    assert(sep@ =~= seq!['\\']);
    match rfind(&cs, &sep) {
        Some(i) => {
            proof {
                let j = choose|j: int| is_last_at(cs@, sep@, j);
                assert(j == i);
                assert(occurs_from(cs@, sep@, 0));
                assert(cs@.len() == cs.len());
            }
            if i == 0 {
                let rest = slice_chars(&cs, 1, cs.len());
                assert(rest@ =~= cs@.skip(1));
                (string_from(&sep), string_from(&rest))
            } else {
                let folder = slice_chars(&cs, 0, i);
                let name = slice_chars(&cs, i + 1, cs.len());
                assert(folder@ =~= cs@.take(i as int));
                assert(name@ =~= cs@.skip(i + 1));
                (string_from(&folder), string_from(&name))
            }
        },
        None => (string_from(&sep), string_from(&cs)),
    }
}

/// The command of a startup task: the first action's path when it is
/// not empty.
pub open spec fn command_spec(c: Option<Seq<char>>) -> Option<Seq<char>> {
    match c {
        Some(s) => if s.len() == 0 {
            None
        } else {
            Some(s)
        },
        None => None,
    }
}

/// What a task really runs: the path of its first `IExecAction` when it
/// is not blank. Tasks with an `IComHandlerAction` (a CLSID, no path)
/// give `None` — "unknown", not "nothing".
pub open spec fn payload_spec(c: Option<Seq<char>>) -> Option<Seq<char>> {
    match c {
        Some(s) => if trim_spec(s).len() == 0 {
            None
        } else {
            Some(s)
        },
        None => None,
    }
}

pub open spec fn opt_chars(s: Option<String>) -> Option<Seq<char>> {
    match s {
        Some(v) => Some(v@),
        None => None,
    }
}

/// The payload of a task from the path of its first action.
pub fn task_payload(action_path: &Option<String>) -> (r: Option<String>)
    ensures
        opt_chars(r) == payload_spec(opt_chars(*action_path)),
{
    match action_path {
        Some(s) => {
            if trim_chars(&chars_of(s.as_str())).len() == 0 {
                None
            } else {
                Some(string_from(&chars_of(s.as_str())))
            }
        },
        None => None,
    }
}

/// The startup task a row describes: one of its triggers is a logon or
/// boot trigger, and its path and name could be read; a task whose
/// state cannot be read counts as enabled.
pub open spec fn task_spec(r: TaskRow) -> Option<StartupTaskView> {
    let startup = exists|i: int| 0 <= i < r.trigger_kinds@.len() && is_startup_kind(#[trigger] r.trigger_kinds@[i]);
    if !startup || r.path is None || r.name is None {
        None
    } else {
        Some(
            StartupTaskView {
                path: r.path->0@,
                name: r.name->0@,
                enabled: match r.enabled {
                    Some(e) => e,
                    None => true,
                },
                command: command_spec(opt_chars(r.command)),
            },
        )
    }
}

fn has_startup_trigger(kinds: &[i32]) -> (b: bool)
    ensures
        b == exists|i: int| 0 <= i < kinds@.len() && is_startup_kind(#[trigger] kinds@[i]),
{
    let mut i: usize = 0;
    while i < kinds.len()
        invariant
            i <= kinds.len(),
            forall|k: int| 0 <= k < i ==> !is_startup_kind(#[trigger] kinds@[k]),
        decreases kinds.len() - i,
    {
        if kinds[i] == TASK_TRIGGER_LOGON || kinds[i] == TASK_TRIGGER_BOOT {
            assert(is_startup_kind(kinds@[i as int]));
            return true;
        }
        i = i + 1;
    }
    false
}

fn copy_opt(s: &Option<String>) -> (r: Option<String>)
    ensures
        opt_chars(r) == opt_chars(*s),
{
    match s {
        Some(v) => Some(string_from(&chars_of(v.as_str()))),
        None => None,
    }
}

/// The startup task one row describes, if it is one.
pub fn startup_task(r: &TaskRow) -> (t: Option<StartupTask>)
    ensures
        match t {
            Some(v) => task_spec(*r) == Some(v@),
            None => task_spec(*r) is None,
        },
{
    if !has_startup_trigger(r.trigger_kinds.as_slice()) {
        return None;
    }
    let command = match &r.command {
        Some(c) => if c.unicode_len() == 0 {
            None
        } else {
            Some(string_from(&chars_of(c.as_str())))
        },
        None => None,
    };
    let path = match &r.path {
        Some(p) => string_from(&chars_of(p.as_str())),
        None => return None,
    };
    let name = match &r.name {
        Some(n) => string_from(&chars_of(n.as_str())),
        None => return None,
    };
    Some(
        StartupTask {
            path,
            name,
            enabled: match r.enabled {
                Some(e) => e,
                None => true,
            },
            command,
        },
    )
}

/// The startup tasks of the rows, in row order.
pub open spec fn startup_rows(rows: Seq<TaskRow>) -> Seq<StartupTaskView>
    decreases rows.len(),
{
    if rows.len() == 0 {
        Seq::empty()
    } else {
        match task_spec(rows.last()) {
            Some(t) => startup_rows(rows.drop_last()).push(t),
            None => startup_rows(rows.drop_last()),
        }
    }
}

/// The sort keys: the task name in lower case.
pub open spec fn task_keys(s: Seq<StartupTaskView>) -> Seq<Seq<u64>> {
    Seq::new(s.len(), |i: int| text_key(lowercase(s[i].name)))
}

/// The tasks with a logon or boot trigger, sorted by name without
/// regard to case; ties keep the order in which they were found.
pub fn startup_tasks(rows: &[TaskRow]) -> (r: Vec<StartupTask>)
    ensures
        exists|p: Seq<usize>|
            #[trigger] is_stable_order(task_keys(startup_rows(rows@)), p) && r@.len() == p.len()
                && forall|i: int| 0 <= i < p.len() ==> (#[trigger] r@[i])@ == startup_rows(rows@)[p[i] as int],
{
    let mut kept: Vec<StartupTask> = Vec::new();
    let mut i: usize = 0;
    while i < rows.len()
        invariant
            i <= rows.len(),
            kept@.len() == startup_rows(rows@.take(i as int)).len(),
            forall|k: int| 0 <= k < kept@.len() ==> (#[trigger] kept@[k])@ == startup_rows(rows@.take(i as int))[k],
        decreases rows.len() - i,
    {
        proof {
            assert(rows@.take(i as int + 1).drop_last() =~= rows@.take(i as int));
        }
        match startup_task(&rows[i]) {
            Some(t) => kept.push(t),
            None => {},
        }
        i = i + 1;
    }
    assert(rows@.take(rows@.len() as int) =~= rows@);
    let ghost sv = startup_rows(rows@);
    let mut keys: Vec<Vec<u64>> = Vec::new();
    let mut k: usize = 0;
    while k < kept.len()
        invariant
            k <= kept@.len(),
            kept@.len() == sv.len(),
            forall|j: int| 0 <= j < kept@.len() ==> (#[trigger] kept@[j])@ == sv[j],
            keys@.len() == k,
            forall|j: int| 0 <= j < k ==> (#[trigger] keys@[j])@ == task_keys(sv)[j],
        decreases kept@.len() - k,
    {
        let low = to_lowercase(kept[k].name.as_str());
        keys.push(text_key_of(low.as_str()));
        k = k + 1;
    }
    assert(key_views(keys@) =~= task_keys(sv));
    let p = stable_order(keys.as_slice());
    let mut out: Vec<StartupTask> = Vec::new();
    let mut q: usize = 0;
    while q < p.len()
        invariant
            q <= p@.len(),
            is_stable_order(task_keys(sv), p@),
            kept@.len() == sv.len(),
            forall|j: int| 0 <= j < kept@.len() ==> (#[trigger] kept@[j])@ == sv[j],
            out@.len() == q,
            forall|j: int| 0 <= j < q ==> (#[trigger] out@[j])@ == sv[p@[j] as int],
        decreases p@.len() - q,
    {
        let t = &kept[p[q]];
        out.push(
            StartupTask {
                path: string_from(&chars_of(t.path.as_str())),
                name: string_from(&chars_of(t.name.as_str())),
                enabled: t.enabled,
                command: copy_opt(&t.command),
            },
        );
        q = q + 1;
    }
    assert(is_stable_order(task_keys(startup_rows(rows@)), p@));
    out
}

} // verus!
