//! The schedule store: associations of one catalog message, one group and
//! one `HH:MM` time of day, each standing for a recurring daily push.
//! Duplicate (message, group, time) triples are allowed and fire
//! independently; a malformed time is rejected before anything is stored.

use vstd::prelude::*;
use crate::service::group::{Group, GroupInfo};
use crate::service::msg::{spec_type_code, Message, Msg, MsgType};
use crate::timefmt::valid_time;

verus! {

/// One schedule row as handed out by the lookups, joined with the message
/// text and title and the group's external id.
#[derive(Debug)]
pub struct PollingMsg {
    pub id: i64,
    pub hv_msg_id: i64,
    pub group_id: String,
    pub send_time: String,
    pub msg_text: String,
    pub msg_title: String,
    pub msg_type: i32,
}

/// One stored association.
#[derive(Debug)]
pub struct ScheduleRow {
    pub id: i64,
    pub hv_msg_id: i64,
    pub group_db_id: i64,
    pub send_time: String,
}

/// The schedule store itself.
pub struct PollingMsgDb {
    rows: Vec<ScheduleRow>,
    next_id: i64,
}

/// Why an entry could not be added.
#[derive(Clone, Copy, Debug, PartialEq, Eq, Structural)]
pub enum ScheduleError {
    /// The time string is not a well-formed `HH:MM` time of day.
    InvalidTimeFormat,
    /// No id is left to assign to a new entry.
    StoreFailure,
}

/// The entries of `s` not referencing message `msg_id`.
pub open spec fn without_msg_rows(s: Seq<ScheduleRow>, msg_id: int) -> Seq<ScheduleRow>
    decreases s.len(),
{
    if s.len() == 0 {
        Seq::empty()
    } else if s.last().hv_msg_id == msg_id {
        without_msg_rows(s.drop_last(), msg_id)
    } else {
        without_msg_rows(s.drop_last(), msg_id).push(s.last())
    }
}

/// The entries of `s` not belonging to group `group_db_id`.
pub open spec fn without_group_rows(s: Seq<ScheduleRow>, group_db_id: int) -> Seq<ScheduleRow>
    decreases s.len(),
{
    if s.len() == 0 {
        Seq::empty()
    } else if s.last().group_db_id == group_db_id {
        without_group_rows(s.drop_last(), group_db_id)
    } else {
        without_group_rows(s.drop_last(), group_db_id).push(s.last())
    }
}

/// The entries of `s` whose id is not `id`.
pub open spec fn without_entry_id(s: Seq<ScheduleRow>, id: int) -> Seq<ScheduleRow>
    decreases s.len(),
{
    if s.len() == 0 {
        Seq::empty()
    } else if s.last().id == id {
        without_entry_id(s.drop_last(), id)
    } else {
        without_entry_id(s.drop_last(), id).push(s.last())
    }
}

/// The entry references a message and a group that exist.
pub open spec fn resolvable(e: ScheduleRow, ms: Seq<Message>, gs: Seq<GroupInfo>) -> bool {
    &&& exists|i: int| 0 <= i < ms.len() && (#[trigger] ms[i]).id == e.hv_msg_id
    &&& exists|j: int| 0 <= j < gs.len() && (#[trigger] gs[j]).id == e.group_db_id
}

/// The entries of `s` due at time `t` that resolve against the catalog and
/// the registry, in store order. This is exactly what one scheduler tick
/// dispatches.
pub open spec fn due_rows(
    s: Seq<ScheduleRow>,
    t: Seq<char>,
    ms: Seq<Message>,
    gs: Seq<GroupInfo>,
) -> Seq<ScheduleRow>
    decreases s.len(),
{
    if s.len() == 0 {
        Seq::empty()
    } else if s.last().send_time@ == t && resolvable(s.last(), ms, gs) {
        due_rows(s.drop_last(), t, ms, gs).push(s.last())
    } else {
        due_rows(s.drop_last(), t, ms, gs)
    }
}

/// The entries of `s` for group `gid` that resolve, in store order.
pub open spec fn group_rows(
    s: Seq<ScheduleRow>,
    gid: int,
    ms: Seq<Message>,
    gs: Seq<GroupInfo>,
) -> Seq<ScheduleRow>
    decreases s.len(),
{
    if s.len() == 0 {
        Seq::empty()
    } else if s.last().group_db_id == gid && resolvable(s.last(), ms, gs) {
        group_rows(s.drop_last(), gid, ms, gs).push(s.last())
    } else {
        group_rows(s.drop_last(), gid, ms, gs)
    }
}

/// A joined row reports its entry's ids and time together with the text and
/// title of the referenced message and the external id of the referenced
/// group.
pub open spec fn join_row(r: PollingMsg, e: ScheduleRow, ms: Seq<Message>, gs: Seq<GroupInfo>) -> bool {
    &&& r.id == e.id
    &&& r.hv_msg_id == e.hv_msg_id
    &&& r.send_time@ == e.send_time@
    &&& exists|i: int|
        0 <= i < ms.len() && (#[trigger] ms[i]).id == e.hv_msg_id && r.msg_text@ == ms[i].msg_text@
            && r.msg_title@ == ms[i].msg_title@ && r.msg_type == spec_type_code(ms[i].msg_type)
    &&& exists|j: int|
        0 <= j < gs.len() && (#[trigger] gs[j]).id == e.group_db_id && r.group_id@ == gs[j].group_id@
}

/// Creates an empty schedule store.
pub fn new() -> (r: PollingMsgDb)
    ensures
        r.wf(),
        r.entries() == Seq::<ScheduleRow>::empty(),
        r.next() == 1,
{
    PollingMsgDb { rows: Vec::new(), next_id: 1 }
}

impl PollingMsgDb {
    /// The stored entries, in insertion order.
    pub closed spec fn entries(&self) -> Seq<ScheduleRow> {
        self.rows@
    }

    /// The id the next entry will receive.
    pub closed spec fn next(&self) -> int {
        self.next_id as int
    }

    /// Well-formed store: entry ids are unique and below the insertion
    /// counter, and every stored time is well-formed.
    pub open spec fn wf(&self) -> bool {
        &&& 1 <= self.next()
        &&& forall|i: int|
            0 <= i < self.entries().len() ==> 1 <= (#[trigger] self.entries()[i]).id < self.next()
        &&& forall|i: int, j: int|
            0 <= i < j < self.entries().len() ==> (#[trigger] self.entries()[i]).id != (
            #[trigger] self.entries()[j]).id
        &&& forall|i: int|
            0 <= i < self.entries().len() ==> valid_time((#[trigger] self.entries()[i]).send_time@)
    }

    /// A new entry may still receive an id.
    pub open spec fn can_assign(&self) -> bool {
        self.next() < i64::MAX
    }

    /// An entry with this id exists.
    pub open spec fn spec_has_id(&self, id: int) -> bool {
        exists|i: int| 0 <= i < self.entries().len() && (#[trigger] self.entries()[i]).id == id
    }

    /// An entry referencing this message exists.
    pub open spec fn spec_has_msg(&self, msg_id: int) -> bool {
        exists|i: int|
            0 <= i < self.entries().len() && (#[trigger] self.entries()[i]).hv_msg_id == msg_id
    }

    /// An entry belonging to this group exists.
    pub open spec fn spec_has_group(&self, gid: int) -> bool {
        exists|i: int|
            0 <= i < self.entries().len() && (#[trigger] self.entries()[i]).group_db_id == gid
    }

    /// Associates message `msg_id` with group `group_id` at time of day
    /// `send_time`. The time is validated first: nothing is stored and
    /// `InvalidTimeFormat` is reported unless it is a well-formed `HH:MM`.
    pub fn add_polling_msg(&mut self, msg_id: i64, group_id: i64, send_time: &str) -> (r: Result<
        i64,
        ScheduleError,
    >)
        requires
            old(self).wf(),
        ensures
            final(self).wf(),
            r is Ok <==> valid_time(send_time@) && old(self).can_assign(),
            r == Err::<i64, ScheduleError>(ScheduleError::InvalidTimeFormat) <==> !valid_time(
                send_time@,
            ),
            r is Err ==> *final(self) == *old(self),
            r matches Ok(id) ==> {
                &&& id == old(self).next()
                &&& id > 0
                &&& final(self).entries().len() == old(self).entries().len() + 1
                &&& final(self).entries().take(old(self).entries().len() as int) == old(
                    self,
                ).entries()
                &&& final(self).entries().last().id == id
                &&& final(self).entries().last().hv_msg_id == msg_id
                &&& final(self).entries().last().group_db_id == group_id
                &&& final(self).entries().last().send_time@ == send_time@
                &&& final(self).next() == old(self).next() + 1
            },
    {
        if !crate::timefmt::check_time(send_time) {
            return Err(ScheduleError::InvalidTimeFormat);
        }
        if self.next_id == i64::MAX {
            return Err(ScheduleError::StoreFailure);
        }
        let row = ScheduleRow {
            id: self.next_id,
            hv_msg_id: msg_id,
            group_db_id: group_id,
            send_time: send_time.to_owned(),
        };
        let ghost prev = self.rows@;
        let id = self.next_id;
        self.rows.push(row);
        self.next_id = self.next_id + 1;
        proof {
            assert(self.entries().take(prev.len() as int) =~= prev);
            assert(valid_time(self.entries().last().send_time@));
            assert forall|i: int| 0 <= i < old(self).entries().len() implies #[trigger] self.entries()[i]
                == old(self).entries()[i] by {
                assert(self.entries().take(prev.len() as int)[i] == self.entries()[i]);
            }
        }
        Ok(id)
    }

    /// Deletes every entry belonging to this group; reports whether any
    /// entry was removed.
    pub fn delete_group_msgs(&mut self, group_id: i64) -> (r: bool)
        requires
            old(self).wf(),
        ensures
            final(self).wf(),
            final(self).entries() == without_group_rows(old(self).entries(), group_id as int),
            final(self).next() == old(self).next(),
            r == old(self).spec_has_group(group_id as int),
    {
        let n: usize = self.rows.len();
        let mut kept: Vec<ScheduleRow> = Vec::new();
        let mut removed: bool = false;
        proof {
            assert(self.entries().take(0) =~= Seq::<ScheduleRow>::empty());
        }
        let mut i: usize = 0;
        while i < n
            invariant
                i <= n,
                n == self.entries().len(),
                kept@ == without_group_rows(self.entries().take(i as int), group_id as int),
                removed == exists|j: int|
                    0 <= j < i && (#[trigger] self.entries()[j]).group_db_id == group_id,
            decreases n - i,
        {
            proof {
                lemma_without_group_take_step(self.entries(), group_id as int, i as int);
            }
            if self.rows[i].group_db_id == group_id {
                removed = true;
            } else {
                kept.push(clone_row(&self.rows[i]));
            }
            i = i + 1;
        }
        proof {
            assert(self.entries().take(n as int) =~= self.entries());
        }
        self.rows = kept;
        proof {
            lemma_without_group_rows_props(old(self).entries(), group_id as int);
            assert forall|k: int|
                0 <= k < self.entries().len() implies 1 <= (#[trigger] self.entries()[k]).id
                < self.next() && valid_time(self.entries()[k].send_time@) by {
                assert(self.entries()[k] == without_group_rows(old(self).entries(),
                    group_id as int,
                )[k]);
                assert(old(self).entries().contains(self.entries()[k]));
                let x = choose|x: int|
                    0 <= x < old(self).entries().len() && old(self).entries()[x]
                        == self.entries()[k];
            }
            assert forall|i: int, j: int| 0 <= i < j < self.entries().len() implies (
            #[trigger] self.entries()[i]).id != (#[trigger] self.entries()[j]).id by {
                lemma_without_group_rows_distinct(old(self).entries(), group_id as int, i, j);
            }
        }
        removed
    }

    /// Deletes every entry referencing this message (the cascade step of
    /// catalog deletion); reports whether any entry was removed.
    pub fn delete_by_msg_id(&mut self, msg_id: i64) -> (r: bool)
        requires
            old(self).wf(),
        ensures
            final(self).wf(),
            final(self).entries() == without_msg_rows(old(self).entries(), msg_id as int),
            final(self).next() == old(self).next(),
            r == old(self).spec_has_msg(msg_id as int),
            !final(self).spec_has_msg(msg_id as int),
    {
        let n: usize = self.rows.len();
        let mut kept: Vec<ScheduleRow> = Vec::new();
        let mut removed: bool = false;
        proof {
            assert(self.entries().take(0) =~= Seq::<ScheduleRow>::empty());
        }
        let mut i: usize = 0;
        while i < n
            invariant
                i <= n,
                n == self.entries().len(),
                kept@ == without_msg_rows(self.entries().take(i as int), msg_id as int),
                removed == exists|j: int|
                    0 <= j < i && (#[trigger] self.entries()[j]).hv_msg_id == msg_id,
            decreases n - i,
        {
            proof {
                lemma_without_msg_take_step(self.entries(), msg_id as int, i as int);
            }
            if self.rows[i].hv_msg_id == msg_id {
                removed = true;
            } else {
                kept.push(clone_row(&self.rows[i]));
            }
            i = i + 1;
        }
        proof {
            assert(self.entries().take(n as int) =~= self.entries());
        }
        self.rows = kept;
        proof {
            lemma_without_msg_rows_props(old(self).entries(), msg_id as int);
            assert forall|k: int|
                0 <= k < self.entries().len() implies 1 <= (#[trigger] self.entries()[k]).id
                < self.next() && valid_time(self.entries()[k].send_time@) by {
                assert(self.entries()[k] == without_msg_rows(old(self).entries(), msg_id as int)[k]);
                assert(old(self).entries().contains(self.entries()[k]));
                let x = choose|x: int|
                    0 <= x < old(self).entries().len() && old(self).entries()[x]
                        == self.entries()[k];
            }
            assert forall|i: int, j: int| 0 <= i < j < self.entries().len() implies (
            #[trigger] self.entries()[i]).id != (#[trigger] self.entries()[j]).id by {
                lemma_without_msg_rows_distinct(old(self).entries(), msg_id as int, i, j);
            }
            if self.spec_has_msg(msg_id as int) {
                let k = choose|k: int|
                    0 <= k < self.entries().len() && (#[trigger] self.entries()[k]).hv_msg_id
                        == msg_id;
                assert(self.entries()[k] == without_msg_rows(old(self).entries(), msg_id as int)[k]);
                assert(false);
            }
        }
        removed
    }

    /// Deletes the entry with this id; reports whether one existed.
    pub fn delete_polling_msg_by_id(&mut self, id: i64) -> (r: bool)
        requires
            old(self).wf(),
        ensures
            final(self).wf(),
            final(self).entries() == without_entry_id(old(self).entries(), id as int),
            final(self).next() == old(self).next(),
            r == old(self).spec_has_id(id as int),
            !final(self).spec_has_id(id as int),
    {
        let n: usize = self.rows.len();
        let mut kept: Vec<ScheduleRow> = Vec::new();
        let mut removed: bool = false;
        proof {
            assert(self.entries().take(0) =~= Seq::<ScheduleRow>::empty());
        }
        let mut i: usize = 0;
        while i < n
            invariant
                i <= n,
                n == self.entries().len(),
                kept@ == without_entry_id(self.entries().take(i as int), id as int),
                removed == exists|j: int| 0 <= j < i && (#[trigger] self.entries()[j]).id == id,
            decreases n - i,
        {
            proof {
                lemma_without_entry_take_step(self.entries(), id as int, i as int);
            }
            if self.rows[i].id == id {
                removed = true;
            } else {
                kept.push(clone_row(&self.rows[i]));
            }
            i = i + 1;
        }
        proof {
            assert(self.entries().take(n as int) =~= self.entries());
        }
        self.rows = kept;
        proof {
            lemma_without_entry_id_props(old(self).entries(), id as int);
            assert forall|k: int|
                0 <= k < self.entries().len() implies 1 <= (#[trigger] self.entries()[k]).id
                < self.next() && valid_time(self.entries()[k].send_time@) by {
                assert(self.entries()[k] == without_entry_id(old(self).entries(), id as int)[k]);
                assert(old(self).entries().contains(self.entries()[k]));
                let x = choose|x: int|
                    0 <= x < old(self).entries().len() && old(self).entries()[x]
                        == self.entries()[k];
            }
            assert forall|i: int, j: int| 0 <= i < j < self.entries().len() implies (
            #[trigger] self.entries()[i]).id != (#[trigger] self.entries()[j]).id by {
                lemma_without_entry_id_distinct(old(self).entries(), id as int, i, j);
            }
            if self.spec_has_id(id as int) {
                let k = choose|k: int|
                    0 <= k < self.entries().len() && (#[trigger] self.entries()[k]).id == id;
                assert(self.entries()[k] == without_entry_id(old(self).entries(), id as int)[k]);
                assert(false);
            }
        }
        removed
    }

    /// All entries for one group, joined with message text and title and
    /// the group's external id; entries whose message or group no longer
    /// exists are left out, as an inner join would do.
    pub fn get_group_msgs(&self, msgs: &Msg, groups: &Group, group_id: i64) -> (r: Vec<PollingMsg>)
        ensures
            r@.len() == group_rows(self.entries(), group_id as int, msgs.rows(), groups.rows()).len(),
            forall|k: int|
                0 <= k < r@.len() ==> join_row(
                    #[trigger] r@[k],
                    group_rows(self.entries(), group_id as int, msgs.rows(), groups.rows())[k],
                    msgs.rows(),
                    groups.rows(),
                ),
    {
        let ghost ms = msgs.rows();
        let ghost gs = groups.rows();
        let n: usize = self.rows.len();
        let mut out: Vec<PollingMsg> = Vec::new();
        proof {
            assert(self.entries().take(0) =~= Seq::<ScheduleRow>::empty());
        }
        let mut i: usize = 0;
        while i < n
            invariant
                i <= n,
                n == self.entries().len(),
                ms == msgs.rows(),
                gs == groups.rows(),
                out@.len() == group_rows(self.entries().take(i as int), group_id as int, ms, gs).len(),
                forall|k: int|
                    0 <= k < out@.len() ==> join_row(
                        #[trigger] out@[k],
                        group_rows(self.entries().take(i as int), group_id as int, ms, gs)[k],
                        ms,
                        gs,
                    ),
            decreases n - i,
        {
            proof {
                lemma_group_rows_take_step(self.entries(), group_id as int, ms, gs, i as int);
            }
            if self.rows[i].group_db_id == group_id {
                match self.join_one(msgs, groups, i) {
                    Some(p) => {
                        out.push(p);
                    },
                    None => {},
                }
            }
            i = i + 1;
        }
        proof {
            assert(self.entries().take(n as int) =~= self.entries());
        }
        out
    }

    /// The entries due at time `send_time`, joined as in `get_group_msgs`.
    /// This is the scheduler's query: exactly the resolvable entries whose
    /// stored time equals `send_time`, and no others.
    pub fn get_polling_msgs_by_time(&self, msgs: &Msg, groups: &Group, send_time: &str) -> (r: Vec<
        PollingMsg,
    >)
        ensures
            r@.len() == due_rows(self.entries(), send_time@, msgs.rows(), groups.rows()).len(),
            forall|k: int|
                0 <= k < r@.len() ==> join_row(
                    #[trigger] r@[k],
                    due_rows(self.entries(), send_time@, msgs.rows(), groups.rows())[k],
                    msgs.rows(),
                    groups.rows(),
                ),
    {
        let ghost ms = msgs.rows();
        let ghost gs = groups.rows();
        let n: usize = self.rows.len();
        let mut out: Vec<PollingMsg> = Vec::new();
        proof {
            assert(self.entries().take(0) =~= Seq::<ScheduleRow>::empty());
        }
        let mut i: usize = 0;
        while i < n
            invariant
                i <= n,
                n == self.entries().len(),
                ms == msgs.rows(),
                gs == groups.rows(),
                out@.len() == due_rows(self.entries().take(i as int), send_time@, ms, gs).len(),
                forall|k: int|
                    0 <= k < out@.len() ==> join_row(
                        #[trigger] out@[k],
                        due_rows(self.entries().take(i as int), send_time@, ms, gs)[k],
                        ms,
                        gs,
                    ),
            decreases n - i,
        {
            proof {
                lemma_due_rows_take_step(self.entries(), send_time@, ms, gs, i as int);
            }
            if crate::text::str_eq(self.rows[i].send_time.as_str(), send_time) {
                match self.join_one(msgs, groups, i) {
                    Some(p) => {
                        out.push(p);
                    },
                    None => {},
                }
            }
            i = i + 1;
        }
        proof {
            assert(self.entries().take(n as int) =~= self.entries());
        }
        out
    }

    /// Some entry of this group at this time, joined; `None` exactly when
    /// no resolvable entry matches both.
    pub fn get_polling_msg(&self, msgs: &Msg, groups: &Group, group_id: i64, send_time: &str) -> (r:
        Option<PollingMsg>)
        ensures
            match r {
                Some(p) => exists|i: int|
                    {
                        &&& 0 <= i < self.entries().len()
                        &&& (#[trigger] self.entries()[i]).group_db_id == group_id
                        &&& self.entries()[i].send_time@ == send_time@
                        &&& join_row(p, self.entries()[i], msgs.rows(), groups.rows())
                    },
                None => forall|i: int|
                    0 <= i < self.entries().len() ==> !((#[trigger] self.entries()[i]).group_db_id
                        == group_id && self.entries()[i].send_time@ == send_time@ && resolvable(
                        self.entries()[i],
                        msgs.rows(),
                        groups.rows(),
                    )),
            },
    {
        let n: usize = self.rows.len();
        let mut i: usize = 0;
        while i < n
            invariant
                i <= n,
                n == self.entries().len(),
                forall|j: int|
                    0 <= j < i ==> !((#[trigger] self.entries()[j]).group_db_id == group_id
                        && self.entries()[j].send_time@ == send_time@ && resolvable(
                        self.entries()[j],
                        msgs.rows(),
                        groups.rows(),
                    )),
            decreases n - i,
        {
            if self.rows[i].group_db_id == group_id && crate::text::str_eq(
                self.rows[i].send_time.as_str(),
                send_time,
            ) {
                match self.join_one(msgs, groups, i) {
                    Some(p) => {
                        return Some(p);
                    },
                    None => {},
                }
            }
            i = i + 1;
        }
        None
    }

    /// Joins entry `i` with its message and group; `None` exactly when one
    /// of the two references does not resolve.
    fn join_one(&self, msgs: &Msg, groups: &Group, i: usize) -> (r: Option<PollingMsg>)
        requires
            i < self.entries().len(),
        ensures
            match r {
                Some(p) => join_row(p, self.entries()[i as int], msgs.rows(), groups.rows())
                    && resolvable(self.entries()[i as int], msgs.rows(), groups.rows()),
                None => !resolvable(self.entries()[i as int], msgs.rows(), groups.rows()),
            },
    {
        let e = &self.rows[i];
        let mi = match msgs.index_of_id(e.hv_msg_id) {
            Some(mi) => mi,
            None => {
                return None;
            },
        };
        let gi = match groups.index_of_id(e.group_db_id) {
            Some(gi) => gi,
            None => {
                return None;
            },
        };
        let m = msgs.row_at(mi);
        let g = groups.row_at(gi);
        Some(
            PollingMsg {
                id: e.id,
                hv_msg_id: e.hv_msg_id,
                group_id: g.group_id.clone(),
                send_time: e.send_time.clone(),
                msg_text: m.msg_text.clone(),
                msg_title: m.msg_title.clone(),
                msg_type: crate::service::msg::type_code(m.msg_type),
            },
        )
    }
}

/// Copies one stored entry; the copy equals the original.
fn clone_row(e: &ScheduleRow) -> (r: ScheduleRow)
    ensures
        r == *e,
{
    ScheduleRow {
        id: e.id,
        hv_msg_id: e.hv_msg_id,
        group_db_id: e.group_db_id,
        send_time: e.send_time.clone(),
    }
}

/// Law: a newly stored entry is selected by the exact-match lookup at its
/// own time — appended to what was already due there — and the selection
/// at every other time is unchanged by it.
pub proof fn lemma_entry_round_trip(
    pre: Seq<ScheduleRow>,
    e: ScheduleRow,
    t: Seq<char>,
    t2: Seq<char>,
    ms: Seq<Message>,
    gs: Seq<GroupInfo>,
)
    requires
        e.send_time@ == t,
        resolvable(e, ms, gs),
    ensures
        due_rows(pre.push(e), t, ms, gs) == due_rows(pre, t, ms, gs).push(e),
        t2 != t ==> due_rows(pre.push(e), t2, ms, gs) == due_rows(pre, t2, ms, gs),
{
    assert(pre.push(e).drop_last() =~= pre);
    assert(pre.push(e).last() == e);
}

/// Law: once the cascade of a message deletion has run, no group's push
/// list carries the deleted message — a store with no entry for the
/// message selects none of it for any group.
pub proof fn lemma_cascade_clears_group_lists(
    s: Seq<ScheduleRow>,
    msg_id: int,
    gid: int,
    ms: Seq<Message>,
    gs: Seq<GroupInfo>,
)
    requires
        forall|i: int| 0 <= i < s.len() ==> (#[trigger] s[i]).hv_msg_id != msg_id,
    ensures
        forall|k: int|
            0 <= k < group_rows(s, gid, ms, gs).len() ==> (#[trigger] group_rows(s, gid, ms, gs)[k]).hv_msg_id
                != msg_id,
    decreases s.len(),
{
    if s.len() > 0 {
        let rest = s.drop_last();
        let sub = group_rows(rest, gid, ms, gs);
        let out = group_rows(s, gid, ms, gs);
        assert forall|i: int|
            0 <= i < rest.len() implies (#[trigger] rest[i]).hv_msg_id != msg_id by {
            assert(rest[i] == s[i]);
        }
        lemma_cascade_clears_group_lists(rest, msg_id, gid, ms, gs);
        assert forall|k: int|
            0 <= k < out.len() implies (#[trigger] out[k]).hv_msg_id != msg_id by {
            if k < sub.len() {
                assert(out[k] == sub[k]);
            } else {
                assert(out[k] == s[s.len() - 1]);
            }
        }
    }
}

/// Every entry message-removal keeps is drawn from the original sequence,
/// and none of them references the removed message.
proof fn lemma_without_msg_rows_props(s: Seq<ScheduleRow>, msg_id: int)
    ensures
        forall|k: int|
            0 <= k < without_msg_rows(s, msg_id).len() ==> s.contains(
                #[trigger] without_msg_rows(s, msg_id)[k],
            ),
        forall|k: int|
            0 <= k < without_msg_rows(s, msg_id).len() ==> (#[trigger] without_msg_rows(s, msg_id)[k]).hv_msg_id != msg_id,
    decreases s.len(),
{
    if s.len() > 0 {
        let rest = s.drop_last();
        let sub = without_msg_rows(rest, msg_id);
        lemma_without_msg_rows_props(rest, msg_id);
        assert forall|k: int| 0 <= k < sub.len() implies s.contains(#[trigger] sub[k]) by {
            assert(rest.contains(sub[k]));
            let x = choose|x: int| 0 <= x < rest.len() && rest[x] == sub[k];
            assert(s[x] == sub[k]);
        }
        if s.last().hv_msg_id != msg_id {
            assert(without_msg_rows(s, msg_id) == sub.push(s.last()));
        }
    }
}

/// Every entry group-removal keeps is drawn from the original sequence,
/// and none of them belongs to the removed group.
proof fn lemma_without_group_rows_props(s: Seq<ScheduleRow>, gid: int)
    ensures
        forall|k: int|
            0 <= k < without_group_rows(s, gid).len() ==> s.contains(
                #[trigger] without_group_rows(s, gid)[k],
            ),
        forall|k: int|
            0 <= k < without_group_rows(s, gid).len() ==> (#[trigger] without_group_rows(s, gid)[k]).group_db_id != gid,
    decreases s.len(),
{
    if s.len() > 0 {
        let rest = s.drop_last();
        let sub = without_group_rows(rest, gid);
        lemma_without_group_rows_props(rest, gid);
        assert forall|k: int| 0 <= k < sub.len() implies s.contains(#[trigger] sub[k]) by {
            assert(rest.contains(sub[k]));
            let x = choose|x: int| 0 <= x < rest.len() && rest[x] == sub[k];
            assert(s[x] == sub[k]);
        }
        if s.last().group_db_id != gid {
            assert(without_group_rows(s, gid) == sub.push(s.last()));
        }
    }
}

/// Every entry id-removal keeps is drawn from the original sequence, and
/// none of them carries the removed id.
proof fn lemma_without_entry_id_props(s: Seq<ScheduleRow>, id: int)
    ensures
        forall|k: int|
            0 <= k < without_entry_id(s, id).len() ==> s.contains(
                #[trigger] without_entry_id(s, id)[k],
            ),
        forall|k: int|
            0 <= k < without_entry_id(s, id).len() ==> (#[trigger] without_entry_id(s, id)[k]).id
                != id,
    decreases s.len(),
{
    if s.len() > 0 {
        let rest = s.drop_last();
        let sub = without_entry_id(rest, id);
        lemma_without_entry_id_props(rest, id);
        assert forall|k: int| 0 <= k < sub.len() implies s.contains(#[trigger] sub[k]) by {
            assert(rest.contains(sub[k]));
            let x = choose|x: int| 0 <= x < rest.len() && rest[x] == sub[k];
            assert(s[x] == sub[k]);
        }
        if s.last().id != id {
            assert(without_entry_id(s, id) == sub.push(s.last()));
        }
    }
}

/// Two entries kept by message-removal come from two distinct originals,
/// so their ids still differ when the original had no duplicate ids.
proof fn lemma_without_msg_rows_distinct(s: Seq<ScheduleRow>, msg_id: int, i: int, j: int)
    requires
        0 <= i < j < without_msg_rows(s, msg_id).len(),
        forall|x: int, y: int|
            0 <= x < y < s.len() ==> (#[trigger] s[x]).id != (#[trigger] s[y]).id,
    ensures
        without_msg_rows(s, msg_id)[i].id != without_msg_rows(s, msg_id)[j].id,
    decreases s.len(),
{
    if s.len() > 0 {
        let rest = s.drop_last();
        let sub = without_msg_rows(rest, msg_id);
        let out = without_msg_rows(s, msg_id);
        if s.last().hv_msg_id != msg_id && j == out.len() - 1 {
            lemma_without_msg_rows_props(rest, msg_id);
            assert(rest.contains(sub[i]));
            let x = choose|x: int| 0 <= x < rest.len() && rest[x] == sub[i];
            assert(s[x].id != s[s.len() - 1].id);
        } else {
            lemma_without_msg_rows_distinct(rest, msg_id, i, j);
        }
    }
}

/// Two entries kept by group-removal come from two distinct originals.
proof fn lemma_without_group_rows_distinct(s: Seq<ScheduleRow>, gid: int, i: int, j: int)
    requires
        0 <= i < j < without_group_rows(s, gid).len(),
        forall|x: int, y: int|
            0 <= x < y < s.len() ==> (#[trigger] s[x]).id != (#[trigger] s[y]).id,
    ensures
        without_group_rows(s, gid)[i].id != without_group_rows(s, gid)[j].id,
    decreases s.len(),
{
    if s.len() > 0 {
        let rest = s.drop_last();
        let sub = without_group_rows(rest, gid);
        let out = without_group_rows(s, gid);
        if s.last().group_db_id != gid && j == out.len() - 1 {
            lemma_without_group_rows_props(rest, gid);
            assert(rest.contains(sub[i]));
            let x = choose|x: int| 0 <= x < rest.len() && rest[x] == sub[i];
            assert(s[x].id != s[s.len() - 1].id);
        } else {
            lemma_without_group_rows_distinct(rest, gid, i, j);
        }
    }
}

/// Two entries kept by id-removal come from two distinct originals.
proof fn lemma_without_entry_id_distinct(s: Seq<ScheduleRow>, id: int, i: int, j: int)
    requires
        0 <= i < j < without_entry_id(s, id).len(),
        forall|x: int, y: int|
            0 <= x < y < s.len() ==> (#[trigger] s[x]).id != (#[trigger] s[y]).id,
    ensures
        without_entry_id(s, id)[i].id != without_entry_id(s, id)[j].id,
    decreases s.len(),
{
    if s.len() > 0 {
        let rest = s.drop_last();
        let sub = without_entry_id(rest, id);
        let out = without_entry_id(s, id);
        if s.last().id != id && j == out.len() - 1 {
            lemma_without_entry_id_props(rest, id);
            assert(rest.contains(sub[i]));
            let x = choose|x: int| 0 <= x < rest.len() && rest[x] == sub[i];
            assert(s[x].id != s[s.len() - 1].id);
        } else {
            lemma_without_entry_id_distinct(rest, id, i, j);
        }
    }
}

/// Extending a prefix by one entry keeps the message-removal image in step.
proof fn lemma_without_msg_take_step(s: Seq<ScheduleRow>, msg_id: int, i: int)
    requires
        0 <= i < s.len(),
    ensures
        without_msg_rows(s.take(i + 1), msg_id) == if s[i].hv_msg_id == msg_id {
            without_msg_rows(s.take(i), msg_id)
        } else {
            without_msg_rows(s.take(i), msg_id).push(s[i])
        },
{
    assert(s.take(i + 1).drop_last() =~= s.take(i));
    assert(s.take(i + 1).last() == s[i]);
}

/// Extending a prefix by one entry keeps the group-removal image in step.
proof fn lemma_without_group_take_step(s: Seq<ScheduleRow>, gid: int, i: int)
    requires
        0 <= i < s.len(),
    ensures
        without_group_rows(s.take(i + 1), gid) == if s[i].group_db_id == gid {
            without_group_rows(s.take(i), gid)
        } else {
            without_group_rows(s.take(i), gid).push(s[i])
        },
{
    assert(s.take(i + 1).drop_last() =~= s.take(i));
    assert(s.take(i + 1).last() == s[i]);
}

/// Extending a prefix by one entry keeps the id-removal image in step.
proof fn lemma_without_entry_take_step(s: Seq<ScheduleRow>, id: int, i: int)
    requires
        0 <= i < s.len(),
    ensures
        without_entry_id(s.take(i + 1), id) == if s[i].id == id {
            without_entry_id(s.take(i), id)
        } else {
            without_entry_id(s.take(i), id).push(s[i])
        },
{
    assert(s.take(i + 1).drop_last() =~= s.take(i));
    assert(s.take(i + 1).last() == s[i]);
}

/// Extending a prefix by one entry keeps the due selection in step.
proof fn lemma_due_rows_take_step(
    s: Seq<ScheduleRow>,
    t: Seq<char>,
    ms: Seq<Message>,
    gs: Seq<GroupInfo>,
    i: int,
)
    requires
        0 <= i < s.len(),
    ensures
        due_rows(s.take(i + 1), t, ms, gs) == if s[i].send_time@ == t && resolvable(s[i], ms, gs) {
            due_rows(s.take(i), t, ms, gs).push(s[i])
        } else {
            due_rows(s.take(i), t, ms, gs)
        },
{
    assert(s.take(i + 1).drop_last() =~= s.take(i));
    assert(s.take(i + 1).last() == s[i]);
}

/// Extending a prefix by one entry keeps the per-group selection in step.
proof fn lemma_group_rows_take_step(
    s: Seq<ScheduleRow>,
    gid: int,
    ms: Seq<Message>,
    gs: Seq<GroupInfo>,
    i: int,
)
    requires
        0 <= i < s.len(),
    ensures
        group_rows(s.take(i + 1), gid, ms, gs) == if s[i].group_db_id == gid && resolvable(
            s[i],
            ms,
            gs,
        ) {
            group_rows(s.take(i), gid, ms, gs).push(s[i])
        } else {
            group_rows(s.take(i), gid, ms, gs)
        },
{
    assert(s.take(i + 1).drop_last() =~= s.take(i));
    assert(s.take(i + 1).last() == s[i]);
}

} // verus!
