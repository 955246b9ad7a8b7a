//! The message catalog: titled "polling" bodies that can be scheduled for
//! recurring delivery, plus the single welcome message sent to new group
//! members. The welcome entry is a singleton: setting it again overwrites
//! the stored text instead of adding a row.

use vstd::prelude::*;
use vstd::string::StringExecFns;
use crate::service::polling_msg::{without_msg_rows, PollingMsgDb};

verus! {

/// The two catalog kinds.
#[derive(Clone, Copy, Debug, PartialEq, Eq, Structural)]
pub enum MsgType {
    Polling,
    Welcome,
}

/// One catalog row.
#[derive(Debug)]
pub struct Message {
    pub id: i64,
    pub msg_type: MsgType,
    pub msg_text: String,
    pub msg_title: String,
}

/// The catalog itself: rows in insertion order plus the next free id.
pub struct Msg {
    msgs: Vec<Message>,
    next_id: i64,
}

/// Numeric code a catalog kind is reported under in joined schedule rows.
pub open spec fn spec_type_code(t: MsgType) -> int {
    match t {
        MsgType::Polling => 1,
        MsgType::Welcome => 2,
    }
}

/// Title stored on the welcome row.
pub open spec fn welcome_title() -> Seq<char> {
    "welcome"@
}

/// Fallback greeting returned while no welcome row exists.
pub open spec fn default_welcome() -> Seq<char> {
    "Hi! Nice to meet you"@
}

/// The polling rows of `s`, in their original order.
pub open spec fn polling_rows(s: Seq<Message>) -> Seq<Message>
    decreases s.len(),
{
    if s.len() == 0 {
        Seq::empty()
    } else if s.last().msg_type is Polling {
        polling_rows(s.drop_last()).push(s.last())
    } else {
        polling_rows(s.drop_last())
    }
}

/// The rows of `s` whose id is not `id`, in their original order.
pub open spec fn without_msg_id(s: Seq<Message>, id: int) -> Seq<Message>
    decreases s.len(),
{
    if s.len() == 0 {
        Seq::empty()
    } else if s.last().id == id {
        without_msg_id(s.drop_last(), id)
    } else {
        without_msg_id(s.drop_last(), id).push(s.last())
    }
}

/// How one row changes under `edit_msg`: once processed, a row with the
/// edited id takes the new text; every other row is untouched.
pub open spec fn edit_step(b: Message, a: Message, id: int, body: Seq<char>, done: bool) -> bool {
    if done && a.id == id {
        &&& b.id == a.id
        &&& b.msg_type == a.msg_type
        &&& b.msg_text@ == body
        &&& b.msg_title@ == a.msg_title@
    } else {
        b == a
    }
}

/// How one row changes when the welcome text is overwritten in place.
pub open spec fn welcome_step(b: Message, a: Message, body: Seq<char>, done: bool) -> bool {
    if done && a.msg_type is Welcome {
        &&& b.id == a.id
        &&& b.msg_type is Welcome
        &&& b.msg_text@ == body
        &&& b.msg_title@ == welcome_title()
    } else {
        b == a
    }
}

/// The numeric code of a catalog kind, as `spec_type_code` gives it.
pub fn type_code(t: MsgType) -> (r: i32)
    ensures
        r == spec_type_code(t),
{
    match t {
        MsgType::Polling => 1,
        MsgType::Welcome => 2,
    }
}

/// Copies one row; the copy equals the original.
fn clone_message(m: &Message) -> (r: Message)
    ensures
        r == *m,
{
    Message {
        id: m.id,
        msg_type: m.msg_type,
        msg_text: m.msg_text.clone(),
        msg_title: m.msg_title.clone(),
    }
}

/// Extending a prefix by one element keeps the polling selection in step.
proof fn lemma_polling_rows_take_step(s: Seq<Message>, i: int)
    requires
        0 <= i < s.len(),
    ensures
        polling_rows(s.take(i + 1)) == if s[i].msg_type is Polling {
            polling_rows(s.take(i)).push(s[i])
        } else {
            polling_rows(s.take(i))
        },
{
    assert(s.take(i + 1).drop_last() =~= s.take(i));
    assert(s.take(i + 1).last() == s[i]);
}

/// Extending a prefix by one element keeps the id-removal image in step.
proof fn lemma_without_msg_id_take_step(s: Seq<Message>, id: int, i: int)
    requires
        0 <= i < s.len(),
    ensures
        without_msg_id(s.take(i + 1), id) == if s[i].id == id {
            without_msg_id(s.take(i), id)
        } else {
            without_msg_id(s.take(i), id).push(s[i])
        },
{
    assert(s.take(i + 1).drop_last() =~= s.take(i));
    assert(s.take(i + 1).last() == s[i]);
}

/// What id-removal leaves behind: no row with the id, every row drawn from
/// the original, and no new duplicate ids.
proof fn lemma_without_msg_id_props(s: Seq<Message>, id: int)
    requires
        forall|i: int, j: int|
            0 <= i < j < s.len() ==> (#[trigger] s[i]).id != (#[trigger] s[j]).id,
    ensures
        forall|k: int|
            0 <= k < without_msg_id(s, id).len() ==> (#[trigger] without_msg_id(s, id)[k]).id
                != id,
        forall|k: int|
            0 <= k < without_msg_id(s, id).len() ==> s.contains(#[trigger] without_msg_id(s, id)[k]),
        forall|i: int, j: int|
            0 <= i < j < without_msg_id(s, id).len() ==> (#[trigger] without_msg_id(s, id)[i]).id
                != (#[trigger] without_msg_id(s, id)[j]).id,
    decreases s.len(),
{
    if s.len() > 0 {
        let rest = s.drop_last();
        let sub = without_msg_id(rest, id);
        let out = without_msg_id(s, id);
        lemma_without_msg_id_props(rest, id);
        assert forall|k: int| 0 <= k < sub.len() implies s.contains(#[trigger] sub[k]) by {
            assert(rest.contains(sub[k]));
            let x = choose|x: int| 0 <= x < rest.len() && rest[x] == sub[k];
            assert(s[x] == sub[k]);
        }
        if s.last().id != id {
            assert(out == sub.push(s.last()));
            assert(s[s.len() - 1] == out[out.len() - 1]);
            assert forall|i: int, j: int| 0 <= i < j < out.len() implies (#[trigger] out[i]).id
                != (#[trigger] out[j]).id by {
                if j == out.len() - 1 {
                    assert(rest.contains(sub[i]));
                    let x = choose|x: int| 0 <= x < rest.len() && rest[x] == sub[i];
                    assert(s[x].id != s[s.len() - 1].id);
                }
            }
        }
    }
}

/// Creates an empty catalog.
pub fn new() -> (r: Msg)
    ensures
        r.wf(),
        r.rows() == Seq::<Message>::empty(),
        r.next() == 1,
{
    Msg { msgs: Vec::new(), next_id: 1 }
}

impl Msg {
    /// The catalog rows, in insertion order.
    pub closed spec fn rows(&self) -> Seq<Message> {
        self.msgs@
    }

    /// The id the next inserted row will receive.
    pub closed spec fn next(&self) -> int {
        self.next_id as int
    }

    /// Well-formed catalog: ids are unique and below the insertion counter,
    /// and at most one welcome row exists.
    pub open spec fn wf(&self) -> bool {
        &&& 1 <= self.next()
        &&& forall|i: int|
            0 <= i < self.rows().len() ==> 1 <= (#[trigger] self.rows()[i]).id < self.next()
        &&& forall|i: int, j: int|
            0 <= i < j < self.rows().len() ==> (#[trigger] self.rows()[i]).id != (
            #[trigger] self.rows()[j]).id
        &&& forall|i: int, j: int|
            0 <= i < j < self.rows().len() ==> !((#[trigger] self.rows()[i]).msg_type is Welcome
                && (#[trigger] self.rows()[j]).msg_type is Welcome)
    }

    /// A new row may still receive an id.
    pub open spec fn can_assign(&self) -> bool {
        self.next() < i64::MAX
    }

    /// A welcome row exists.
    pub open spec fn spec_has_welcome(&self) -> bool {
        exists|i: int| 0 <= i < self.rows().len() && (#[trigger] self.rows()[i]).msg_type is Welcome
    }

    /// Text of the welcome row (meaningful only when one exists).
    pub open spec fn spec_welcome_text(&self) -> Seq<char> {
        let i = choose|i: int|
            0 <= i < self.rows().len() && (#[trigger] self.rows()[i]).msg_type is Welcome;
        self.rows()[i].msg_text@
    }

    /// A row with this id exists.
    pub open spec fn spec_has_id(&self, id: int) -> bool {
        exists|i: int| 0 <= i < self.rows().len() && (#[trigger] self.rows()[i]).id == id
    }

    /// All polling rows, in insertion order (welcome rows are left out).
    pub fn all(&self) -> (r: Vec<Message>)
        ensures
            r@ == polling_rows(self.rows()),
    {
        let n: usize = self.msgs.len();
        let mut out: Vec<Message> = Vec::new();
        proof {
            assert(self.rows().take(0) =~= Seq::<Message>::empty());
        }
        let mut i: usize = 0;
        while i < n
            invariant
                i <= n,
                n == self.rows().len(),
                out@ == polling_rows(self.rows().take(i as int)),
            decreases n - i,
        {
            proof {
                lemma_polling_rows_take_step(self.rows(), i as int);
            }
            match self.msgs[i].msg_type {
                MsgType::Polling => {
                    out.push(clone_message(&self.msgs[i]));
                },
                MsgType::Welcome => {},
            }
            i = i + 1;
        }
        proof {
            assert(self.rows().take(n as int) =~= self.rows());
        }
        out
    }

    /// The row at a known position, by reference.
    pub(crate) fn row_at(&self, i: usize) -> (r: &Message)
        requires
            i < self.rows().len(),
        ensures
            *r == self.rows()[i as int],
    {
        &self.msgs[i]
    }

    /// Position of the row with this id, if any.
    pub(crate) fn index_of_id(&self, id: i64) -> (r: Option<usize>)
        ensures
            match r {
                Some(ix) => ix < self.rows().len() && self.rows()[ix as int].id == id,
                None => !self.spec_has_id(id as int),
            },
    {
        let n: usize = self.msgs.len();
        let mut i: usize = 0;
        while i < n
            invariant
                i <= n,
                n == self.rows().len(),
                forall|j: int| 0 <= j < i ==> (#[trigger] self.rows()[j]).id != id,
            decreases n - i,
        {
            if self.msgs[i].id == id {
                return Some(i);
            }
            i = i + 1;
        }
        None
    }

    /// Inserts a new row and returns its id, or 0 when the insert is
    /// refused (a second welcome row, or no id left to assign).
    pub fn add_msg(&mut self, msg_type: MsgType, msg_text: &str, msg_title: &str) -> (r: i64)
        requires
            old(self).wf(),
        ensures
            final(self).wf(),
            r == if (msg_type is Polling || !old(self).spec_has_welcome())
                && old(self).can_assign() {
                old(self).next()
            } else {
                0
            },
            r == 0 ==> *final(self) == *old(self),
            r > 0 ==> {
                &&& final(self).rows().len() == old(self).rows().len() + 1
                &&& final(self).rows().take(old(self).rows().len() as int) == old(self).rows()
                &&& final(self).rows().last().id == r
                &&& final(self).rows().last().msg_type == msg_type
                &&& final(self).rows().last().msg_text@ == msg_text@
                &&& final(self).rows().last().msg_title@ == msg_title@
                &&& final(self).next() == old(self).next() + 1
            },
    {
        let is_welcome = match msg_type {
            MsgType::Welcome => true,
            MsgType::Polling => false,
        };
        if is_welcome && self.has_welcome_row() {
            return 0;
        }
        if self.next_id == i64::MAX {
            return 0;
        }
        let row = Message {
            id: self.next_id,
            msg_type,
            msg_text: msg_text.to_owned(),
            msg_title: msg_title.to_owned(),
        };
        let ghost prev = self.msgs@;
        let id = self.next_id;
        self.msgs.push(row);
        self.next_id = self.next_id + 1;
        proof {
            assert(self.rows().take(prev.len() as int) =~= prev);
            if old(self).spec_has_welcome() {
                let i = choose|i: int|
                    0 <= i < old(self).rows().len() && (#[trigger] old(self).rows()[i]).msg_type is Welcome;
                assert(self.rows()[i].msg_type is Welcome);
            }
        }
        id
    }

    /// Whether a welcome row exists.
    fn has_welcome_row(&self) -> (r: bool)
        ensures
            r == self.spec_has_welcome(),
    {
        let n: usize = self.msgs.len();
        let mut i: usize = 0;
        while i < n
            invariant
                i <= n,
                n == self.rows().len(),
                forall|j: int| 0 <= j < i ==> !((#[trigger] self.rows()[j]).msg_type is Welcome),
            decreases n - i,
        {
            match self.msgs[i].msg_type {
                MsgType::Welcome => {
                    return true;
                },
                MsgType::Polling => {},
            }
            i = i + 1;
        }
        false
    }

    /// Sets the welcome text: overwrites the existing welcome row or, when
    /// none exists, inserts one. Fails only when a fresh row cannot be
    /// assigned an id.
    pub fn add_welcome_msg(&mut self, msg_text: &str) -> (r: bool)
        requires
            old(self).wf(),
        ensures
            final(self).wf(),
            r == (old(self).spec_has_welcome() || old(self).can_assign()),
            !r ==> *final(self) == *old(self),
            old(self).spec_has_welcome() ==> {
                &&& final(self).rows().len() == old(self).rows().len()
                &&& final(self).next() == old(self).next()
                &&& forall|i: int|
                    0 <= i < old(self).rows().len() ==> welcome_step(
                        #[trigger] final(self).rows()[i],
                        old(self).rows()[i],
                        msg_text@,
                        true,
                    )
            },
            !old(self).spec_has_welcome() && r ==> {
                &&& final(self).rows().len() == old(self).rows().len() + 1
                &&& final(self).rows().take(old(self).rows().len() as int) == old(self).rows()
                &&& final(self).rows().last().msg_type is Welcome
                &&& final(self).rows().last().msg_text@ == msg_text@
                &&& final(self).rows().last().msg_title@ == welcome_title()
            },
            r ==> final(self).spec_has_welcome() && final(self).spec_welcome_text() == msg_text@,
    {
        let n: usize = self.msgs.len();
        let mut i: usize = 0;
        while i < n
            invariant
                i <= n,
                n == self.rows().len(),
                *self == *old(self),
                old(self).wf(),
                forall|j: int| 0 <= j < i ==> !((#[trigger] self.rows()[j]).msg_type is Welcome),
            decreases n - i,
        {
            let found = match self.msgs[i].msg_type {
                MsgType::Welcome => true,
                MsgType::Polling => false,
            };
            if found {
                let row = clone_message(&self.msgs[i]);
                let updated = Message {
                    msg_text: msg_text.to_owned(),
                    msg_title: String::from_str("welcome"),
                    ..row
                };
                self.msgs.set(i, updated);
                proof {
                    reveal_strlit("welcome");
                    assert(old(self).rows()[i as int].msg_type is Welcome);
                    assert forall|j: int|
                        0 <= j < old(self).rows().len() implies welcome_step(
                        #[trigger] self.rows()[j],
                        old(self).rows()[j],
                        msg_text@,
                        true,
                    ) by {
                        if j != i {
                            assert(self.rows()[j] == old(self).rows()[j]);
                            assert(!(old(self).rows()[j].msg_type is Welcome));
                        }
                    }
                    assert(self.rows()[i as int].msg_type is Welcome);
                    assert forall|x: int, y: int|
                        0 <= x < y < self.rows().len() implies !((#[trigger] self.rows()[x]).msg_type is Welcome
                        && (#[trigger] self.rows()[y]).msg_type is Welcome) by {
                        if self.rows()[x].msg_type is Welcome && self.rows()[y].msg_type is Welcome {
                            if x != i as int {
                                assert(self.rows()[x] == old(self).rows()[x]);
                                assert(old(self).rows()[x].msg_type is Welcome);
                            }
                            if y != i as int {
                                assert(self.rows()[y] == old(self).rows()[y]);
                                assert(old(self).rows()[y].msg_type is Welcome);
                            }
                            assert(false);
                        }
                    }
                    let k = choose|k: int|
                        0 <= k < self.rows().len() && (#[trigger] self.rows()[k]).msg_type is Welcome;
                    if k != i as int {
                        assert(self.rows()[k] == old(self).rows()[k]);
                        assert(old(self).rows()[k].msg_type is Welcome);
                        assert(false);
                    }
                }
                return true;
            }
            i = i + 1;
        }
        let id = self.add_msg(MsgType::Welcome, msg_text, "welcome");
        proof {
            reveal_strlit("welcome");
            if id > 0 {
                let m = self.rows().last();
                assert(self.rows()[self.rows().len() - 1].msg_type is Welcome);
                let k = choose|k: int|
                    0 <= k < self.rows().len() && (#[trigger] self.rows()[k]).msg_type is Welcome;
                if k != self.rows().len() - 1 {
                    assert(old(self).rows()[k].msg_type is Welcome);
                    assert(false);
                }
            }
        }
        id > 0
    }

    /// Removes the row with this id, first cascading away every schedule
    /// entry that references it; reports whether a catalog row was removed.
    pub fn remove_msg(&mut self, schedule: &mut PollingMsgDb, msg_id: i64) -> (r: bool)
        requires
            old(self).wf(),
            old(schedule).wf(),
        ensures
            final(self).wf(),
            final(schedule).wf(),
            final(self).rows() == without_msg_id(old(self).rows(), msg_id as int),
            final(self).next() == old(self).next(),
            final(schedule).entries() == without_msg_rows(old(schedule).entries(), msg_id as int),
            final(schedule).next() == old(schedule).next(),
            r == old(self).spec_has_id(msg_id as int),
            !final(self).spec_has_id(msg_id as int),
    {
        schedule.delete_by_msg_id(msg_id);
        let n: usize = self.msgs.len();
        let mut kept: Vec<Message> = Vec::new();
        let mut removed: bool = false;
        proof {
            assert(self.rows().take(0) =~= Seq::<Message>::empty());
        }
        let mut i: usize = 0;
        while i < n
            invariant
                i <= n,
                n == self.rows().len(),
                kept@ == without_msg_id(self.rows().take(i as int), msg_id as int),
                removed == exists|j: int|
                    0 <= j < i && (#[trigger] self.rows()[j]).id == msg_id,
            decreases n - i,
        {
            proof {
                lemma_without_msg_id_take_step(self.rows(), msg_id as int, i as int);
            }
            if self.msgs[i].id == msg_id {
                removed = true;
            } else {
                kept.push(clone_message(&self.msgs[i]));
            }
            i = i + 1;
        }
        proof {
            assert(self.rows().take(n as int) =~= self.rows());
        }
        self.msgs = kept;
        proof {
            lemma_without_msg_id_props(old(self).rows(), msg_id as int);
            assert forall|k: int|
                0 <= k < self.rows().len() implies 1 <= (#[trigger] self.rows()[k]).id
                < self.next() by {
                assert(self.rows()[k] == without_msg_id(old(self).rows(), msg_id as int)[k]);
                assert(old(self).rows().contains(self.rows()[k]));
                let x = choose|x: int|
                    0 <= x < old(self).rows().len() && old(self).rows()[x] == self.rows()[k];
            }
            if self.spec_has_id(msg_id as int) {
                let k = choose|k: int|
                    0 <= k < self.rows().len() && (#[trigger] self.rows()[k]).id == msg_id;
                assert(without_msg_id(old(self).rows(), msg_id as int)[k].id != msg_id);
                assert(false);
            }
            assert forall|i: int, j: int|
                0 <= i < j < self.rows().len() implies !((#[trigger] self.rows()[i]).msg_type is Welcome && (#[trigger] self.rows()[j]).msg_type is Welcome) by {
                if self.rows()[i].msg_type is Welcome && self.rows()[j].msg_type is Welcome {
                    assert(self.rows()[i] == without_msg_id(old(self).rows(), msg_id as int)[i]);
                    assert(self.rows()[j] == without_msg_id(old(self).rows(), msg_id as int)[j]);
                    assert(old(self).rows().contains(self.rows()[i]));
                    assert(old(self).rows().contains(self.rows()[j]));
                    let x = choose|x: int|
                        0 <= x < old(self).rows().len() && old(self).rows()[x] == self.rows()[i];
                    let y = choose|y: int|
                        0 <= y < old(self).rows().len() && old(self).rows()[y] == self.rows()[j];
                    assert(self.rows()[i].id != self.rows()[j].id);
                    assert(x != y);
                    assert(false);
                }
            }
        }
        removed
    }

    /// Replaces the text of the row with this id; reports whether a row
    /// matched.
    pub fn edit_msg(&mut self, id: i64, msg_text: &str) -> (r: bool)
        requires
            old(self).wf(),
        ensures
            final(self).wf(),
            final(self).next() == old(self).next(),
            final(self).rows().len() == old(self).rows().len(),
            forall|i: int|
                0 <= i < old(self).rows().len() ==> edit_step(
                    #[trigger] final(self).rows()[i],
                    old(self).rows()[i],
                    id as int,
                    msg_text@,
                    true,
                ),
            r == old(self).spec_has_id(id as int),
    {
        let n: usize = self.msgs.len();
        let mut changed: bool = false;
        let mut i: usize = 0;
        while i < n
            invariant
                i <= n,
                n == self.rows().len(),
                n == old(self).rows().len(),
                self.next() == old(self).next(),
                forall|j: int|
                    0 <= j < old(self).rows().len() ==> edit_step(
                        #[trigger] self.rows()[j],
                        old(self).rows()[j],
                        id as int,
                        msg_text@,
                        j < i,
                    ),
                changed == exists|j: int| 0 <= j < i && (#[trigger] old(self).rows()[j]).id == id,
            decreases n - i,
        {
            proof {
                assert(edit_step(self.rows()[i as int], old(self).rows()[i as int], id as int,
                    msg_text@, false,
                ));
            }
            if self.msgs[i].id == id {
                let row = clone_message(&self.msgs[i]);
                let updated = Message { msg_text: msg_text.to_owned(), ..row };
                self.msgs.set(i, updated);
                changed = true;
            }
            i = i + 1;
        }
        changed
    }

    /// Text of the welcome message, or the fixed fallback greeting when no
    /// welcome row has been set: "no welcome set" is never an error.
    pub fn welcome_msg(&self) -> (r: String)
        requires
            self.wf(),
        ensures
            self.spec_has_welcome() ==> r@ == self.spec_welcome_text(),
            !self.spec_has_welcome() ==> r@ == default_welcome(),
    {
        let n: usize = self.msgs.len();
        let mut i: usize = 0;
        while i < n
            invariant
                i <= n,
                n == self.rows().len(),
                self.wf(),
                forall|j: int| 0 <= j < i ==> !((#[trigger] self.rows()[j]).msg_type is Welcome),
            decreases n - i,
        {
            let found = match self.msgs[i].msg_type {
                MsgType::Welcome => true,
                MsgType::Polling => false,
            };
            if found {
                proof {
                    let k = choose|k: int|
                        0 <= k < self.rows().len() && (#[trigger] self.rows()[k]).msg_type is Welcome;
                    assert(k == i as int);
                }
                return self.msgs[i].msg_text.clone();
            }
            i = i + 1;
        }
        proof {
            reveal_strlit("Hi! Nice to meet you");
        }
        String::from_str("Hi! Nice to meet you")
    }
}

} // verus!
