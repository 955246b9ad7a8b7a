//! The group registry: the chats the bot currently participates in. A row
//! is added when the bot joins a chat and really deleted when it leaves or
//! is banned; joining again while already registered changes nothing.

use vstd::prelude::*;

verus! {

/// One registered group. `group_id` is the external chat id; the two flags
/// gate the scheduled pushes and the welcome greeting for this group.
#[derive(Debug)]
pub struct GroupInfo {
    pub id: i64,
    pub group_id: String,
    pub group_name: String,
    pub mute_polling: bool,
    pub mute_welcome: bool,
}

/// The registry itself.
pub struct Group {
    groups: Vec<GroupInfo>,
    next_id: i64,
}

/// Why a row could not be added.
#[derive(Clone, Copy, Debug, PartialEq, Eq, Structural)]
pub enum StoreError {
    /// No id is left to assign to a new row.
    Exhausted,
}

/// The rows of `s` whose external id is not `gid`, in their original order.
pub open spec fn without_group(s: Seq<GroupInfo>, gid: Seq<char>) -> Seq<GroupInfo>
    decreases s.len(),
{
    if s.len() == 0 {
        Seq::empty()
    } else if s.last().group_id@ == gid {
        without_group(s.drop_last(), gid)
    } else {
        without_group(s.drop_last(), gid).push(s.last())
    }
}

/// How one row changes when a mute flag is written: once processed, a row
/// with the external id takes the new flag; every other row is untouched.
pub open spec fn mute_step(
    b: GroupInfo,
    a: GroupInfo,
    gid: Seq<char>,
    mute: bool,
    welcome_flag: bool,
    done: bool,
) -> bool {
    if done && a.group_id@ == gid {
        &&& b.id == a.id
        &&& b.group_id@ == a.group_id@
        &&& b.group_name@ == a.group_name@
        &&& b.mute_polling == (if welcome_flag {
            a.mute_polling
        } else {
            mute
        })
        &&& b.mute_welcome == (if welcome_flag {
            mute
        } else {
            a.mute_welcome
        })
    } else {
        b == a
    }
}

/// Copies one row; the copy equals the original.
fn clone_group(g: &GroupInfo) -> (r: GroupInfo)
    ensures
        r == *g,
{
    GroupInfo {
        id: g.id,
        group_id: g.group_id.clone(),
        group_name: g.group_name.clone(),
        mute_polling: g.mute_polling,
        mute_welcome: g.mute_welcome,
    }
}

/// Extending a prefix by one row keeps the removal image in step.
proof fn lemma_without_group_take_step(s: Seq<GroupInfo>, gid: Seq<char>, i: int)
    requires
        0 <= i < s.len(),
    ensures
        without_group(s.take(i + 1), gid) == if s[i].group_id@ == gid {
            without_group(s.take(i), gid)
        } else {
            without_group(s.take(i), gid).push(s[i])
        },
{
    assert(s.take(i + 1).drop_last() =~= s.take(i));
    assert(s.take(i + 1).last() == s[i]);
}

/// What removal leaves behind: no row for `gid`, every row drawn from the
/// original, and no new duplicates.
proof fn lemma_without_group_props(s: Seq<GroupInfo>, gid: Seq<char>)
    ensures
        forall|k: int|
            0 <= k < without_group(s, gid).len() ==> (#[trigger] without_group(s, gid)[k]).group_id@ != gid,
        forall|k: int|
            0 <= k < without_group(s, gid).len() ==> s.contains(#[trigger] without_group(s, gid)[k]),
    decreases s.len(),
{
    if s.len() > 0 {
        let rest = s.drop_last();
        let sub = without_group(rest, gid);
        lemma_without_group_props(rest, gid);
        assert forall|k: int| 0 <= k < sub.len() implies s.contains(#[trigger] sub[k]) by {
            assert(rest.contains(sub[k]));
            let x = choose|x: int| 0 <= x < rest.len() && rest[x] == sub[k];
            assert(s[x] == sub[k]);
        }
        if s.last().group_id@ != gid {
            assert(without_group(s, gid) == sub.push(s.last()));
        }
    }
}

/// Creates an empty registry.
pub fn new() -> (r: Group)
    ensures
        r.wf(),
        r.rows() == Seq::<GroupInfo>::empty(),
        r.next() == 1,
{
    Group { groups: Vec::new(), next_id: 1 }
}

impl Group {
    /// The registry rows, in insertion order.
    pub closed spec fn rows(&self) -> Seq<GroupInfo> {
        self.groups@
    }

    /// The id the next inserted row will receive.
    pub closed spec fn next(&self) -> int {
        self.next_id as int
    }

    /// Well-formed registry: internal ids unique and below the counter,
    /// external ids unique (joining twice adds nothing).
    pub open spec fn wf(&self) -> bool {
        &&& 1 <= self.next()
        &&& forall|i: int|
            0 <= i < self.rows().len() ==> 1 <= (#[trigger] self.rows()[i]).id < self.next()
        &&& forall|i: int, j: int|
            0 <= i < j < self.rows().len() ==> (#[trigger] self.rows()[i]).id != (
            #[trigger] self.rows()[j]).id
        &&& forall|i: int, j: int|
            0 <= i < j < self.rows().len() ==> (#[trigger] self.rows()[i]).group_id@ != (
            #[trigger] self.rows()[j]).group_id@
    }

    /// A new row may still receive an id.
    pub open spec fn can_assign(&self) -> bool {
        self.next() < i64::MAX
    }

    /// A row with this internal id exists.
    pub open spec fn spec_has_id(&self, id: int) -> bool {
        exists|i: int| 0 <= i < self.rows().len() && (#[trigger] self.rows()[i]).id == id
    }

    /// A row with this external id exists.
    pub open spec fn spec_has_group(&self, gid: Seq<char>) -> bool {
        exists|i: int| 0 <= i < self.rows().len() && (#[trigger] self.rows()[i]).group_id@ == gid
    }

    /// All registry rows, in insertion order.
    pub fn all(&self) -> (r: Vec<GroupInfo>)
        ensures
            r@ == self.rows(),
    {
        let n: usize = self.groups.len();
        let mut out: Vec<GroupInfo> = Vec::new();
        let mut i: usize = 0;
        while i < n
            invariant
                i <= n,
                n == self.rows().len(),
                out@ == self.rows().take(i as int),
            decreases n - i,
        {
            out.push(clone_group(&self.groups[i]));
            proof {
                assert(out@ =~= self.rows().take(i + 1 as int));
            }
            i = i + 1;
        }
        proof {
            assert(self.rows().take(n as int) =~= self.rows());
        }
        out
    }

    /// Position of the row with this internal id, if any.
    pub(crate) fn index_of_id(&self, id: i64) -> (r: Option<usize>)
        ensures
            match r {
                Some(ix) => ix < self.rows().len() && self.rows()[ix as int].id == id,
                None => !self.spec_has_id(id as int),
            },
    {
        let n: usize = self.groups.len();
        let mut i: usize = 0;
        while i < n
            invariant
                i <= n,
                n == self.rows().len(),
                forall|j: int| 0 <= j < i ==> (#[trigger] self.rows()[j]).id != id,
            decreases n - i,
        {
            if self.groups[i].id == id {
                return Some(i);
            }
            i = i + 1;
        }
        None
    }

    /// The row at a known position, by reference.
    pub(crate) fn row_at(&self, i: usize) -> (r: &GroupInfo)
        requires
            i < self.rows().len(),
        ensures
            *r == self.rows()[i as int],
    {
        &self.groups[i]
    }

    /// The row with this internal id, copied out.
    pub fn get_by_id(&self, id: i64) -> (r: Option<GroupInfo>)
        ensures
            match r {
                Some(g) => g.id == id && self.rows().contains(g),
                None => !self.spec_has_id(id as int),
            },
    {
        match self.index_of_id(id) {
            Some(ix) => {
                let g = clone_group(&self.groups[ix]);
                proof {
                    assert(self.rows()[ix as int] == g);
                }
                Some(g)
            },
            None => None,
        }
    }

    /// Records that the bot joined a chat. Joining an already-registered
    /// chat returns the existing row's id and changes nothing — no
    /// duplicate row, no name update.
    pub fn add_group(&mut self, group_id: &str, group_name: &str) -> (r: Result<i64, StoreError>)
        requires
            old(self).wf(),
        ensures
            final(self).wf(),
            r is Ok <==> (old(self).spec_has_group(group_id@) || old(self).can_assign()),
            old(self).spec_has_group(group_id@) ==> *final(self) == *old(self) && (r matches Ok(id)
                && exists|i: int|
                0 <= i < old(self).rows().len() && (#[trigger] old(self).rows()[i]).group_id@
                    == group_id@ && old(self).rows()[i].id == id),
            !old(self).spec_has_group(group_id@) && old(self).can_assign() ==> {
                &&& r == Ok::<i64, StoreError>(old(self).next() as i64)
                &&& final(self).rows().len() == old(self).rows().len() + 1
                &&& final(self).rows().take(old(self).rows().len() as int) == old(self).rows()
                &&& final(self).rows().last().id == old(self).next()
                &&& final(self).rows().last().group_id@ == group_id@
                &&& final(self).rows().last().group_name@ == group_name@
                &&& final(self).rows().last().mute_polling
                &&& final(self).rows().last().mute_welcome
                &&& final(self).next() == old(self).next() + 1
            },
            r is Err ==> *final(self) == *old(self),
            r matches Ok(id) ==> id > 0,
            r is Ok ==> final(self).spec_has_group(group_id@),
    {
        let n: usize = self.groups.len();
        let mut i: usize = 0;
        while i < n
            invariant
                i <= n,
                n == self.rows().len(),
                forall|j: int| 0 <= j < i ==> (#[trigger] self.rows()[j]).group_id@ != group_id@,
                self.wf(),
            decreases n - i,
        {
            if crate::text::str_eq(self.groups[i].group_id.as_str(), group_id) {
                return Ok(self.groups[i].id);
            }
            i = i + 1;
        }
        if self.next_id == i64::MAX {
            return Err(StoreError::Exhausted);
        }
        let row = GroupInfo {
            id: self.next_id,
            group_id: group_id.to_owned(),
            group_name: group_name.to_owned(),
            mute_polling: true,
            mute_welcome: true,
        };
        let ghost prev = self.groups@;
        let id = self.next_id;
        self.groups.push(row);
        self.next_id = self.next_id + 1;
        proof {
            assert(self.rows().take(prev.len() as int) =~= prev);
            assert(self.rows()[self.rows().len() - 1].group_id@ == group_id@);
        }
        Ok(id)
    }

    /// Writes the polling mute flag of the row with this external id; a
    /// missing row makes the write a no-op, not an error.
    pub fn set_mute_polling(&mut self, group_id: &str, mute: bool) -> (r: Result<(), StoreError>)
        requires
            old(self).wf(),
        ensures
            final(self).wf(),
            r is Ok,
            final(self).next() == old(self).next(),
            final(self).rows().len() == old(self).rows().len(),
            forall|i: int|
                0 <= i < old(self).rows().len() ==> mute_step(
                    #[trigger] final(self).rows()[i],
                    old(self).rows()[i],
                    group_id@,
                    mute,
                    false,
                    true,
                ),
    {
        let n: usize = self.groups.len();
        let mut i: usize = 0;
        while i < n
            invariant
                i <= n,
                n == self.rows().len(),
                n == old(self).rows().len(),
                self.next() == old(self).next(),
                forall|j: int|
                    0 <= j < old(self).rows().len() ==> mute_step(
                        #[trigger] self.rows()[j],
                        old(self).rows()[j],
                        group_id@,
                        mute,
                        false,
                        j < i,
                    ),
            decreases n - i,
        {
            proof {
                assert(mute_step(self.rows()[i as int], old(self).rows()[i as int], group_id@,
                    mute, false, false,
                ));
            }
            if crate::text::str_eq(self.groups[i].group_id.as_str(), group_id) {
                let row = clone_group(&self.groups[i]);
                let updated = GroupInfo { mute_polling: mute, ..row };
                self.groups.set(i, updated);
            }
            i = i + 1;
        }
        Ok(())
    }

    /// Writes the welcome mute flag of the row with this external id; a
    /// missing row makes the write a no-op, not an error.
    pub fn set_mute_welcome(&mut self, group_id: &str, mute: bool) -> (r: Result<(), StoreError>)
        requires
            old(self).wf(),
        ensures
            final(self).wf(),
            r is Ok,
            final(self).next() == old(self).next(),
            final(self).rows().len() == old(self).rows().len(),
            forall|i: int|
                0 <= i < old(self).rows().len() ==> mute_step(
                    #[trigger] final(self).rows()[i],
                    old(self).rows()[i],
                    group_id@,
                    mute,
                    true,
                    true,
                ),
    {
        let n: usize = self.groups.len();
        let mut i: usize = 0;
        while i < n
            invariant
                i <= n,
                n == self.rows().len(),
                n == old(self).rows().len(),
                self.next() == old(self).next(),
                forall|j: int|
                    0 <= j < old(self).rows().len() ==> mute_step(
                        #[trigger] self.rows()[j],
                        old(self).rows()[j],
                        group_id@,
                        mute,
                        true,
                        j < i,
                    ),
            decreases n - i,
        {
            proof {
                assert(mute_step(self.rows()[i as int], old(self).rows()[i as int], group_id@,
                    mute, true, false,
                ));
            }
            if crate::text::str_eq(self.groups[i].group_id.as_str(), group_id) {
                let row = clone_group(&self.groups[i]);
                let updated = GroupInfo { mute_welcome: mute, ..row };
                self.groups.set(i, updated);
            }
            i = i + 1;
        }
        Ok(())
    }

    /// The stored polling flag of the row with this external id, or false
    /// when the group is not registered.
    pub fn should_do_polling(&self, group_id: &str) -> (r: Result<bool, StoreError>)
        requires
            self.wf(),
        ensures
            r matches Ok(b) && b == exists|i: int|
                0 <= i < self.rows().len() && (#[trigger] self.rows()[i]).group_id@ == group_id@
                    && self.rows()[i].mute_polling,
    {
        let n: usize = self.groups.len();
        let mut i: usize = 0;
        while i < n
            invariant
                i <= n,
                n == self.rows().len(),
                self.wf(),
                forall|j: int|
                    0 <= j < i ==> !((#[trigger] self.rows()[j]).group_id@ == group_id@
                        && self.rows()[j].mute_polling),
            decreases n - i,
        {
            if crate::text::str_eq(self.groups[i].group_id.as_str(), group_id) {
                proof {
                    assert(self.rows()[i as int].group_id@ == group_id@);
                    if exists|k: int|
                        0 <= k < self.rows().len() && (#[trigger] self.rows()[k]).group_id@
                            == group_id@ && self.rows()[k].mute_polling {
                        let k = choose|k: int|
                            0 <= k < self.rows().len() && (#[trigger] self.rows()[k]).group_id@
                                == group_id@ && self.rows()[k].mute_polling;
                        assert(k == i as int);
                    }
                }
                return Ok(self.groups[i].mute_polling);
            }
            i = i + 1;
        }
        Ok(false)
    }

    /// The stored welcome flag of the row with this external id, or false
    /// when the group is not registered.
    pub fn should_do_welcome(&self, group_id: &str) -> (r: Result<bool, StoreError>)
        requires
            self.wf(),
        ensures
            r matches Ok(b) && b == exists|i: int|
                0 <= i < self.rows().len() && (#[trigger] self.rows()[i]).group_id@ == group_id@
                    && self.rows()[i].mute_welcome,
    {
        let n: usize = self.groups.len();
        let mut i: usize = 0;
        while i < n
            invariant
                i <= n,
                n == self.rows().len(),
                self.wf(),
                forall|j: int|
                    0 <= j < i ==> !((#[trigger] self.rows()[j]).group_id@ == group_id@
                        && self.rows()[j].mute_welcome),
            decreases n - i,
        {
            if crate::text::str_eq(self.groups[i].group_id.as_str(), group_id) {
                proof {
                    assert(self.rows()[i as int].group_id@ == group_id@);
                    if exists|k: int|
                        0 <= k < self.rows().len() && (#[trigger] self.rows()[k]).group_id@
                            == group_id@ && self.rows()[k].mute_welcome {
                        let k = choose|k: int|
                            0 <= k < self.rows().len() && (#[trigger] self.rows()[k]).group_id@
                                == group_id@ && self.rows()[k].mute_welcome;
                        assert(k == i as int);
                    }
                }
                return Ok(self.groups[i].mute_welcome);
            }
            i = i + 1;
        }
        Ok(false)
    }

    /// Deletes the row with this external id; reports whether a row was
    /// removed.
    pub fn delete_group(&mut self, group_id: &str) -> (r: Result<bool, StoreError>)
        requires
            old(self).wf(),
        ensures
            final(self).wf(),
            final(self).rows() == without_group(old(self).rows(), group_id@),
            final(self).next() == old(self).next(),
            r == Ok::<bool, StoreError>(old(self).spec_has_group(group_id@)),
            !final(self).spec_has_group(group_id@),
    {
        let n: usize = self.groups.len();
        let mut kept: Vec<GroupInfo> = Vec::new();
        let mut removed: bool = false;
        proof {
            assert(self.rows().take(0) =~= Seq::<GroupInfo>::empty());
        }
        let mut i: usize = 0;
        while i < n
            invariant
                i <= n,
                n == self.rows().len(),
                kept@ == without_group(self.rows().take(i as int), group_id@),
                removed == exists|j: int|
                    0 <= j < i && (#[trigger] self.rows()[j]).group_id@ == group_id@,
            decreases n - i,
        {
            proof {
                lemma_without_group_take_step(self.rows(), group_id@, i as int);
            }
            if crate::text::str_eq(self.groups[i].group_id.as_str(), group_id) {
                removed = true;
            } else {
                kept.push(clone_group(&self.groups[i]));
            }
            i = i + 1;
        }
        proof {
            assert(self.rows().take(n as int) =~= self.rows());
        }
        self.groups = kept;
        proof {
            lemma_without_group_props(old(self).rows(), group_id@);
            assert forall|k: int|
                0 <= k < self.rows().len() implies 1 <= (#[trigger] self.rows()[k]).id
                < self.next() by {
                assert(old(self).rows().contains(self.rows()[k]));
                let x = choose|x: int|
                    0 <= x < old(self).rows().len() && old(self).rows()[x] == self.rows()[k];
            }
            assert forall|i: int, j: int| 0 <= i < j < self.rows().len() implies (
            #[trigger] self.rows()[i]).id != (#[trigger] self.rows()[j]).id by {
                lemma_without_group_distinct(old(self).rows(), group_id@, i, j);
            }
            assert forall|i: int, j: int| 0 <= i < j < self.rows().len() implies (
            #[trigger] self.rows()[i]).group_id@ != (#[trigger] self.rows()[j]).group_id@ by {
                lemma_without_group_distinct(old(self).rows(), group_id@, i, j);
            }
            if self.spec_has_group(group_id@) {
                let k = choose|k: int|
                    0 <= k < self.rows().len() && (#[trigger] self.rows()[k]).group_id@
                        == group_id@;
                assert(without_group(old(self).rows(), group_id@)[k].group_id@ != group_id@);
                assert(false);
            }
        }
        Ok(removed)
    }
}

/// Two kept rows come from two distinct original rows, so both their
/// internal and their external ids still differ when the original had no
/// duplicates.
proof fn lemma_without_group_distinct(s: Seq<GroupInfo>, gid: Seq<char>, i: int, j: int)
    requires
        0 <= i < j < without_group(s, gid).len(),
        forall|x: int, y: int|
            0 <= x < y < s.len() ==> (#[trigger] s[x]).id != (#[trigger] s[y]).id,
        forall|x: int, y: int|
            0 <= x < y < s.len() ==> (#[trigger] s[x]).group_id@ != (#[trigger] s[y]).group_id@,
    ensures
        without_group(s, gid)[i].id != without_group(s, gid)[j].id,
        without_group(s, gid)[i].group_id@ != without_group(s, gid)[j].group_id@,
    decreases s.len(),
{
    if s.len() > 0 {
        let rest = s.drop_last();
        let sub = without_group(rest, gid);
        let out = without_group(s, gid);
        if s.last().group_id@ != gid && j == out.len() - 1 {
            lemma_without_group_props(rest, gid);
            assert(rest.contains(sub[i]));
            let x = choose|x: int| 0 <= x < rest.len() && rest[x] == sub[i];
            assert(s[x].id != s[s.len() - 1].id);
            assert(s[x].group_id@ != s[s.len() - 1].group_id@);
        } else {
            lemma_without_group_distinct(rest, gid, i, j);
        }
    }
}

} // verus!
