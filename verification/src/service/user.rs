//! The admin directory: who may drive the bot's admin menus. The first user
//! to run the start command is granted the admin flag; later grants and
//! revocations go through the operations below.

use vstd::prelude::*;

verus! {

/// One directory row. `user_id` is the external chat-platform id, kept as a
/// string; `is_admin` is flipped rather than the row being deleted when an
/// admin is revoked.
#[derive(Debug)]
pub struct Admin {
    pub id: i64,
    pub user_id: String,
    pub user_name: String,
    pub is_admin: bool,
}

/// The admin directory itself: rows in insertion order plus the next free
/// internal id.
pub struct User {
    admins: Vec<Admin>,
    next_id: i64,
}

/// Copies one row; the copy equals the original.
fn clone_admin(a: &Admin) -> (r: Admin)
    ensures
        r == *a,
{
    Admin {
        id: a.id,
        user_id: a.user_id.clone(),
        user_name: a.user_name.clone(),
        is_admin: a.is_admin,
    }
}

/// Creates an empty admin directory.
pub fn new() -> (r: User)
    ensures
        r.wf(),
        r.rows() == Seq::<Admin>::empty(),
        r.next() == 1,
{
    User { admins: Vec::new(), next_id: 1 }
}

impl User {
    /// The directory rows, in insertion order.
    pub closed spec fn rows(&self) -> Seq<Admin> {
        self.admins@
    }

    /// The internal id the next inserted row will receive.
    pub closed spec fn next(&self) -> int {
        self.next_id as int
    }

    /// Well-formed directory: external user ids are unique (the insert
    /// checks for an existing row first) and ids are assigned in order.
    pub open spec fn wf(&self) -> bool {
        &&& 1 <= self.next()
        &&& forall|i: int, j: int|
            0 <= i < j < self.rows().len() ==> (#[trigger] self.rows()[i]).user_id@ != (
            #[trigger] self.rows()[j]).user_id@
    }

    /// A row with this external id may still be inserted.
    pub open spec fn can_assign(&self) -> bool {
        self.next() < i64::MAX
    }

    /// Some row has the admin flag set.
    pub open spec fn spec_has_admin(&self) -> bool {
        exists|i: int| 0 <= i < self.rows().len() && (#[trigger] self.rows()[i]).is_admin
    }

    /// Some row exists for this external id, admin or not.
    pub open spec fn spec_has_user(&self, uid: Seq<char>) -> bool {
        exists|i: int| 0 <= i < self.rows().len() && (#[trigger] self.rows()[i]).user_id@ == uid
    }

    /// This external id has a row with the admin flag set.
    pub open spec fn spec_is_admin(&self, uid: Seq<char>) -> bool {
        exists|i: int|
            0 <= i < self.rows().len() && (#[trigger] self.rows()[i]).user_id@ == uid
                && self.rows()[i].is_admin
    }

    /// True iff at least one admin row exists.
    pub fn has_admin(&self) -> (r: bool)
        ensures
            r == self.spec_has_admin(),
    {
        let n: usize = self.admins.len();
        let mut i: usize = 0;
        while i < n
            invariant
                i <= n,
                n == self.rows().len(),
                forall|j: int| 0 <= j < i ==> !(#[trigger] self.rows()[j]).is_admin,
            decreases n - i,
        {
            if self.admins[i].is_admin {
                return true;
            }
            i = i + 1;
        }
        false
    }

    /// True iff this external id currently has the admin flag.
    pub fn is_admin(&self, user_id: &str) -> (r: bool)
        ensures
            r == self.spec_is_admin(user_id@),
    {
        let n: usize = self.admins.len();
        let mut i: usize = 0;
        while i < n
            invariant
                i <= n,
                n == self.rows().len(),
                forall|j: int|
                    0 <= j < i ==> !((#[trigger] self.rows()[j]).user_id@ == user_id@
                        && self.rows()[j].is_admin),
            decreases n - i,
        {
            if self.admins[i].is_admin && crate::text::str_eq(self.admins[i].user_id.as_str(),
                user_id,
            ) {
                return true;
            }
            i = i + 1;
        }
        false
    }

    /// Whether a row with this external id exists at all.
    fn has_user(&self, user_id: &str) -> (r: bool)
        ensures
            r == self.spec_has_user(user_id@),
    {
        let n: usize = self.admins.len();
        let mut i: usize = 0;
        while i < n
            invariant
                i <= n,
                n == self.rows().len(),
                forall|j: int| 0 <= j < i ==> (#[trigger] self.rows()[j]).user_id@ != user_id@,
            decreases n - i,
        {
            if crate::text::str_eq(self.admins[i].user_id.as_str(), user_id) {
                return true;
            }
            i = i + 1;
        }
        false
    }

    /// Inserts a new admin row, but only when no row (active or revoked)
    /// exists for this external id; reports whether a row was inserted.
    pub fn add_admin(&mut self, user_id: &str, user_name: &str) -> (r: bool)
        requires
            old(self).wf(),
        ensures
            final(self).wf(),
            r == (!old(self).spec_has_user(user_id@) && old(self).can_assign()),
            !r ==> *final(self) == *old(self),
            r ==> {
                &&& final(self).rows().len() == old(self).rows().len() + 1
                &&& final(self).rows().take(old(self).rows().len() as int) == old(self).rows()
                &&& final(self).rows().last().id == old(self).next()
                &&& final(self).rows().last().user_id@ == user_id@
                &&& final(self).rows().last().user_name@ == user_name@
                &&& final(self).rows().last().is_admin
                &&& final(self).next() == old(self).next() + 1
            },
            final(self).spec_is_admin(user_id@) == (old(self).spec_is_admin(user_id@) || r),
            final(self).spec_has_admin() == (old(self).spec_has_admin() || r),
    {
        if self.has_user(user_id) {
            return false;
        }
        if self.next_id == i64::MAX {
            return false;
        }
        let row = Admin {
            id: self.next_id,
            user_id: user_id.to_owned(),
            user_name: user_name.to_owned(),
            is_admin: true,
        };
        let ghost prev = self.admins@;
        self.admins.push(row);
        self.next_id = self.next_id + 1;
        proof {
            assert(self.admins@.take(prev.len() as int) =~= prev);
            assert(self.rows()[self.rows().len() - 1].is_admin);
            assert forall|i: int, j: int| 0 <= i < j < self.rows().len() implies (
            #[trigger] self.rows()[i]).user_id@ != (#[trigger] self.rows()[j]).user_id@ by {
                if j == self.rows().len() - 1 {
                    assert(!old(self).spec_has_user(user_id@));
                    assert(old(self).rows()[i].user_id@ != user_id@);
                }
            }
            if old(self).spec_is_admin(user_id@) {
                let i = choose|i: int|
                    0 <= i < old(self).rows().len() && (#[trigger] old(self).rows()[i]).user_id@
                        == user_id@ && old(self).rows()[i].is_admin;
                assert(old(self).rows()[i].user_id@ == user_id@);
            }
            if old(self).spec_has_admin() {
                let i = choose|i: int|
                    0 <= i < old(self).rows().len() && (#[trigger] old(self).rows()[i]).is_admin;
                assert(self.rows()[i].is_admin);
            }
        }
        true
    }

    /// Deletes every row with this external id; reports whether any row was
    /// removed.
    pub fn delete_admin(&mut self, user_id: &str) -> (r: bool)
        requires
            old(self).wf(),
        ensures
            final(self).wf(),
            final(self).rows() == without_user(old(self).rows(), user_id@),
            final(self).next() == old(self).next(),
            r == old(self).spec_has_user(user_id@),
            !final(self).spec_has_user(user_id@),
    {
        let n: usize = self.admins.len();
        let mut kept: Vec<Admin> = Vec::new();
        let mut removed: bool = false;
        proof {
            assert(self.rows().take(0) =~= Seq::<Admin>::empty());
        }
        let mut i: usize = 0;
        while i < n
            invariant
                i <= n,
                n == self.rows().len(),
                kept@ == without_user(self.rows().take(i as int), user_id@),
                removed == exists|j: int|
                    0 <= j < i && (#[trigger] self.rows()[j]).user_id@ == user_id@,
            decreases n - i,
        {
            proof {
                lemma_without_user_take_step(self.rows(), user_id@, i as int);
            }
            if crate::text::str_eq(self.admins[i].user_id.as_str(), user_id) {
                removed = true;
            } else {
                kept.push(clone_admin(&self.admins[i]));
            }
            i = i + 1;
        }
        proof {
            assert(self.rows().take(n as int) =~= self.rows());
        }
        self.admins = kept;
        proof {
            lemma_without_user_props(old(self).rows(), user_id@);
            if self.spec_has_user(user_id@) {
                let k = choose|k: int|
                    0 <= k < self.rows().len() && (#[trigger] self.rows()[k]).user_id@
                        == user_id@;
                assert(without_user(old(self).rows(), user_id@)[k].user_id@ != user_id@);
                assert(false);
            }
        }
        removed
    }

    /// Clears the admin flag on the active row for this external id;
    /// reports whether an active admin row was found.
    pub fn cancel_admin(&mut self, user_id: &str) -> (r: bool)
        requires
            old(self).wf(),
        ensures
            final(self).wf(),
            final(self).next() == old(self).next(),
            final(self).rows().len() == old(self).rows().len(),
            forall|i: int|
                0 <= i < old(self).rows().len() ==> cancel_step(
                    #[trigger] final(self).rows()[i],
                    old(self).rows()[i],
                    user_id@,
                    true,
                ),
            r == old(self).spec_is_admin(user_id@),
            !final(self).spec_is_admin(user_id@),
    {
        let n: usize = self.admins.len();
        let mut changed: bool = false;
        let mut i: usize = 0;
        while i < n
            invariant
                i <= n,
                n == self.rows().len(),
                n == old(self).rows().len(),
                self.next() == old(self).next(),
                forall|j: int|
                    0 <= j < old(self).rows().len() ==> cancel_step(
                        #[trigger] self.rows()[j],
                        old(self).rows()[j],
                        user_id@,
                        j < i,
                    ),
                changed == exists|j: int|
                    0 <= j < i && (#[trigger] old(self).rows()[j]).user_id@ == user_id@ && old(
                        self,
                    ).rows()[j].is_admin,
            decreases n - i,
        {
            proof {
                assert(cancel_step(self.rows()[i as int], old(self).rows()[i as int], user_id@,
                    false,
                ));
            }
            if self.admins[i].is_admin && crate::text::str_eq(self.admins[i].user_id.as_str(),
                user_id,
            ) {
                let row = clone_admin(&self.admins[i]);
                let cleared = Admin { is_admin: false, ..row };
                self.admins.set(i, cleared);
                changed = true;
            }
            i = i + 1;
        }
        proof {
            if self.spec_is_admin(user_id@) {
                let i = choose|i: int|
                    0 <= i < self.rows().len() && (#[trigger] self.rows()[i]).user_id@ == user_id@
                        && self.rows()[i].is_admin;
                assert(cancel_step(self.rows()[i], old(self).rows()[i], user_id@, true));
                assert(false);
            }
            if old(self).spec_is_admin(user_id@) {
                let i = choose|i: int|
                    0 <= i < old(self).rows().len() && (#[trigger] old(self).rows()[i]).user_id@
                        == user_id@ && old(self).rows()[i].is_admin;
                assert(cancel_step(self.rows()[i], old(self).rows()[i], user_id@, true));
            }
        }
        changed
    }

    /// Restores the admin flag on a revoked row for this external id;
    /// reports whether a revoked row was found.
    pub fn set_admin(&mut self, user_id: &str) -> (r: bool)
        requires
            old(self).wf(),
        ensures
            final(self).wf(),
            final(self).next() == old(self).next(),
            final(self).rows().len() == old(self).rows().len(),
            forall|i: int|
                0 <= i < old(self).rows().len() ==> raise_step(
                    #[trigger] final(self).rows()[i],
                    old(self).rows()[i],
                    user_id@,
                    true,
                ),
            r == (old(self).spec_has_user(user_id@) && !old(self).spec_is_admin(user_id@)),
    {
        let n: usize = self.admins.len();
        let mut changed: bool = false;
        let mut i: usize = 0;
        while i < n
            invariant
                i <= n,
                n == self.rows().len(),
                n == old(self).rows().len(),
                self.next() == old(self).next(),
                forall|j: int|
                    0 <= j < old(self).rows().len() ==> raise_step(
                        #[trigger] self.rows()[j],
                        old(self).rows()[j],
                        user_id@,
                        j < i,
                    ),
                changed == exists|j: int|
                    0 <= j < i && (#[trigger] old(self).rows()[j]).user_id@ == user_id@ && !old(
                        self,
                    ).rows()[j].is_admin,
            decreases n - i,
        {
            proof {
                assert(raise_step(self.rows()[i as int], old(self).rows()[i as int], user_id@,
                    false,
                ));
            }
            if !self.admins[i].is_admin && crate::text::str_eq(self.admins[i].user_id.as_str(),
                user_id,
            ) {
                let row = clone_admin(&self.admins[i]);
                let raised = Admin { is_admin: true, ..row };
                self.admins.set(i, raised);
                changed = true;
            }
            i = i + 1;
        }
        proof {
            if old(self).spec_has_user(user_id@) && !old(self).spec_is_admin(user_id@) {
                let i = choose|i: int|
                    0 <= i < old(self).rows().len() && (#[trigger] old(self).rows()[i]).user_id@
                        == user_id@;
                assert(!old(self).rows()[i].is_admin);
            }
            if changed {
                let i = choose|j: int|
                    0 <= j < old(self).rows().len() && (#[trigger] old(self).rows()[j]).user_id@
                        == user_id@ && !old(self).rows()[j].is_admin;
                if old(self).spec_is_admin(user_id@) {
                    let k = choose|k: int|
                        0 <= k < old(self).rows().len() && (#[trigger] old(self).rows()[k]).user_id@
                            == user_id@ && old(self).rows()[k].is_admin;
                    assert(i != k);
                    assert(false);
                }
            }
        }
        changed
    }

    /// Renames the rows carrying this external id; reports whether any row
    /// matched.
    pub fn set_admin_name(&mut self, user_id: &str, name: &str) -> (r: bool)
        requires
            old(self).wf(),
        ensures
            final(self).wf(),
            final(self).next() == old(self).next(),
            final(self).rows().len() == old(self).rows().len(),
            forall|i: int|
                0 <= i < old(self).rows().len() ==> rename_step(
                    #[trigger] final(self).rows()[i],
                    old(self).rows()[i],
                    user_id@,
                    name@,
                    true,
                ),
            r == old(self).spec_has_user(user_id@),
    {
        let n: usize = self.admins.len();
        let mut changed: bool = false;
        let mut i: usize = 0;
        while i < n
            invariant
                i <= n,
                n == self.rows().len(),
                n == old(self).rows().len(),
                self.next() == old(self).next(),
                forall|j: int|
                    0 <= j < old(self).rows().len() ==> rename_step(
                        #[trigger] self.rows()[j],
                        old(self).rows()[j],
                        user_id@,
                        name@,
                        j < i,
                    ),
                changed == exists|j: int|
                    0 <= j < i && (#[trigger] old(self).rows()[j]).user_id@ == user_id@,
            decreases n - i,
        {
            proof {
                assert(rename_step(self.rows()[i as int], old(self).rows()[i as int], user_id@,
                    name@, false,
                ));
            }
            if crate::text::str_eq(self.admins[i].user_id.as_str(), user_id) {
                let row = clone_admin(&self.admins[i]);
                let named = Admin { user_name: name.to_owned(), ..row };
                self.admins.set(i, named);
                changed = true;
            }
            i = i + 1;
        }
        changed
    }

    /// All directory rows, in insertion order.
    pub fn all_admins(&self) -> (r: Vec<Admin>)
        ensures
            r@ == self.rows(),
    {
        let n: usize = self.admins.len();
        let mut out: Vec<Admin> = Vec::new();
        let mut i: usize = 0;
        while i < n
            invariant
                i <= n,
                n == self.rows().len(),
                out@ == self.rows().take(i as int),
            decreases n - i,
        {
            out.push(clone_admin(&self.admins[i]));
            proof {
                assert(out@ =~= self.rows().take(i + 1 as int));
            }
            i = i + 1;
        }
        proof {
            assert(self.rows().take(n as int) =~= self.rows());
        }
        out
    }
}

/// How one row changes under `cancel_admin`: once processed (`done`), a
/// matching active row loses its flag; every other row is untouched.
pub open spec fn cancel_step(b: Admin, a: Admin, uid: Seq<char>, done: bool) -> bool {
    if done && a.user_id@ == uid && a.is_admin {
        flag_cleared(b, a)
    } else {
        b == a
    }
}

/// How one row changes under `set_admin`: once processed, a matching
/// revoked row regains its flag; every other row is untouched.
pub open spec fn raise_step(b: Admin, a: Admin, uid: Seq<char>, done: bool) -> bool {
    if done && a.user_id@ == uid && !a.is_admin {
        flag_set(b, a)
    } else {
        b == a
    }
}

/// How one row changes under `set_admin_name`: once processed, a matching
/// row takes the new display name; every other row is untouched.
pub open spec fn rename_step(b: Admin, a: Admin, uid: Seq<char>, name: Seq<char>, done: bool) -> bool {
    if done && a.user_id@ == uid {
        renamed(b, a, name)
    } else {
        b == a
    }
}

/// The row kept everything but its admin flag, now cleared.
pub open spec fn flag_cleared(b: Admin, a: Admin) -> bool {
    b.id == a.id && b.user_id@ == a.user_id@ && b.user_name@ == a.user_name@ && !b.is_admin
}

/// The row kept everything but its admin flag, now set.
pub open spec fn flag_set(b: Admin, a: Admin) -> bool {
    b.id == a.id && b.user_id@ == a.user_id@ && b.user_name@ == a.user_name@ && b.is_admin
}

/// The row kept everything but its display name, now `name`.
pub open spec fn renamed(b: Admin, a: Admin, name: Seq<char>) -> bool {
    b.id == a.id && b.user_id@ == a.user_id@ && b.user_name@ == name && b.is_admin == a.is_admin
}

/// The rows of `s` whose external id is not `uid`, in their original order.
pub open spec fn without_user(s: Seq<Admin>, uid: Seq<char>) -> Seq<Admin>
    decreases s.len(),
{
    if s.len() == 0 {
        Seq::empty()
    } else if s.last().user_id@ == uid {
        without_user(s.drop_last(), uid)
    } else {
        without_user(s.drop_last(), uid).push(s.last())
    }
}

/// Removing a user from a one-longer prefix keeps or drops exactly the new
/// last row.
proof fn lemma_without_user_take_step(s: Seq<Admin>, uid: Seq<char>, i: int)
    requires
        0 <= i < s.len(),
    ensures
        without_user(s.take(i + 1), uid) == if s[i].user_id@ == uid {
            without_user(s.take(i), uid)
        } else {
            without_user(s.take(i), uid).push(s[i])
        },
{
    assert(s.take(i + 1).drop_last() =~= s.take(i));
    assert(s.take(i + 1).last() == s[i]);
}

/// What removal leaves behind: no row for `uid`, every row drawn from `s`,
/// and (when `s` had no duplicate ids) still no duplicate ids.
proof fn lemma_without_user_props(s: Seq<Admin>, uid: Seq<char>)
    requires
        forall|i: int, j: int|
            0 <= i < j < s.len() ==> (#[trigger] s[i]).user_id@ != (#[trigger] s[j]).user_id@,
    ensures
        forall|k: int|
            0 <= k < without_user(s, uid).len() ==> (#[trigger] without_user(s, uid)[k]).user_id@
                != uid,
        forall|k: int|
            0 <= k < without_user(s, uid).len() ==> s.contains(
                #[trigger] without_user(s, uid)[k],
            ),
        forall|i: int, j: int|
            0 <= i < j < without_user(s, uid).len() ==> (#[trigger] without_user(s, uid)[i]).user_id@
                != (#[trigger] without_user(s, uid)[j]).user_id@,
    decreases s.len(),
{
    if s.len() > 0 {
        let rest = s.drop_last();
        let sub = without_user(rest, uid);
        let out = without_user(s, uid);
        lemma_without_user_props(rest, uid);
        assert forall|k: int| 0 <= k < sub.len() implies s.contains(#[trigger] sub[k]) by {
            assert(rest.contains(sub[k]));
            let x = choose|x: int| 0 <= x < rest.len() && rest[x] == sub[k];
            assert(s[x] == sub[k]);
        }
        if s.last().user_id@ != uid {
            assert(out == sub.push(s.last()));
            assert(s[s.len() - 1] == out[out.len() - 1]);
            assert forall|i: int, j: int| 0 <= i < j < out.len() implies (#[trigger] out[i]).user_id@
                != (#[trigger] out[j]).user_id@ by {
                if j == out.len() - 1 {
                    assert(rest.contains(sub[i]));
                    let x = choose|x: int| 0 <= x < rest.len() && rest[x] == sub[i];
                    assert(s[x].user_id@ != s[s.len() - 1].user_id@);
                }
            }
        }
    }
}

} // verus!
