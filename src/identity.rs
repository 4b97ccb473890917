use vstd::prelude::*;

use crate::key_index::KeyIndex;
use crate::user::{opt_str_view, OwnedUser, User, UserArgument, UserView};

verus! {

pub open spec fn insert_opt(m: Map<Seq<char>, usize>, k: Option<Seq<char>>, v: usize) -> Map<
    Seq<char>,
    usize,
> {
    match k {
        Some(k) => m.insert(k, v),
        None => m,
    }
}

pub open spec fn remove_opt(m: Map<Seq<char>, usize>, k: Option<Seq<char>>) -> Map<Seq<char>, usize> {
    match k {
        Some(k) => m.remove(k),
        None => m,
    }
}

/// A known user after being seen as `c`: names as `c` has them, the id kept once known.
pub open spec fn merged(u: UserView, c: UserView) -> UserView {
    UserView {
        username: c.username,
        display_name: c.display_name,
        user_id: if u.user_id is None && c.user_id is Some {
            c.user_id
        } else {
            u.user_id
        },
    }
}

/// `next` is `prev` after `c` was seen and recorded at position `r`.
pub open spec fn seen_as(prev: IdentityIndex, next: IdentityIndex, c: UserView, r: usize) -> bool {
    match prev.index_of(c) {
        Some(i) => {
            let u = prev.users()[i as int];
            &&& r == i
            &&& next.users() == prev.users().update(i as int, merged(u, c))
            &&& next.usernames() == if u.username != c.username {
                prev.usernames().remove(u.username).insert(c.username, i)
            } else {
                prev.usernames()
            }
            &&& next.display_names() == if u.display_name != c.display_name {
                insert_opt(
                    remove_opt(prev.display_names(), u.display_name),
                    c.display_name,
                    i,
                )
            } else {
                prev.display_names()
            }
            &&& next.user_ids() == if u.user_id is None && c.user_id is Some {
                insert_opt(prev.user_ids(), c.user_id, i)
            } else {
                prev.user_ids()
            }
        },
        None => {
            &&& r == prev.users().len()
            &&& next.users() == prev.users().push(c)
            &&& next.usernames() == prev.usernames().insert(
                c.username,
                r,
            )
            &&& next.display_names() == insert_opt(
                prev.display_names(),
                c.display_name,
                r,
            )
            &&& next.user_ids() == insert_opt(
                prev.user_ids(),
                c.user_id,
                r,
            )
        },
    }
}

/// Every user seen so far, with lookups by login name, display name and id.
pub struct IdentityIndex {
    usernames: KeyIndex,
    display_names: KeyIndex,
    user_ids: KeyIndex,
    users: Vec<OwnedUser>,
}

impl IdentityIndex {
    pub closed spec fn usernames(&self) -> Map<Seq<char>, usize> {
        self.usernames.view()
    }

    pub closed spec fn display_names(&self) -> Map<Seq<char>, usize> {
        self.display_names.view()
    }

    pub closed spec fn user_ids(&self) -> Map<Seq<char>, usize> {
        self.user_ids.view()
    }

    pub closed spec fn users(&self) -> Seq<UserView> {
        self.users@.map_values(|u: OwnedUser| u@)
    }

    /// Each lookup leads to a user that has that key now, and every known id can be looked
    /// up.
    pub open spec fn wf(&self) -> bool {
        &&& self.inner_wf()
        &&& forall|k: Seq<char>| #[trigger]
            self.usernames().contains_key(k) ==> self.usernames()[k] < self.users().len()
                && self.users()[self.usernames()[k] as int].username == k
        &&& forall|k: Seq<char>| #[trigger]
            self.display_names().contains_key(k) ==> self.display_names()[k] < self.users().len()
                && self.users()[self.display_names()[k] as int].display_name == Some(k)
        &&& forall|k: Seq<char>| #[trigger]
            self.user_ids().contains_key(k) ==> self.user_ids()[k] < self.users().len()
                && self.users()[self.user_ids()[k] as int].user_id == Some(k)
        &&& forall|i: int|
            0 <= i < self.users().len() && (#[trigger] self.users()[i]).user_id is Some ==> {
                let y = self.users()[i].user_id->0;
                self.user_ids().contains_key(y) && self.user_ids()[y] == i
            }
    }

    pub closed spec fn inner_wf(&self) -> bool {
        self.usernames.wf() && self.display_names.wf() && self.user_ids.wf()
    }

    /// Where `c` is found: by id when it has one, else by login name.
    pub open spec fn index_of(&self, c: UserView) -> Option<usize> {
        match c.user_id {
            Some(y) => if self.user_ids().contains_key(y) {
                Some(self.user_ids()[y])
            } else {
                None
            },
            None => if self.usernames().contains_key(c.username) {
                Some(self.usernames()[c.username])
            } else {
                None
            },
        }
    }

    pub fn new() -> (r: Self)
        ensures
            r.wf(),
            r.users().len() == 0,
            r.usernames().is_empty(),
            r.display_names().is_empty(),
            r.user_ids().is_empty(),
    {
        let r = IdentityIndex {
            usernames: KeyIndex::new(),
            display_names: KeyIndex::new(),
            user_ids: KeyIndex::new(),
            users: Vec::new(),
        };
        proof {
            assert(r.users() =~= Seq::<UserView>::empty());
        }
        r
    }

    pub fn index(&self, chatter: &User) -> (r: Option<usize>)
        requires
            self.wf(),
        ensures
            r == self.index_of(chatter@),
    {
        match chatter.user_id() {
            Some(id) => self.user_ids.get(id.as_str()),
            None => self.usernames.get(chatter.username()),
        }
    }

    /// Looks a named user up by login name, then by display name.
    pub fn index_from_userargument(&self, user: &UserArgument) -> (r: Option<usize>)
        requires
            self.wf(),
        ensures
            r == (if self.usernames().contains_key(user.text()) {
                Some(self.usernames()[user.text()])
            } else if self.display_names().contains_key(user.text()) {
                Some(self.display_names()[user.text()])
            } else {
                None
            }),
    {
        match self.usernames.get(user.as_argument()) {
            Some(i) => Some(i),
            None => self.display_names.get(user.as_argument()),
        }
    }

    /// The user a named user resolves to.
    pub fn get(&self, user: &UserArgument) -> (r: Option<OwnedUser>)
        requires
            self.wf(),
        ensures
            match self.index_from_userargument_spec(user.text()) {
                Some(i) => r matches Some(u) && u@ == self.users()[i as int],
                None => r is None,
            },
    {
        match self.index_from_userargument(user) {
            Some(i) => {
                assert(self.users()[i as int] == self.users@[i as int]@);
                Some(self.users[i].clone_user())
            },
            None => None,
        }
    }

    pub open spec fn index_from_userargument_spec(&self, t: Seq<char>) -> Option<usize> {
        if self.usernames().contains_key(t) {
            Some(self.usernames()[t])
        } else if self.display_names().contains_key(t) {
            Some(self.display_names()[t])
        } else {
            None
        }
    }

    /// `Some` position when `chatter` is known under the same names; `None` when it is new or
    /// a name changed.
    pub fn needs_update_or_insert(&self, chatter: &User) -> (r: Option<usize>)
        requires
            self.wf(),
        ensures
            match self.index_of(chatter@) {
                Some(i) => if self.users()[i as int].username == chatter@.username
                    && self.users()[i as int].display_name == chatter@.display_name {
                    r == Some(i)
                } else {
                    r is None
                },
                None => r is None,
            },
    {
        match self.index(chatter) {
            Some(index) => {
                let user = &self.users[index];
                assert(self.users()[index as int] == user@);
                if crate::matcher::same_text(user.username(), chatter.username())
                    && opt_eq(user.display_name(), chatter.display_name()) {
                    Some(index)
                } else {
                    None
                }
            },
            None => None,
        }
    }

    /// Adds a user that is not known yet.
    fn insert(&mut self, chatter: &User) -> (r: usize)
        requires
            old(self).wf(),
            old(self).index_of(chatter@) is None,
        ensures
            final(self).wf(),
            r == old(self).users().len(),
            final(self).users() == old(self).users().push(chatter@),
            final(self).usernames() == old(self).usernames().insert(chatter@.username, r),
            final(self).display_names() == insert_opt(
                old(self).display_names(),
                chatter@.display_name,
                r,
            ),
            final(self).user_ids() == insert_opt(old(self).user_ids(), chatter@.user_id, r),
    {
        let index = self.users.len();
        self.users.push(OwnedUser::from_user(chatter));
        self.usernames.insert(chatter.username(), index);
        match chatter.display_name() {
            Some(d) => self.display_names.insert(d, index),
            None => {},
        }
        match chatter.user_id() {
            Some(id) => self.user_ids.insert(id.as_str(), index),
            None => {},
        }
        proof {
            assert(self.users() =~= old(self).users().push(chatter@));
            self.lemma_wf_after_insert(old(self), chatter@, index);
        }
        index
    }

    proof fn lemma_wf_after_insert(&self, prev: &Self, c: UserView, n: usize)
        requires
            n == prev.users().len(),
            prev.wf(),
            self.inner_wf(),
            prev.index_of(c) is None,
            self.users() == prev.users().push(c),
            self.usernames() == prev.usernames().insert(c.username, n),
            self.display_names() == insert_opt(
                prev.display_names(),
                c.display_name,
                n,
            ),
            self.user_ids() == insert_opt(prev.user_ids(), c.user_id, n),
        ensures
            self.wf(),
    {
        assert(self.users()[n as int] == c);
        assert forall|k: Seq<char>| #[trigger] self.usernames().contains_key(k) implies self.usernames()[k]
            < self.users().len() && self.users()[self.usernames()[k] as int].username == k by {
            if k != c.username {
                assert(prev.usernames().contains_key(k));
                assert(self.users()[prev.usernames()[k] as int] == prev.users()[prev.usernames()[k] as int]);
            }
        }
        assert forall|k: Seq<char>| #[trigger] self.display_names().contains_key(k) implies self.display_names()[k]
            < self.users().len() && self.users()[self.display_names()[k] as int].display_name
            == Some(k) by {
            if Some(k) != c.display_name {
                assert(prev.display_names().contains_key(k));
                assert(self.users()[prev.display_names()[k] as int] == prev.users()[prev.display_names()[k] as int]);
            }
        }
        assert forall|k: Seq<char>| #[trigger] self.user_ids().contains_key(k) implies self.user_ids()[k]
            < self.users().len() && self.users()[self.user_ids()[k] as int].user_id == Some(k) by {
            if Some(k) != c.user_id {
                assert(prev.user_ids().contains_key(k));
                assert(self.users()[prev.user_ids()[k] as int] == prev.users()[prev.user_ids()[k] as int]);
            }
        }
        assert forall|i: int|
            0 <= i < self.users().len() && (#[trigger] self.users()[i]).user_id is Some implies {
            let y = self.users()[i].user_id->0;
            self.user_ids().contains_key(y) && self.user_ids()[y] == i
        } by {
            if i < n {
                assert(self.users()[i] == prev.users()[i]);
                let y = prev.users()[i].user_id->0;
                assert(prev.user_ids().contains_key(y));
                if c.user_id == Some(y) {
                    assert(prev.index_of(c) is Some);
                }
            } else {
                assert(i == n);
            }
        }
    }

    /// Records `chatter` as seen: a known user (by id, else by login name) takes its new
    /// names and, once, its id, and the lookups follow every change; an unknown one is
    /// added. Returns the user's position.
    pub fn update_or_insert(&mut self, chatter: &User) -> (r: usize)
        requires
            old(self).wf(),
        ensures
            final(self).wf(),
            seen_as(*old(self), *final(self), chatter@, r),
    {
        match self.index(chatter) {
            None => self.insert(chatter),
            Some(index) => {
                let ghost u = self.users()[index as int];
                assert(u == self.users@[index as int]@);
                let mut user = self.users[index].clone_user();
                let previous_username = user.update_username(chatter.username());
                let previous_display_name = user.update_display_name(chatter.display_name());
                let insert_user_id = user.set_user_id(chatter.user_id());
                assert(user@ == merged(u, chatter@));
                self.users.set(index, user);
                match previous_username {
                    Some(previous) => {
                        self.usernames.remove(previous.as_str());
                        self.usernames.insert(chatter.username(), index);
                    },
                    None => {},
                }
                match previous_display_name {
                    Some(previous) => {
                        match previous {
                            Some(p) => self.display_names.remove(p.as_str()),
                            None => {},
                        }
                        match chatter.display_name() {
                            Some(d) => self.display_names.insert(d, index),
                            None => {},
                        }
                    },
                    None => {},
                }
                match insert_user_id {
                    Some(id) => self.user_ids.insert(id.as_str(), index),
                    None => {},
                }
                proof {
                    assert(self.users() =~= old(self).users().update(index as int, merged(u, chatter@)));
                    self.lemma_wf_after_update(old(self), chatter@, index);
                }
                index
            },
        }
    }

    proof fn lemma_wf_after_update(&self, prev: &Self, c: UserView, i: usize)
        requires
            prev.wf(),
            self.inner_wf(),
            prev.index_of(c) == Some(i),
            self.users() == prev.users().update(i as int, merged(prev.users()[i as int], c)),
            self.usernames() == if prev.users()[i as int].username != c.username {
                prev.usernames().remove(prev.users()[i as int].username).insert(c.username, i)
            } else {
                prev.usernames()
            },
            self.display_names() == if prev.users()[i as int].display_name != c.display_name {
                insert_opt(
                    remove_opt(prev.display_names(), prev.users()[i as int].display_name),
                    c.display_name,
                    i,
                )
            } else {
                prev.display_names()
            },
            self.user_ids() == if prev.users()[i as int].user_id is None && c.user_id is Some {
                insert_opt(prev.user_ids(), c.user_id, i)
            } else {
                prev.user_ids()
            },
        ensures
            self.wf(),
    {
        let u = prev.users()[i as int];
        assert(0 <= i < prev.users().len()) by {
            match c.user_id {
                Some(y) => {
                    assert(prev.user_ids().contains_key(y));
                },
                None => {
                    assert(prev.usernames().contains_key(c.username));
                },
            }
        }
        assert forall|k: Seq<char>| #[trigger] self.usernames().contains_key(k) implies self.usernames()[k]
            < self.users().len() && self.users()[self.usernames()[k] as int].username == k by {
            if k != c.username {
                assert(prev.usernames().contains_key(k));
                let j = prev.usernames()[k] as int;
                if j == i as int {
                    assert(u.username == k);
                } else {
                    assert(self.users()[j] == prev.users()[j]);
                }
            }
        }
        assert forall|k: Seq<char>| #[trigger] self.display_names().contains_key(k) implies self.display_names()[k]
            < self.users().len() && self.users()[self.display_names()[k] as int].display_name
            == Some(k) by {
            if Some(k) != c.display_name {
                assert(prev.display_names().contains_key(k));
                let j = prev.display_names()[k] as int;
                if j == i as int {
                    assert(u.display_name == Some(k));
                } else {
                    assert(self.users()[j] == prev.users()[j]);
                }
            }
        }
        assert forall|k: Seq<char>| #[trigger] self.user_ids().contains_key(k) implies self.user_ids()[k]
            < self.users().len() && self.users()[self.user_ids()[k] as int].user_id == Some(k) by {
            if !(u.user_id is None && c.user_id == Some(k)) {
                assert(prev.user_ids().contains_key(k));
                let j = prev.user_ids()[k] as int;
                if j != i as int {
                    assert(self.users()[j] == prev.users()[j]);
                }
            }
        }
        assert forall|j: int|
            0 <= j < self.users().len() && (#[trigger] self.users()[j]).user_id is Some implies {
            let y = self.users()[j].user_id->0;
            self.user_ids().contains_key(y) && self.user_ids()[y] == j
        } by {
            if j != i as int {
                assert(self.users()[j] == prev.users()[j]);
            } else if u.user_id is Some {
                assert(self.users()[j].user_id == u.user_id);
            }
        }
    }
}

fn opt_eq(a: Option<&str>, b: Option<&str>) -> (r: bool)
    ensures
        r == (opt_str_view(a) == opt_str_view(b)),
{
    match (a, b) {
        (Some(x), Some(y)) => crate::matcher::same_text(x, y),
        (None, None) => true,
        _ => false,
    }
}

/// Renaming a known user's display name moves the display-name lookup: the old name no
/// longer resolves, the new one resolves to that user, and no two users share an id.
pub proof fn lemma_display_name_rename(
    prev: IdentityIndex,
    next: IdentityIndex,
    c: UserView,
    r: usize,
    old_name: Seq<char>,
    new_name: Seq<char>,
)
    requires
        prev.wf(),
        next.wf(),
        seen_as(prev, next, c, r),
        prev.index_of(c) is Some,
        prev.users()[prev.index_of(c)->0 as int].display_name == Some(old_name),
        c.display_name == Some(new_name),
        old_name != new_name,
    ensures
        r == prev.index_of(c)->0,
        !next.display_names().contains_key(old_name),
        next.display_names().contains_key(new_name) && next.display_names()[new_name] == r,
        next.users().len() == prev.users().len(),
        forall|i: int, j: int|
            0 <= i < next.users().len() && 0 <= j < next.users().len() && (#[trigger] next.users()[i]).user_id
                is Some && next.users()[i].user_id == (#[trigger] next.users()[j]).user_id ==> i == j,
{
    assert forall|i: int, j: int|
        0 <= i < next.users().len() && 0 <= j < next.users().len() && (#[trigger] next.users()[i]).user_id
            is Some && next.users()[i].user_id == (#[trigger] next.users()[j]).user_id implies i == j by {
        let y = next.users()[i].user_id->0;
        assert(next.user_ids()[y] == i);
        assert(next.user_ids()[y] == j);
    }
}

} // verus!
