//! The users of the system, by number, with the user filter already applied.

use crate::filter::{accepts, Filters};
use crate::stats::User;
use libc::uid_t;
use regex::bytes::Regex;
use std::collections::HashMap;
use vstd::prelude::*;
use vstd::slice::slice_to_vec;

verus! {

/// What the directory holds for a user.
pub enum UserEntry {
    /// The user filter lets the name pass.
    Known(Vec<u8>),
    /// The user filter holds the name back.
    Excluded,
}

/// What the directory holds for a user, the name as a byte string.
pub enum EntryView {
    Known(Seq<u8>),
    Excluded,
}

impl View for UserEntry {
    type V = EntryView;

    open spec fn view(&self) -> EntryView {
        match self {
            UserEntry::Known(name) => EntryView::Known(name@),
            UserEntry::Excluded => EntryView::Excluded,
        }
    }
}

/// The entry of a user with the given name under a user filter.
pub open spec fn entry_for(name: Seq<u8>, filter: Option<Regex>) -> EntryView {
    if accepts(filter, name) {
        EntryView::Known(name)
    } else {
        EntryView::Excluded
    }
}

/// The directory of a list of users under a user filter: each user's number
/// leads to the entry for the name. Where a number occurs more than once,
/// its last occurrence decides.
pub open spec fn directory_of(users: Seq<User>, filter: Option<Regex>) -> Map<uid_t, EntryView>
    decreases users.len(),
{
    if users.len() == 0 {
        Map::empty()
    } else {
        directory_of(users.drop_last(), filter).insert(
            users.last().uid,
            entry_for(users.last().name@, filter),
        )
    }
}

/// The owner that a directory gives for a user number: none where the
/// number leads to an excluded entry, the name where it leads to a known
/// one, and an empty name where it leads nowhere.
pub open spec fn owner_in(directory: Map<uid_t, EntryView>, uid: uid_t) -> Option<Seq<u8>> {
    if directory.dom().contains(uid) {
        match directory[uid] {
            EntryView::Known(name) => Some(name),
            EntryView::Excluded => None,
        }
    } else {
        Some(Seq::empty())
    }
}

/// A number is in the directory exactly if a user of the list has it.
pub proof fn lemma_directory_holds(users: Seq<User>, filter: Option<Regex>, uid: uid_t)
    ensures
        directory_of(users, filter).dom().contains(uid) <==> exists|i: int|
            0 <= i < users.len() && (#[trigger] users[i]).uid == uid,
    decreases users.len(),
{
    if users.len() > 0 {
        let front = users.drop_last();
        lemma_directory_holds(front, filter, uid);
        if users.last().uid == uid {
            assert(users[users.len() - 1].uid == uid);
        } else if directory_of(front, filter).dom().contains(uid) {
            let i = choose|i: int| 0 <= i < front.len() && (#[trigger] front[i]).uid == uid;
            assert(users[i].uid == uid);
        } else if exists|i: int| 0 <= i < users.len() && (#[trigger] users[i]).uid == uid {
            let i = choose|i: int| 0 <= i < users.len() && (#[trigger] users[i]).uid == uid;
            assert(front[i].uid == uid);
        }
    }
}

/// The last user of the list that has a number decides the entry of that number.
pub proof fn lemma_directory_last_decides(users: Seq<User>, filter: Option<Regex>, i: int)
    requires
        0 <= i < users.len(),
        forall|j: int| i < j < users.len() ==> (#[trigger] users[j]).uid != users[i].uid,
    ensures
        directory_of(users, filter).dom().contains(users[i].uid),
        directory_of(users, filter)[users[i].uid] == entry_for(users[i].name@, filter),
    decreases users.len(),
{
    if i < users.len() - 1 {
        let front = users.drop_last();
        assert(front[i] == users[i]);
        assert forall|j: int| i < j < front.len() implies (#[trigger] front[j]).uid
            != front[i].uid by {
            assert(front[j] == users[j]);
        }
        lemma_directory_last_decides(front, filter, i);
        assert(users[users.len() - 1].uid != users[i].uid);
    }
}

/// The users of the system by number, each known by name or excluded.
pub struct UserDirectory {
    entries: HashMap<uid_t, UserEntry>,
}

impl View for UserDirectory {
    type V = Map<uid_t, EntryView>;

    closed spec fn view(&self) -> Map<uid_t, EntryView> {
        self.entries@.map_values(|entry: UserEntry| entry@)
    }
}

impl UserDirectory {
    /// The directory of the given users under the user filter.
    pub fn build(users: &Vec<User>, filters: &Filters) -> (r: UserDirectory)
        ensures
            r@ == directory_of(users@, filters@.user),
    {
        let mut entries: HashMap<uid_t, UserEntry> = HashMap::new();
        let mut i: usize = 0;
        while i < users.len()
            invariant
                i <= users@.len(),
                entries@.map_values(|entry: UserEntry| entry@) == directory_of(
                    users@.take(i as int),
                    filters@.user,
                ),
            decreases users@.len() - i,
        {
            let user = &users[i];
            let entry = if filters.accept_user(user.name.as_slice()) {
                UserEntry::Known(slice_to_vec(user.name.as_slice()))
            } else {
                UserEntry::Excluded
            };
            let ghost before = entries@;
            entries.insert(user.uid, entry);
            proof {
                assert(users@.take(i + 1).drop_last() =~= users@.take(i as int));
                assert(before.insert(user.uid, entry).map_values(|entry: UserEntry| entry@)
                    =~= before.map_values(|entry: UserEntry| entry@).insert(user.uid, entry@));
            }
            i = i + 1;
        }
        assert(users@.take(users@.len() as int) =~= users@);
        UserDirectory { entries }
    }

    /// The owner that has the given number, unless the user filter holds that
    /// user back. A number that the directory does not hold gives an owner
    /// without a name.
    pub fn resolve(&self, uid: uid_t) -> (r: Option<User>)
        ensures
            match owner_in(self@, uid) {
                Some(name) => r is Some && r->Some_0.uid == uid && r->Some_0.name@ == name,
                None => r is None,
            },
    {
        match self.entries.get(&uid) {
            Some(UserEntry::Known(name)) => Some(User { uid, name: slice_to_vec(name.as_slice()) }),
            Some(UserEntry::Excluded) => None,
            None => Some(User { uid, name: Vec::new() }),
        }
    }
}

} // verus!
