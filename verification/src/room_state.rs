//! Room configuration and the host's view of who is in the room.

use vstd::prelude::*;

use std::collections::HashMap;


use vstd::std_specs::iter::IteratorSpec;

use crate::packet::{UserInfo, UserInfoModel};
use crate::time_of_day::{UtcTime, utc_now};
use crate::{DEFAULT_TCP_PORT, DEFAULT_UDP_PORT};

verus! {

broadcast use vstd::std_specs::hash::group_hash_axioms;

/// Room configuration provided when creating a room
#[derive(Debug, Clone)]
pub struct RoomConfig {
    pub room_name: String,
    pub host_name: String,
    pub max_users: u8,
    pub tcp_port: u16,
    pub udp_port: u16,
}

impl Default for RoomConfig {
    /// The default configuration: "ChatCall Room" hosted by "Host", 20 users,
    /// default ports.
    fn default() -> (r: Self)
        ensures
            r.room_name@ == "ChatCall Room"@,
            r.host_name@ == "Host"@,
            r.max_users == 20,
            r.tcp_port == DEFAULT_TCP_PORT,
            r.udp_port == DEFAULT_UDP_PORT,
    {
        Self {
            room_name: String::from_str("ChatCall Room"),
            host_name: String::from_str("Host"),
            max_users: 20,
            tcp_port: DEFAULT_TCP_PORT,
            udp_port: DEFAULT_UDP_PORT,
        }
    }
}

/// Current state of a room
#[derive(Debug, Clone)]
pub struct RoomState {
    pub config: RoomConfig,
    pub users: HashMap<u16, UserInfo>,
    pub next_user_id: u16,
    pub is_active: bool,
    /// When the room was created
    pub created_at: UtcTime,
}

/// The users of a room, by id.
pub open spec fn users_of(s: &RoomState) -> Map<u16, UserInfoModel> {
    s.users@.map_values(|u: UserInfo| u@)
}

/// The room's bookkeeping holds: each user is stored under its own id, no
/// user is the host, and every id is below the next one to hand out.
pub open spec fn room_wf(s: &RoomState) -> bool {
    forall|k: u16|
        #![trigger s.users@.contains_key(k)]
        s.users@.contains_key(k) ==> k < s.next_user_id && s.users@[k].user_id == k
            && !s.users@[k].is_host
}

/// `vs` lists the users of `m`: one entry per user, each a user of `m`,
/// and every user of `m` among them.
pub open spec fn lists_all(vs: Seq<UserInfoModel>, m: Map<u16, UserInfoModel>) -> bool {
    &&& vs.len() == m.len()
    &&& forall|i: int| 0 <= i < vs.len() ==> m.values().contains(#[trigger] vs[i])
    &&& forall|k: u16| #[trigger] m.contains_key(k) ==> vs.contains(m[k])
}

impl RoomState {
    pub fn new(config: RoomConfig) -> (r: Self)
        ensures
            r.config == config,
            r.users@ == Map::<u16, UserInfo>::empty(),
            r.next_user_id == 1,
            r.is_active,
            room_wf(&r),
    {
        Self {
            config,
            users: HashMap::new(),
            next_user_id: 1,  // 0 is reserved for the host
            is_active: true,
            created_at: utc_now(),
        }
    }

    /// Add a user and return their assigned user_id, or `None` when the
    /// room is full.
    pub fn add_user(&mut self, username: String) -> (r: Option<u16>)
        requires
            room_wf(old(self)),
            old(self).next_user_id < u16::MAX,
        ensures
            room_wf(final(self)),
            final(self).config == old(self).config,
            final(self).is_active == old(self).is_active,
            old(self).users@.len() >= old(self).config.max_users ==> r is None && *final(self)
                == *old(self),
            final(self).created_at == old(self).created_at,
            old(self).users@.len() < old(self).config.max_users ==> r == Some(old(self).next_user_id)
                && final(self).next_user_id == old(self).next_user_id + 1 && users_of(final(self))
                == users_of(old(self)).insert(
                old(self).next_user_id,
                UserInfoModel {
                    user_id: old(self).next_user_id,
                    username: username@,
                    is_muted: false,
                    is_host: false,
                },
            ),
    {
        if self.users.len() >= self.config.max_users as usize {
            return None;
        }
        let user_id = self.next_user_id;
        self.next_user_id = self.next_user_id + 1;
        let ghost before = self.users@;
        self.users.insert(user_id, UserInfo { user_id, username, is_muted: false, is_host: false });
        proof {
            assert(users_of(self) =~= before.map_values(|u: UserInfo| u@).insert(
                user_id,
                UserInfoModel { user_id, username: username@, is_muted: false, is_host: false },
            ));
        }
        Some(user_id)
    }

    /// Remove a user
    pub fn remove_user(&mut self, user_id: u16) -> (r: Option<UserInfo>)
        requires
            room_wf(old(self)),
        ensures
            room_wf(final(self)),
            final(self).config == old(self).config,
            final(self).next_user_id == old(self).next_user_id,
            final(self).users@ == old(self).users@.remove(user_id),
            r == old(self).users@.get(user_id),
    {
        self.users.remove(&user_id)
    }

    /// Get user info
    pub fn get_user(&self, user_id: u16) -> (r: Option<&UserInfo>)
        ensures
            r matches Some(u) ==> self.users@.contains_key(user_id) && *u == self.users@[user_id],
            r is None ==> !self.users@.contains_key(user_id),
    {
        self.users.get(&user_id)
    }

    /// Update user mute state (no effect for an unknown user)
    pub fn set_user_muted(&mut self, user_id: u16, muted: bool)
        requires
            room_wf(old(self)),
        ensures
            room_wf(final(self)),
            final(self).config == old(self).config,
            final(self).next_user_id == old(self).next_user_id,
            old(self).users@.contains_key(user_id) ==> users_of(final(self)) == users_of(old(self)).insert(
                user_id,
                UserInfoModel { is_muted: muted, ..users_of(old(self))[user_id] },
            ),
            !old(self).users@.contains_key(user_id) ==> final(self).users@ == old(self).users@,
    {
        let ghost before = self.users@;
        match self.users.remove(&user_id) {
            Some(mut user) => {
                user.is_muted = muted;
                self.users.insert(user_id, user);
                proof {
                    assert(users_of(self) =~= before.map_values(|u: UserInfo| u@).insert(
                        user_id,
                        UserInfoModel { is_muted: muted, ..before[user_id]@ },
                    ));
                }
            },
            None => {
                assert(self.users@ =~= before);
            },
        }
    }

    /// Get all users as a list (in the map's iteration order)
    pub fn user_list(&self) -> (r: Vec<UserInfo>)
        ensures
            lists_all(r@.map_values(|u: UserInfo| u@), users_of(self)),
    {
        let mut out: Vec<UserInfo> = Vec::new();
        let ghost entries = vstd::std_specs::hash::spec_hash_map_iter(&self.users).remaining();
        for pair in it: self.users.iter()
            invariant
                out@.len() == it.index(),
                it.seq() == entries,
                entries.len() == self.users@.len(),
                forall|j: int| 0 <= j < out@.len() ==> #[trigger] out@[j]@ == (*entries[j].1)@,
                forall|j: int|
                    0 <= j < entries.len() ==> self.users@.contains_key(*entries[j].0)
                        && self.users@[*entries[j].0] == *entries[j].1,
                forall|k: u16|
                    #![trigger self.users@.contains_key(k)]
                    self.users@.contains_key(k) ==> entries.contains((&k, &self.users@[k])),
        {
            let (_, u) = pair;
            out.push(u.duplicate());
        }
        proof {
            let vs = out@.map_values(|u: UserInfo| u@);
            let m = users_of(self);
            assert(m.dom() =~= self.users@.dom());
            assert forall|i: int| 0 <= i < vs.len() implies m.values().contains(#[trigger] vs[i]) by {
                let k = *entries[i].0;
                assert(m.contains_key(k) && m[k] == vs[i]);
            }
            assert forall|k: u16| #[trigger] m.contains_key(k) implies vs.contains(m[k]) by {
                assert(self.users@.contains_key(k));
                let i = choose|i: int| 0 <= i < entries.len() && entries[i] == (&k, &self.users@[k]);
                assert(vs[i] == m[k]);
            }
        }
        out
    }

    /// Get user count
    pub fn user_count(&self) -> (r: usize)
        ensures
            r == self.users@.len(),
    {
        self.users.len()
    }

    /// Check if room is full
    pub fn is_full(&self) -> (r: bool)
        ensures
            r == (self.users@.len() >= self.config.max_users),
    {
        self.users.len() >= self.config.max_users as usize
    }
}

/// Ids are never handed out twice: an id `add_user` returns was held by no
/// user, and is above every id held.
pub proof fn lemma_fresh_ids(s: &RoomState)
    requires
        room_wf(s),
    ensures
        !s.users@.contains_key(s.next_user_id),
        forall|k: u16| #[trigger] s.users@.contains_key(k) ==> k < s.next_user_id,
{
}

} // verus!
