//! Records the desktop shell exchanges with its front end.

use vstd::prelude::*;

verus! {

/// A chat line as shown in the interface
#[derive(Debug, Clone)]
pub struct ChatEntry {
    pub id: String,
    pub username: String,
    pub text: String,
    pub timestamp: String,
}

/// The room the user is in
#[derive(Debug, Clone)]
pub struct RoomInfo {
    pub room_name: String,
    pub is_host: bool,
    /// 7-character room code (only present for the host)
    pub room_code: Option<String>,
}

/// The user's profile as shown in the interface
#[derive(Debug, Clone)]
pub struct ProfileInfo {
    pub username: String,
    pub avatar_color: String,
}

/// An audio device as listed in the interface
#[derive(Debug, Clone)]
pub struct AudioDevice {
    pub name: String,
    pub is_input: bool,
}

/// Which room the user is in, as the shell keeps it between commands.
pub struct RoomStatus {
    is_in_room: bool,
    is_host: bool,
    room_name: Option<String>,
    room_code: Option<String>,
}

/// The content of a room status.
pub ghost struct RoomStatusModel {
    pub in_room: bool,
    pub host: bool,
    pub name: Option<Seq<char>>,
    pub code: Option<Seq<char>>,
}

/// The model of an optional string.
pub open spec fn opt_text(s: Option<String>) -> Option<Seq<char>> {
    match s {
        Some(t) => Some(t@),
        None => None,
    }
}

/// The status outside any room.
pub open spec fn outside() -> RoomStatusModel {
    RoomStatusModel { in_room: false, host: false, name: None, code: None }
}

/// The room info shown for a status: none outside a room; otherwise the
/// room's name (empty when unknown), the role, and the code.
pub open spec fn info_of(m: RoomStatusModel) -> Option<(Seq<char>, bool, Option<Seq<char>>)> {
    if !m.in_room {
        None
    } else {
        Some(
            (
                match m.name {
                    Some(n) => n,
                    None => Seq::empty(),
                },
                m.host,
                m.code,
            ),
        )
    }
}

/// The content of a room info.
pub open spec fn info_model(r: RoomInfo) -> (Seq<char>, bool, Option<Seq<char>>) {
    (r.room_name@, r.is_host, opt_text(r.room_code))
}

fn copy_opt(s: &Option<String>) -> (r: Option<String>)
    ensures
        opt_text(r) == opt_text(*s),
{
    match s {
        Some(t) => Some(t.clone()),
        None => None,
    }
}

impl View for RoomStatus {
    type V = RoomStatusModel;

    closed spec fn view(&self) -> RoomStatusModel {
        RoomStatusModel {
            in_room: self.is_in_room,
            host: self.is_host,
            name: opt_text(self.room_name),
            code: opt_text(self.room_code),
        }
    }
}

impl RoomStatus {
    /// Not in any room
    pub fn new() -> (r: Self)
        ensures
            r@ == outside(),
    {
        Self { is_in_room: false, is_host: false, room_name: None, room_code: None }
    }

    /// Enter a room we host, shared under `room_code`.
    pub fn enter_as_host(&mut self, room_name: String, room_code: String) -> (r: RoomInfo)
        ensures
            final(self)@ == (RoomStatusModel {
                in_room: true,
                host: true,
                name: Some(room_name@),
                code: Some(room_code@),
            }),
            info_model(r) == (room_name@, true, Some(room_code@)),
    {
        self.is_in_room = true;
        self.is_host = true;
        self.room_name = Some(room_name.clone());
        self.room_code = Some(room_code.clone());
        RoomInfo { room_name, is_host: true, room_code: Some(room_code) }
    }

    /// Enter a room as a guest; a room whose name the host did not give is
    /// called "Room".
    pub fn enter_as_guest(&mut self, room_name: Option<&str>) -> (r: RoomInfo)
        ensures
            ({
                let n = match room_name {
                    Some(t) => t@,
                    None => "Room"@,
                };
                &&& final(self)@ == (RoomStatusModel { in_room: true, host: false, name: Some(n), code: None })
                &&& info_model(r) == (n, false, None::<Seq<char>>)
            }),
    {
        let name = match room_name {
            Some(t) => String::from_str(t),
            None => String::from_str("Room"),
        };
        self.is_in_room = true;
        self.is_host = false;
        self.room_name = Some(name.clone());
        self.room_code = None;
        RoomInfo { room_name: name, is_host: false, room_code: None }
    }

    /// Leave (or close) the room.
    pub fn leave(&mut self)
        ensures
            final(self)@ == outside(),
    {
        self.is_in_room = false;
        self.is_host = false;
        self.room_name = None;
        self.room_code = None;
    }

    /// The room the user is in, if any.
    pub fn room_info(&self) -> (r: Option<RoomInfo>)
        ensures
            match r {
                Some(i) => info_of(self@) == Some(info_model(i)),
                None => info_of(self@) is None,
            },
    {
        if !self.is_in_room {
            return None;
        }
        let name = match &self.room_name {
            Some(n) => n.clone(),
            None => String::new(),
        };
        Some(RoomInfo { room_name: name, is_host: self.is_host, room_code: copy_opt(&self.room_code) })
    }

    /// Commands that need a room refuse to run outside one.
    pub fn require_room(&self) -> (r: Result<(), String>)
        ensures
            self@.in_room ==> r is Ok,
            !self@.in_room ==> (r matches Err(m) && m@ == "Not in a room"@),
    {
        if self.is_in_room {
            Ok(())
        } else {
            Err(String::from_str("Not in a room"))
        }
    }
}

} // verus!
