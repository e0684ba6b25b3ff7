use vstd::prelude::*;

verus! {

/// The four values that the login server hands a client at login. The client shows the
/// `play` pair to the game server, which checks it against what the login server
/// issued.
#[derive(Debug, Clone, Copy, PartialEq, Eq)]
pub struct SessionKey {
    pub play_ok1: i32,
    pub play_ok2: i32,
    pub login_ok1: i32,
    pub login_ok2: i32,
}

impl SessionKey {
    /// A key made of four values drawn by the caller.
    pub fn from_parts(play_ok1: i32, play_ok2: i32, login_ok1: i32, login_ok2: i32) -> (r: Self)
        ensures
            r == (SessionKey { play_ok1, play_ok2, login_ok1, login_ok2 }),
    {
        SessionKey { play_ok1, play_ok2, login_ok1, login_ok2 }
    }

    /// Whether a presented play pair matches this key.
    pub fn check_play(&self, play_ok1: i32, play_ok2: i32) -> (r: bool)
        ensures
            r == (self.play_ok1 == play_ok1 && self.play_ok2 == play_ok2),
    {
        self.play_ok1 == play_ok1 && self.play_ok2 == play_ok2
    }

    /// Whether a presented login pair matches this key.
    pub fn check_login(&self, login_ok1: i32, login_ok2: i32) -> (r: bool)
        ensures
            r == (self.login_ok1 == login_ok1 && self.login_ok2 == login_ok2),
    {
        self.login_ok1 == login_ok1 && self.login_ok2 == login_ok2
    }

    /// Whether every value of the two keys is equal.
    pub fn equals(&self, other: &SessionKey) -> (r: bool)
        ensures
            r == (*self == *other),
    {
        self.play_ok1 == other.play_ok1 && self.play_ok2 == other.play_ok2 && self.login_ok1
            == other.login_ok1 && self.login_ok2 == other.login_ok2
    }
}

} // verus!
