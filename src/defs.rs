//! Small shared engine types.
use vstd::prelude::*;

verus! {

#[derive(Clone, Copy, Debug, PartialEq, Eq, Structural)]
pub enum QBoolean {
    False,
    True,
}

impl QBoolean {
    pub fn default() -> (r: QBoolean)
        ensures
            r == QBoolean::False,
    {
        QBoolean::False
    }
}

impl Default for QBoolean {
    fn default() -> (r: QBoolean)
        ensures
            r == QBoolean::False,
    {
        QBoolean::False
    }
}

/// Index of an angle in a view-angle triple.
#[derive(Clone, Copy, Debug, PartialEq, Eq, Structural)]
pub enum ViewAngles {
    /// up / down
    Pitch,
    /// left / right
    Yaw,
    /// fall over
    Roll,
}

/// Where key presses go.
#[derive(Clone, Copy, Debug, PartialEq, Eq, Structural)]
pub enum KeydestT {
    KeyGame,
    KeyConsole,
    KeyMessage,
    KeyMenu,
}

/// Connection state of the client.
#[derive(Clone, Copy, Debug, PartialEq, Eq, Structural)]
pub enum CActiveT {
    /// a dedicated server with no ability to start a client
    Dedicated,
    /// full screen console with no connection
    Disconnected,
    /// valid netcon, talking to a server
    Connected,
}

impl CActiveT {
    pub fn default() -> (r: CActiveT)
        ensures
            r == CActiveT::Dedicated,
    {
        CActiveT::Dedicated
    }
}

impl Default for CActiveT {
    fn default() -> (r: CActiveT)
        ensures
            r == CActiveT::Dedicated,
    {
        CActiveT::Dedicated
    }
}

#[derive(Clone, Copy, Debug, PartialEq, Eq, Structural)]
pub enum ModeStateT {
    Uninit,
    Windowed,
    FullScreen,
}

/// A link of a doubly linked list kept in an arena: the neighbours are arena
/// indices, `None` where unlinked.
#[derive(Clone, Copy, Debug, PartialEq, Eq, Structural)]
pub struct LinkT {
    pub prev: Option<usize>,
    pub next: Option<usize>,
}

impl LinkT {
    pub fn default() -> (r: LinkT)
        ensures
            r.prev is None && r.next is None,
    {
        LinkT { prev: None, next: None }
    }
}

impl Default for LinkT {
    fn default() -> (r: LinkT)
        ensures
            r.prev is None && r.next is None,
    {
        LinkT { prev: None, next: None }
    }
}

} // verus!
