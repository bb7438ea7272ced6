//! Channel identifiers.

use vstd::prelude::*;
use vstd::std_specs::convert::FromSpecImpl;

verus! {

/// The identity of one physical button. Each has a fixed numeric code.
#[derive(Debug, Hash, PartialEq, Eq, Copy, Clone, Structural)]
pub enum ID {
    /// Red (meta), code `0x04`.
    M1,
    /// Black (volume down), code `0x50`.
    A2,
    /// Blue (previous track), code `0x51`.
    A3,
    /// Black (play/pause), code `0x52`.
    A4,
    /// Red (meta), code `0x29`.
    M2,
    /// Black (volume up), code `0x4F`.
    B2,
    /// Blue (next track), code `0x05`.
    B3,
    /// Black (eject), code `0x28`.
    B4,
}

impl ID {
    /// The numeric code of a button.
    pub open spec fn code(self) -> i32 {
        match self {
            ID::M1 => 0x04,
            ID::A2 => 0x50,
            ID::A3 => 0x51,
            ID::A4 => 0x52,
            ID::M2 => 0x29,
            ID::B2 => 0x4F,
            ID::B3 => 0x05,
            ID::B4 => 0x28,
        }
    }

    /// The button that carries the code, if there is one.
    pub open spec fn of_code(code: i32) -> Option<ID> {
        if code == 0x04 {
            Some(ID::M1)
        } else if code == 0x50 {
            Some(ID::A2)
        } else if code == 0x51 {
            Some(ID::A3)
        } else if code == 0x52 {
            Some(ID::A4)
        } else if code == 0x29 {
            Some(ID::M2)
        } else if code == 0x4F {
            Some(ID::B2)
        } else if code == 0x05 {
            Some(ID::B3)
        } else if code == 0x28 {
            Some(ID::B4)
        } else {
            None
        }
    }

    /// Whether some button carries the code.
    pub open spec fn is_code(code: i32) -> bool {
        ID::of_code(code) is Some
    }

    /// The position of a button in [`ID::all`].
    pub open spec fn ordinal(self) -> int {
        match self {
            ID::M1 => 0,
            ID::A2 => 1,
            ID::A3 => 2,
            ID::A4 => 3,
            ID::M2 => 4,
            ID::B2 => 5,
            ID::B3 => 6,
            ID::B4 => 7,
        }
    }

    /// Every button, in declaration order.
    pub open spec fn all_spec() -> Seq<ID> {
        seq![ID::M1, ID::A2, ID::A3, ID::A4, ID::M2, ID::B2, ID::B3, ID::B4]
    }

    /// Every button, in declaration order.
    pub fn all() -> (ids: [ID; 8])
        ensures
            ids@ == ID::all_spec(),
            forall|id: ID| ids@[id.ordinal()] == id,
    {
        let ids = [ID::M1, ID::A2, ID::A3, ID::A4, ID::M2, ID::B2, ID::B3, ID::B4];
        assert forall|id: ID| ids@[id.ordinal()] == id by {
            match id {
                ID::M1 => {},
                ID::A2 => {},
                ID::A3 => {},
                ID::A4 => {},
                ID::M2 => {},
                ID::B2 => {},
                ID::B3 => {},
                ID::B4 => {},
            }
        }
        ids
    }

    /// The button with the given code. The code must be one of the eight.
    pub fn from(code: &i32) -> (id: ID)
        requires
            ID::is_code(*code),
        ensures
            Some(id) == ID::of_code(*code),
            id.code() == *code,
    {
        let c: i32 = *code;
        if c == 0x04 {
            ID::M1
        } else if c == 0x50 {
            ID::A2
        } else if c == 0x51 {
            ID::A3
        } else if c == 0x52 {
            ID::A4
        } else if c == 0x29 {
            ID::M2
        } else if c == 0x4F {
            ID::B2
        } else if c == 0x05 {
            ID::B3
        } else {
            ID::B4
        }
    }

    /// The button with the given code, or `None` where no button has it.
    pub fn from_code(code: i32) -> (r: Option<ID>)
        ensures
            r == ID::of_code(code),
            r matches Some(id) ==> id.code() == code,
    {
        if code == 0x04 || code == 0x50 || code == 0x51 || code == 0x52 || code == 0x29 || code
            == 0x4F || code == 0x05 || code == 0x28 {
            Some(ID::from(&code))
        } else {
            None
        }
    }
}

impl From<ID> for i32 {
    fn from(id: ID) -> (code: i32) {
        match id {
            ID::M1 => 0x04,
            ID::A2 => 0x50,
            ID::A3 => 0x51,
            ID::A4 => 0x52,
            ID::M2 => 0x29,
            ID::B2 => 0x4F,
            ID::B3 => 0x05,
            ID::B4 => 0x28,
        }
    }
}

impl FromSpecImpl<ID> for i32 {
    open spec fn obeys_from_spec() -> bool {
        true
    }

    open spec fn from_spec(id: ID) -> i32 {
        id.code()
    }
}

/// Two buttons with one code are one button, and a button's code leads
/// back to the button.
pub proof fn lemma_code_identifies(a: ID, b: ID)
    ensures
        ID::of_code(a.code()) == Some(a),
        a.code() == b.code() ==> a == b,
{
}

} // verus!
