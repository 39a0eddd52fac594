use vstd::prelude::*;

verus! {

/// Moderation state of a user.
#[derive(Debug, Clone, Copy, PartialEq, Eq, Structural)]
pub enum Status {
    Normal,
    Black,
    White,
}

/// The stored small-integer code of a status.
pub open spec fn status_code(s: Status) -> i8 {
    match s {
        Status::Normal => 0,
        Status::Black => 1,
        Status::White => 2,
    }
}

/// The status that a stored code stands for; unknown codes read as neutral.
pub open spec fn status_of_code(v: i8) -> Status {
    if v == 1 {
        Status::Black
    } else if v == 2 {
        Status::White
    } else {
        Status::Normal
    }
}

/// The human-readable label of a status.
pub open spec fn status_label(s: Status) -> Seq<char> {
    match s {
        Status::Normal => "normal"@,
        Status::Black => "black"@,
        Status::White => "white"@,
    }
}

impl Status {
    pub fn from(value: i8) -> (r: Self)
        ensures
            r == status_of_code(value),
    {
        match value {
            1 => Status::Black,
            2 => Status::White,
            _ => Status::Normal,
        }
    }

    pub fn into(&self) -> (r: i8)
        ensures
            r == status_code(*self),
    {
        match self {
            Status::Normal => 0,
            Status::Black => 1,
            Status::White => 2,
        }
    }

    pub fn display(&self) -> (r: &'static str)
        ensures
            r@ == status_label(*self),
    {
        match self {
            Status::Normal => "normal",
            Status::Black => "black",
            Status::White => "white",
        }
    }
}

/// Decoding the code of a status gives the status back.
pub proof fn lemma_code_round_trip(s: Status)
    ensures
        status_of_code(status_code(s)) == s,
{
}

} // verus!
