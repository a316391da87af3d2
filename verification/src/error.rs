use vstd::prelude::*;

verus! {

/// The reasons for which the ticket office refuses a request.
#[derive(Clone, Copy, Debug, PartialEq, Eq, Structural, PartialOrd, Ord)]
pub enum Error {
    AlreadyInitialized,
    NotInitialized,
    EventAlreadyExists,
    EventNotFound,
    TicketAlreadyExists,
    TicketNotFound,
    EventInactive,
    EventDateMustBeFuture,
    MaxTicketsMustBePositive,
    TicketPriceMustBeNonNegative,
    SoldOut,
    UserAlreadyHasTicket,
    TicketInvalid,
    TicketAlreadyUsed,
    Unauthorized,
    NotTicketOwner,
}

/// The number under which each error is reported to callers of the
/// contract: the errors are numbered from 1 in the order they are declared.
pub open spec fn error_code(e: Error) -> u32 {
    match e {
        Error::AlreadyInitialized => 1,
        Error::NotInitialized => 2,
        Error::EventAlreadyExists => 3,
        Error::EventNotFound => 4,
        Error::TicketAlreadyExists => 5,
        Error::TicketNotFound => 6,
        Error::EventInactive => 7,
        Error::EventDateMustBeFuture => 8,
        Error::MaxTicketsMustBePositive => 9,
        Error::TicketPriceMustBeNonNegative => 10,
        Error::SoldOut => 11,
        Error::UserAlreadyHasTicket => 12,
        Error::TicketInvalid => 13,
        Error::TicketAlreadyUsed => 14,
        Error::Unauthorized => 15,
        Error::NotTicketOwner => 16,
    }
}

impl Error {
    /// The contract error number of this error.
    pub fn code(&self) -> (c: u32)
        ensures
            c == error_code(*self),
    {
        match self {
            Error::AlreadyInitialized => 1,
            Error::NotInitialized => 2,
            Error::EventAlreadyExists => 3,
            Error::EventNotFound => 4,
            Error::TicketAlreadyExists => 5,
            Error::TicketNotFound => 6,
            Error::EventInactive => 7,
            Error::EventDateMustBeFuture => 8,
            Error::MaxTicketsMustBePositive => 9,
            Error::TicketPriceMustBeNonNegative => 10,
            Error::SoldOut => 11,
            Error::UserAlreadyHasTicket => 12,
            Error::TicketInvalid => 13,
            Error::TicketAlreadyUsed => 14,
            Error::Unauthorized => 15,
            Error::NotTicketOwner => 16,
        }
    }
}

} // verus!
