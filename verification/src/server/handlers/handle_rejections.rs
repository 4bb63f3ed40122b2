//! From a rejected request to the error that is sent back.

use vstd::prelude::*;

verus! {

/// What is known of a rejected request.
pub struct Rejection {
    /// No route matched.
    pub not_found: bool,
    /// A character field was neither the word "none" nor one character.
    pub string_too_long: bool,
    /// The body could not be read as the route's request; inside, the
    /// reader's own words where it gave any.
    pub body_deserialize: Option<Option<String>>,
    /// The route exists, but not for the method of the request.
    pub method_not_allowed: bool,
    /// The commands of the request could not be drawn.
    pub apply_operation: bool,
}

/// The error that is sent back: an HTTP status code and a message.
pub struct ErrorMessage {
    pub code: u16,
    pub message: String,
}

/// The status code "bad request".
pub const BAD_REQUEST: u16 = 400;

/// The status code "not found".
pub const NOT_FOUND: u16 = 404;

/// The status code "internal server error".
pub const INTERNAL_SERVER_ERROR: u16 = 500;

/// The status code for a rejection. Of several things known of one
/// rejection, the first in the order of the fields of [`Rejection`] decides.
pub open spec fn code_of(rejection: Rejection) -> u16 {
    if rejection.not_found {
        NOT_FOUND
    } else if rejection.string_too_long {
        BAD_REQUEST
    } else if rejection.body_deserialize is Some {
        BAD_REQUEST
    } else if rejection.method_not_allowed {
        NOT_FOUND
    } else {
        INTERNAL_SERVER_ERROR
    }
}

/// The message for a rejection, decided as its status code is.
pub open spec fn message_of(rejection: Rejection) -> Seq<char> {
    if rejection.not_found {
        "NOT_FOUND"@
    } else if rejection.string_too_long {
        "Fill and outline characters should be either 'none' or of length 1."@
    } else if let Some(cause) = rejection.body_deserialize {
        "Error deserializing JSON: "@ + match cause {
            Some(cause) => cause@,
            None => "BAD_REQUEST"@,
        }
    } else if rejection.method_not_allowed {
        "NOT_FOUND"@
    } else if rejection.apply_operation {
        "Oops, you must have passed something that wasn't a valid draw command. Validation should have caught that... it's a bug!"@
    } else {
        "UNHANDLED_REJECTION"@
    }
}

/// Nothing is known of the rejection that this service has an answer for.
pub open spec fn unhandled(rejection: Rejection) -> bool {
    &&& !rejection.not_found
    &&& !rejection.string_too_long
    &&& rejection.body_deserialize is None
    &&& !rejection.method_not_allowed
    &&& !rejection.apply_operation
}

/// Whether the rejection is one that this service has no answer for but
/// "unhandled rejection": such a rejection is worth a line in the log.
pub fn is_unhandled(rejection: &Rejection) -> (nothing_known: bool)
    ensures
        nothing_known == unhandled(*rejection),
{
    !rejection.not_found && !rejection.string_too_long && rejection.body_deserialize.is_none()
        && !rejection.method_not_allowed && !rejection.apply_operation
}

/// The error to send back for a rejected request.
pub fn error_message(rejection: &Rejection) -> (error: ErrorMessage)
    ensures
        error.code == code_of(*rejection),
        error.message@ == message_of(*rejection),
{
    if rejection.not_found {
        ErrorMessage { code: NOT_FOUND, message: String::from_str("NOT_FOUND") }
    } else if rejection.string_too_long {
        ErrorMessage {
            code: BAD_REQUEST,
            message: String::from_str(
                "Fill and outline characters should be either 'none' or of length 1.",
            ),
        }
    } else if let Some(cause) = &rejection.body_deserialize {
        let mut message = String::from_str("Error deserializing JSON: ");
        match cause {
            Some(cause) => message.append(cause.as_str()),
            None => message.append("BAD_REQUEST"),
        }
        ErrorMessage { code: BAD_REQUEST, message }
    } else if rejection.method_not_allowed {
        ErrorMessage { code: NOT_FOUND, message: String::from_str("NOT_FOUND") }
    } else if rejection.apply_operation {
        ErrorMessage {
            code: INTERNAL_SERVER_ERROR,
            message: String::from_str(
                "Oops, you must have passed something that wasn't a valid draw command. Validation should have caught that... it's a bug!",
            ),
        }
    } else {
        ErrorMessage {
            code: INTERNAL_SERVER_ERROR,
            message: String::from_str("UNHANDLED_REJECTION"),
        }
    }
}

} // verus!
