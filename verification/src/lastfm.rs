//! Plain data types for the music-metadata catalog that supplies candidate
//! phrases, and the pure logic over them. The signed-request client that
//! fills these types lives outside the verified core; here stand the shapes
//! it produces and the exact text and mappings they carry.

use vstd::prelude::*;
use vstd::string::{StrSliceExecFns, StringExecFns};
use crate::chars::str_eq;

verus! {

broadcast use vstd::string::group_string_axioms;

/// An error reported by the catalog service: a numeric code, as text, and a
/// free-form message.
#[derive(Debug, PartialEq, Eq, Clone)]
pub struct Error {
    pub code: String,
    pub message: String,
}

/// The documented meaning of a known error code, or `None` for a code this
/// library does not know.
pub open spec fn known_code_text(code: Seq<char>) -> Option<Seq<char>> {
    if code == "2"@ {
        Some("Invalid service - This service does not exist"@)
    } else if code == "3"@ {
        Some("Invalid Method - No method with that name in this package"@)
    } else if code == "4"@ {
        Some("Authentication Failed - You do not have permissions to access the service"@)
    } else if code == "5"@ {
        Some("Invalid format - This service doesn't exist in that format"@)
    } else if code == "6"@ {
        Some("Invalid parameters - Your request is missing a required parameter"@)
    } else if code == "7"@ {
        Some("Invalid resource specified"@)
    } else if code == "8"@ {
        Some("Operation failed - Something else went wrong"@)
    } else if code == "9"@ {
        Some("Invalid session key - Please re-authenticate"@)
    } else if code == "10"@ {
        Some("Invalid API key - You must be granted a valid key by last.fm"@)
    } else if code == "11"@ {
        Some("Service Offline - This service is temporarily offline. Try again later."@)
    } else if code == "13"@ {
        Some("Invalid method signature supplied"@)
    } else if code == "14"@ {
        Some("This token has not been authorized"@)
    } else if code == "15"@ {
        Some("This token has expired"@)
    } else if code == "16"@ {
        Some("There was a temporary error processing your request. Please try again"@)
    } else if code == "26"@ {
        Some(
            "Suspended API key - Access for your account has been suspended, please contact Last.fm"@,
        )
    } else if code == "29"@ {
        Some("Rate limit exceeded - Your IP has made too many requests in a short period"@)
    } else {
        None
    }
}

/// The full description of a catalog error: `code: meaning: message`, with
/// an unknown code echoed in place of its meaning behind an `unknown code`
/// note.
pub open spec fn spec_description(code: Seq<char>, message: Seq<char>) -> Seq<char> {
    match known_code_text(code) {
        Some(t) => code + ": "@ + t + ": "@ + message,
        None => "unknown code "@ + code + ": "@ + code + ": "@ + message,
    }
}

impl Error {
    /// The human-readable description of this error.
    pub fn describe(&self) -> (s: String)
        ensures
            s@ == spec_description(self.code@, self.message@),
    {
        let text: &str = if str_eq(self.code.as_str(), "2") {
            "Invalid service - This service does not exist"
        } else if str_eq(self.code.as_str(), "3") {
            "Invalid Method - No method with that name in this package"
        } else if str_eq(self.code.as_str(), "4") {
            "Authentication Failed - You do not have permissions to access the service"
        } else if str_eq(self.code.as_str(), "5") {
            "Invalid format - This service doesn't exist in that format"
        } else if str_eq(self.code.as_str(), "6") {
            "Invalid parameters - Your request is missing a required parameter"
        } else if str_eq(self.code.as_str(), "7") {
            "Invalid resource specified"
        } else if str_eq(self.code.as_str(), "8") {
            "Operation failed - Something else went wrong"
        } else if str_eq(self.code.as_str(), "9") {
            "Invalid session key - Please re-authenticate"
        } else if str_eq(self.code.as_str(), "10") {
            "Invalid API key - You must be granted a valid key by last.fm"
        } else if str_eq(self.code.as_str(), "11") {
            "Service Offline - This service is temporarily offline. Try again later."
        } else if str_eq(self.code.as_str(), "13") {
            "Invalid method signature supplied"
        } else if str_eq(self.code.as_str(), "14") {
            "This token has not been authorized"
        } else if str_eq(self.code.as_str(), "15") {
            "This token has expired"
        } else if str_eq(self.code.as_str(), "16") {
            "There was a temporary error processing your request. Please try again"
        } else if str_eq(self.code.as_str(), "26") {
            "Suspended API key - Access for your account has been suspended, please contact Last.fm"
        } else if str_eq(self.code.as_str(), "29") {
            "Rate limit exceeded - Your IP has made too many requests in a short period"
        } else {
            ""
        };
        proof {
            reveal_strlit("");
        }
        if text.is_empty() && !known_code(self.code.as_str()) {
            let mut out = "unknown code ".to_owned();
            out.append(self.code.as_str());
            out.append(": ");
            out.append(self.code.as_str());
            out.append(": ");
            out.append(self.message.as_str());
            proof {
                assert(out@ =~= spec_description(self.code@, self.message@));
            }
            out
        } else {
            let mut out = self.code.clone();
            out.append(": ");
            out.append(text);
            out.append(": ");
            out.append(self.message.as_str());
            proof {
                assert(out@ =~= spec_description(self.code@, self.message@));
            }
            out
        }
    }
}

/// Whether the code is one this library knows a meaning for.
fn known_code(code: &str) -> (r: bool)
    ensures
        r == (known_code_text(code@) is Some),
{
    str_eq(code, "2") || str_eq(code, "3") || str_eq(code, "4") || str_eq(code, "5") || str_eq(
        code,
        "6",
    ) || str_eq(code, "7") || str_eq(code, "8") || str_eq(code, "9") || str_eq(code, "10")
        || str_eq(code, "11") || str_eq(code, "13") || str_eq(code, "14") || str_eq(code, "15")
        || str_eq(code, "16") || str_eq(code, "26") || str_eq(code, "29")
}

/// The catalog's response envelope: a payload on success, an [`Error`] on
/// failure.
#[derive(Debug, PartialEq, Eq)]
pub enum LfmStatus<T> {
    Success(T),
    Failed(Error),
}

impl<T> LfmStatus<T> {
    /// The envelope as an ordinary result.
    pub fn into_result(self) -> (r: Result<T, Error>)
        ensures
            self matches LfmStatus::Success(x) ==> r == Ok::<T, Error>(x),
            self matches LfmStatus::Failed(e) ==> r == Err::<T, Error>(e),
    {
        match self {
            LfmStatus::Success(x) => Ok(x),
            LfmStatus::Failed(error) => Err(error),
        }
    }
}

/// An authenticated catalog session.
#[derive(Debug, PartialEq, Eq, Clone)]
pub struct Session {
    pub name: String,
    pub key: String,
    pub subscriber: i32,
}

/// The time period a top-list is asked over.
#[derive(Debug, PartialEq, Eq, Structural, Clone, Copy)]
pub enum Period {
    Overall,
    SevenDay,
    OneMonth,
    ThreeMonth,
    SixMonth,
    TwelveMonth,
}

/// The wire name of each period.
pub open spec fn spec_period_str(p: Period) -> Seq<char> {
    match p {
        Period::Overall => "overall"@,
        Period::SevenDay => "7day"@,
        Period::OneMonth => "1month"@,
        Period::ThreeMonth => "3month"@,
        Period::SixMonth => "6month"@,
        Period::TwelveMonth => "12month"@,
    }
}

impl Period {
    /// The name this period carries on the wire.
    pub fn as_str(&self) -> (s: &'static str)
        ensures
            s@ == spec_period_str(*self),
    {
        match self {
            Period::Overall => "overall",
            Period::SevenDay => "7day",
            Period::OneMonth => "1month",
            Period::ThreeMonth => "3month",
            Period::SixMonth => "6month",
            Period::TwelveMonth => "12month",
        }
    }
}

/// The size class of a catalog image; an unrecognized size keeps its text.
#[derive(Debug, PartialEq, Eq, Clone)]
pub enum ImageSize {
    Small,
    Medium,
    Large,
    Extralarge,
    Mega,
    Unknown(String),
}

impl ImageSize {
    /// The size class a wire value names.
    pub fn from_code(s: &str) -> (r: ImageSize)
        ensures
            s@ == "small"@ ==> r == ImageSize::Small,
            s@ == "medium"@ ==> r == ImageSize::Medium,
            s@ == "large"@ ==> r == ImageSize::Large,
            s@ == "extralarge"@ ==> r == ImageSize::Extralarge,
            s@ == "mega"@ ==> r == ImageSize::Mega,
            (s@ != "small"@ && s@ != "medium"@ && s@ != "large"@ && s@ != "extralarge"@ && s@
                != "mega"@) ==> (r matches ImageSize::Unknown(u) && u@ == s@),
    {
        proof {
            reveal_strlit("small");
            reveal_strlit("medium");
            reveal_strlit("large");
            reveal_strlit("extralarge");
            reveal_strlit("mega");
            assert("small"@.len() == 5 && "medium"@.len() == 6 && "large"@.len() == 5
                && "extralarge"@.len() == 10 && "mega"@.len() == 4);
            assert("small"@[0] == 's' && "large"@[0] == 'l');
        }
        if str_eq(s, "small") {
            ImageSize::Small
        } else if str_eq(s, "medium") {
            ImageSize::Medium
        } else if str_eq(s, "large") {
            ImageSize::Large
        } else if str_eq(s, "extralarge") {
            ImageSize::Extralarge
        } else if str_eq(s, "mega") {
            ImageSize::Mega
        } else {
            ImageSize::Unknown(s.to_owned())
        }
    }
}

/// One image of a catalog entry: its size class and its address.
#[derive(Debug, PartialEq, Eq, Clone)]
pub struct Image {
    pub size: ImageSize,
    pub url: String,
}

/// An editorial note attached to a chart entry.
#[derive(Debug, PartialEq, Eq, Clone)]
pub struct Wiki {
    pub published: String,
    pub summary: String,
    pub content: String,
}

} // verus!
