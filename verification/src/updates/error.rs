//! What can go wrong with an update.
use vstd::prelude::*;
use vstd::string::*;

verus! {

/// What comes of a part of an update.
pub type UResult<T> = Result<T, UpdateError>;

/// Why an update was not installed. What others report is kept as they put it.
#[derive(Debug)]
pub enum UpdateError {
    Zip(String),
    Io(String),
    Reqwest(String),
    Join(String),
    NoRid,
    HashMismatch { expected: String, got: String },
}

/// An error in words.
pub open spec fn error_text(e: UpdateError) -> Seq<char> {
    match e {
        UpdateError::Zip(why) => "zip error: "@ + why@,
        UpdateError::Io(why) => "io error: "@ + why@,
        UpdateError::Reqwest(why) => "reqwest error: "@ + why@,
        UpdateError::Join(why) => "join error: "@ + why@,
        UpdateError::NoRid => "unable to find compatible build for a platform"@,
        UpdateError::HashMismatch { expected, got } => "invalid hash, expected `"@ + expected@
            + "`, got `"@ + got@ + "`"@,
    }
}

fn after_label(label: &str, why: &str) -> (r: String)
    ensures
        r@ == label@ + why@,
{
    let mut r = label.to_string();
    r.append(why);
    r
}

impl UpdateError {
    /// The error in words.
    pub fn message(&self) -> (r: String)
        ensures
            r@ == error_text(*self),
    {
        match self {
            UpdateError::Zip(why) => after_label("zip error: ", why.as_str()),
            UpdateError::Io(why) => after_label("io error: ", why.as_str()),
            UpdateError::Reqwest(why) => after_label("reqwest error: ", why.as_str()),
            UpdateError::Join(why) => after_label("join error: ", why.as_str()),
            UpdateError::NoRid => "unable to find compatible build for a platform".to_string(),
            UpdateError::HashMismatch { expected, got } => {
                let mut r = "invalid hash, expected `".to_string();
                r.append(expected.as_str());
                r.append("`, got `");
                r.append(got.as_str());
                r.append("`");
                r
            },
        }
    }
}

/// Each error in words.
pub proof fn law_errors_in_words(why: String, expected: String, got: String)
    ensures
        error_text(UpdateError::Zip(why)) == "zip error: "@ + why@,
        error_text(UpdateError::Io(why)) == "io error: "@ + why@,
        error_text(UpdateError::Reqwest(why)) == "reqwest error: "@ + why@,
        error_text(UpdateError::Join(why)) == "join error: "@ + why@,
        error_text(UpdateError::NoRid) == "unable to find compatible build for a platform"@,
        error_text(UpdateError::HashMismatch { expected, got }) == "invalid hash, expected `"@
            + expected@ + "`, got `"@ + got@ + "`"@,
{
}

} // verus!
