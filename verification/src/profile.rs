//! The administrator's profile of the user interface.

use vstd::prelude::*;

use crate::text;

verus! {

/// What became of reading the profile.
#[derive(Debug)]
pub enum ProfileRead {
    Contents(String),
    Missing,
    Failed(String),
}

pub open spec fn profile_view(profile: Result<Option<String>, String>) -> Result<
    Option<Seq<char>>,
    Seq<char>,
> {
    match profile {
        Ok(profile) => Ok(text::view_of(profile)),
        Err(message) => Err(message@),
    }
}

/// A profile that is missing is no error.
pub open spec fn profile_outcome(read: ProfileRead) -> Result<Option<Seq<char>>, Seq<char>> {
    match read {
        ProfileRead::Contents(contents) => Ok(Some(contents@)),
        ProfileRead::Missing => Ok(None),
        ProfileRead::Failed(error) => Err("Could not read admin profile: "@ + error@),
    }
}

/// The administrator's profile, if there is one, from what reading it gave.
pub fn admin_profile(read: ProfileRead) -> (profile: Result<Option<String>, String>)
    ensures
        profile_view(profile) == profile_outcome(read),
{
    match read {
        ProfileRead::Contents(contents) => Ok(Some(contents)),
        ProfileRead::Missing => Ok(None),
        ProfileRead::Failed(error) => Err(
            text::chained("Could not read admin profile: ", error.as_str()),
        ),
    }
}

/// A profile that could be read is handed over as it is, one that is missing is no error, and any
/// other failure is reported.
pub proof fn profiles_are_handed_over(contents: String, error: String)
    ensures
        profile_outcome(ProfileRead::Contents(contents)) == Ok::<Option<Seq<char>>, Seq<char>>(
            Some(contents@),
        ),
        profile_outcome(ProfileRead::Missing) == Ok::<Option<Seq<char>>, Seq<char>>(None),
        profile_outcome(ProfileRead::Failed(error)) == Err::<Option<Seq<char>>, Seq<char>>(
            "Could not read admin profile: "@ + error@,
        ),
        profile_view(Ok(Some(contents))) == Ok::<Option<Seq<char>>, Seq<char>>(Some(contents@)),
        profile_view(Ok(None)) == Ok::<Option<Seq<char>>, Seq<char>>(None),
        profile_view(Err(error)) == Err::<Option<Seq<char>>, Seq<char>>(error@),
{
}

} // verus!
