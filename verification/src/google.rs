use vstd::prelude::*;

verus! {

/// The profile a sign-in provider reports for a user.
#[derive(Debug, Clone, PartialEq, Eq)]
pub struct GoogleUserModel {
    pub id: String,
    pub email: String,
    pub verified_email: bool,
    pub name: String,
    pub given_name: String,
    pub family_name: String,
    pub picture: String,
}

impl Default for GoogleUserModel {
    /// The placeholder profile: every text field reads "not-set" and
    /// the address is unverified.
    fn default() -> (r: GoogleUserModel)
        ensures
            r.id@ == "not-set"@,
            r.email@ == "not-set"@,
            r.verified_email == false,
            r.name@ == "not-set"@,
            r.given_name@ == "not-set"@,
            r.family_name@ == "not-set"@,
            r.picture@ == "not-set"@,
    {
        GoogleUserModel {
            id: "not-set".to_owned(),
            email: "not-set".to_owned(),
            verified_email: false,
            name: "not-set".to_owned(),
            given_name: "not-set".to_owned(),
            family_name: "not-set".to_owned(),
            picture: "not-set".to_owned(),
        }
    }
}

} // verus!
