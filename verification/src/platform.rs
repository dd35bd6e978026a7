//! Platform-side records and decisions around the deployer: team
//! registration and verification shapes, flag submission judging, and
//! the email domain allow-list.  The mail transport, token cache and
//! database stay outside; everything decided here is decided from plain
//! values.

use vstd::prelude::*;

use crate::error::Error;
use crate::ident::str_eq;

verus! {

/// A team registration request.
#[derive(Debug, Clone)]
pub struct TeamInfo {
    pub name: String,
    pub email: String,
    pub division: Option<String>,
}

/// A request to resend a team's login token.
#[derive(Debug, Clone)]
pub struct ResendTokenRequest {
    pub email: String,
}

/// A verification token presented back by a registrant.
#[derive(Debug, Clone)]
pub struct VerificationRequest {
    pub token: String,
}

/// A pending team registration, parked until the email is verified.
#[derive(Debug, Clone)]
pub struct PendingTeamVerification {
    pub name: String,
    pub email: String,
}

/// A pending email change, parked until the new address is verified.
#[derive(Debug, Clone)]
pub struct PendingEmailUpdate {
    pub team_id: String,
    pub new_email: String,
}

/// What a verification token stands for.
#[derive(Debug, Clone)]
pub enum PendingVerification {
    Team(PendingTeamVerification),
    EmailUpdate(PendingEmailUpdate),
}

/// What the platform answers when asked what a token stands for.
#[derive(Debug, Clone)]
pub enum VerificationDetailsResponse {
    TeamRegistration { name: String, email: String, kind: String },
    EmailUpdate { name: String, new_email: String, kind: String },
}

/// A flag submission.
#[derive(Debug, Clone)]
pub struct Submission {
    pub flag: String,
    pub challenge_id: String,
}

/// A challenge category.
#[derive(Debug, Clone)]
pub struct Category {
    pub id: i32,
    pub name: String,
}

/// A named group of challenges.
#[derive(Debug, Clone)]
pub struct ChallengeGroup {
    pub id: i32,
    pub name: String,
}

/// Whether the standard library of the validator classifies a string as
/// an email address under the HTML5 grammar.
pub uninterp spec fn spec_email_valid(s: Seq<char>) -> bool;

/// Relies on validator::ValidateEmail::validate_email for str: the HTML5
/// email grammar, a pure function of the characters.
#[verifier::external_body]
fn validate_email_str(s: &str) -> (r: bool)
    ensures
        r == spec_email_valid(s@),
{
    validator::ValidateEmail::validate_email(&s)
}

impl TeamInfo {
    /// Whether the request is admissible: a name of 1 to 72 characters
    /// and a well-formed email address.
    pub open spec fn spec_valid(&self) -> bool {
        1 <= self.name@.len() <= 72 && spec_email_valid(self.email@)
    }

    /// Validates the request, exactly when `spec_valid` holds.
    pub fn validate(&self) -> (r: Result<(), Error>)
        ensures
            r is Ok <==> self.spec_valid(),
            r matches Err(e) ==> e is Validation,
    {
        let len = self.name.as_str().unicode_len();
        if len < 1 || len > 72 {
            return Err(
                Error::Validation {
                    message: String::from_str("team name must be 1 to 72 characters"),
                },
            );
        }
        if !validate_email_str(self.email.as_str()) {
            return Err(Error::Validation { message: String::from_str("invalid email address") });
        }
        Ok(())
    }
}

impl ResendTokenRequest {
    /// Validates the request: the email must be well-formed.
    pub fn validate(&self) -> (r: Result<(), Error>)
        ensures
            r is Ok <==> spec_email_valid(self.email@),
            r matches Err(e) ==> e is Validation,
    {
        if !validate_email_str(self.email.as_str()) {
            return Err(Error::Validation { message: String::from_str("invalid email address") });
        }
        Ok(())
    }
}

/// Builds the wire answer for a pending verification: a team
/// registration carries its name and email; an email change carries the
/// team's current name and the new address.
pub fn verification_details_response(p: &PendingVerification, team_name: &str) -> (r:
    VerificationDetailsResponse)
    ensures
        match p {
            PendingVerification::Team(d) => r matches VerificationDetailsResponse::TeamRegistration {
                name,
                email,
                kind,
            } && name@ == d.name@ && email@ == d.email@ && kind@ == "team_registration"@,
            PendingVerification::EmailUpdate(d) => r matches VerificationDetailsResponse::EmailUpdate {
                name,
                new_email,
                kind,
            } && name@ == team_name@ && new_email@ == d.new_email@ && kind@
                == "email_update"@,
        },
{
    match p {
        PendingVerification::Team(d) => VerificationDetailsResponse::TeamRegistration {
            name: d.name.clone(),
            email: d.email.clone(),
            kind: String::from_str("team_registration"),
        },
        PendingVerification::EmailUpdate(d) => VerificationDetailsResponse::EmailUpdate {
            name: team_name.to_owned(),
            new_email: d.new_email.clone(),
            kind: String::from_str("email_update"),
        },
    }
}

/// The domain of an address: what follows the last `@`, or the whole
/// string when it has none.
pub open spec fn spec_domain_of(s: Seq<char>) -> Seq<char>
    decreases s.len(),
{
    if s.len() == 0 {
        s
    } else if s.last() == '@' {
        Seq::empty()
    } else {
        spec_domain_of(s.drop_last()).push(s.last())
    }
}

proof fn lemma_domain_after_at(s: Seq<char>, idx: int)
    requires
        0 <= idx < s.len(),
        s[idx] == '@',
        forall|j: int| idx < j < s.len() ==> s[j] != '@',
    ensures
        spec_domain_of(s) =~= s.subrange(idx + 1, s.len() as int),
    decreases s.len() - idx,
{
    if idx == s.len() - 1 {
        assert(s.last() == '@');
    } else {
        assert(s.last() != '@');
        assert(s.drop_last()[idx] == s[idx]);
        lemma_domain_after_at(s.drop_last(), idx);
        assert(s.drop_last().subrange(idx + 1, s.len() - 1).push(s.last()) =~= s.subrange(
            idx + 1,
            s.len() as int,
        ));
    }
}

proof fn lemma_domain_no_at(s: Seq<char>)
    requires
        forall|j: int| 0 <= j < s.len() ==> s[j] != '@',
    ensures
        spec_domain_of(s) =~= s,
    decreases s.len(),
{
    if s.len() > 0 {
        lemma_domain_no_at(s.drop_last());
    }
}

/// Whether an address may be mailed: an empty allow-list admits every
/// address; otherwise its domain must be listed.
pub open spec fn spec_email_domain_allowed(whitelist: Seq<String>, email: Seq<char>) -> bool {
    whitelist.len() == 0 || exists|i: int|
        0 <= i < whitelist.len() && (#[trigger] whitelist[i])@ == spec_domain_of(email)
}

/// Checks an address against the domain allow-list.
pub fn email_domain_allowed(whitelist: &Vec<String>, email: &str) -> (r: bool)
    ensures
        r == spec_email_domain_allowed(whitelist@, email@),
{
    if whitelist.len() == 0 {
        return true;
    }
    let n = email.unicode_len();
    let mut at: Option<usize> = None;
    let mut i: usize = 0;
    while i < n
        invariant
            i <= n,
            n == email@.len(),
            match at {
                Some(idx) => {
                    &&& idx < i
                    &&& email@[idx as int] == '@'
                    &&& forall|j: int| idx < j < i ==> email@[j] != '@'
                },
                None => forall|j: int| 0 <= j < i ==> email@[j] != '@',
            },
        decreases n - i,
    {
        if email.get_char(i) == '@' {
            at = Some(i);
        }
        i = i + 1;
    }
    let domain: String = match at {
        Some(idx) => {
            proof {
                lemma_domain_after_at(email@, idx as int);
            }
            email.substring_char(idx + 1, n).to_owned()
        },
        None => {
            proof {
                lemma_domain_no_at(email@);
            }
            email.to_owned()
        },
    };
    let m = whitelist.len();
    let mut k: usize = 0;
    while k < m
        invariant
            k <= m,
            m == whitelist@.len(),
            domain@ == spec_domain_of(email@),
            forall|j: int| 0 <= j < k ==> (#[trigger] whitelist@[j])@ != spec_domain_of(email@),
        decreases m - k,
    {
        if str_eq(whitelist[k].as_str(), domain.as_str()) {
            return true;
        }
        k = k + 1;
    }
    false
}

/// What the platform decides about one flag submission.
#[derive(Debug, Clone, Copy, PartialEq, Eq, Structural)]
pub enum SubmissionVerdict {
    /// The event has not started: nothing is judged or recorded.
    NotStarted,
    /// The event has ended: nothing is judged or recorded.
    Ended,
    /// The flag is wrong; `recorded` says whether a submission row is
    /// written (ethereal judges leave no trace).
    Wrong { recorded: bool },
    /// The flag is right; `first_blood` marks the first solve.
    Correct { recorded: bool, first_blood: bool },
}

/// Judges one flag submission against the expected flag and the event
/// window.  Submissions are recorded, and first blood announced, only
/// for real teams; an ethereal judge is never recorded.
pub fn evaluate_submission(
    now: i64,
    start_time: i64,
    end_time: i64,
    ethereal: bool,
    expected_flag: &str,
    submitted_flag: &str,
    prior_solves: i32,
) -> (r: SubmissionVerdict)
    ensures
        r == if now < start_time {
            SubmissionVerdict::NotStarted
        } else if now > end_time {
            SubmissionVerdict::Ended
        } else if submitted_flag@ == expected_flag@ {
            SubmissionVerdict::Correct {
                recorded: !ethereal,
                first_blood: !ethereal && prior_solves == 0,
            }
        } else {
            SubmissionVerdict::Wrong { recorded: !ethereal }
        },
{
    if now < start_time {
        SubmissionVerdict::NotStarted
    } else if now > end_time {
        SubmissionVerdict::Ended
    } else if str_eq(submitted_flag, expected_flag) {
        SubmissionVerdict::Correct { recorded: !ethereal, first_blood: !ethereal && prior_solves
            == 0 }
    } else {
        SubmissionVerdict::Wrong { recorded: !ethereal }
    }
}

} // verus!
