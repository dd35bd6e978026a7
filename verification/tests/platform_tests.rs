use nerine::error::{error_response, Error};
use nerine::platform::{
    email_domain_allowed, evaluate_submission, verification_details_response, PendingEmailUpdate,
    PendingTeamVerification, PendingVerification, ResendTokenRequest, SubmissionVerdict, TeamInfo,
};

fn team(name: &str, email: &str) -> TeamInfo {
    TeamInfo { name: name.to_string(), email: email.to_string(), division: None }
}

#[test]
fn team_info_validation() {
    assert!(team("solvers", "cap@example.com").validate().is_ok());
    assert!(team("", "cap@example.com").validate().is_err());
    assert!(team(&"x".repeat(73), "cap@example.com").validate().is_err());
    assert!(team(&"x".repeat(72), "cap@example.com").validate().is_ok());
    assert!(team("solvers", "not-an-email").validate().is_err());
    assert!(team("solvers", "").validate().is_err());
}

#[test]
fn resend_token_validation() {
    assert!(ResendTokenRequest { email: "a@b.com".to_string() }.validate().is_ok());
    assert!(ResendTokenRequest { email: "nope".to_string() }.validate().is_err());
}

#[test]
fn email_domain_whitelist() {
    let empty: Vec<String> = Vec::new();
    assert!(email_domain_allowed(&empty, "anyone@anywhere.net"));

    let list = vec!["example.com".to_string(), "school.edu".to_string()];
    assert!(email_domain_allowed(&list, "cap@example.com"));
    assert!(email_domain_allowed(&list, "weird@name@school.edu"));
    assert!(!email_domain_allowed(&list, "cap@elsewhere.org"));
    // An address with no @ is checked as a whole, which is how the
    // domain split sees it.
    assert!(!email_domain_allowed(&list, "no-at-sign"));
    assert!(email_domain_allowed(&list, "example.com"));
}

#[test]
fn submission_judgement() {
    // Event window.
    assert_eq!(
        evaluate_submission(10, 100, 200, false, "flag{x}", "flag{x}", 0),
        SubmissionVerdict::NotStarted
    );
    assert_eq!(
        evaluate_submission(300, 100, 200, false, "flag{x}", "flag{x}", 0),
        SubmissionVerdict::Ended
    );
    // First blood for the first real solver.
    assert_eq!(
        evaluate_submission(150, 100, 200, false, "flag{x}", "flag{x}", 0),
        SubmissionVerdict::Correct { recorded: true, first_blood: true }
    );
    assert_eq!(
        evaluate_submission(150, 100, 200, false, "flag{x}", "flag{x}", 3),
        SubmissionVerdict::Correct { recorded: true, first_blood: false }
    );
    // Ethereal judges leave no trace.
    assert_eq!(
        evaluate_submission(150, 100, 200, true, "flag{x}", "flag{x}", 0),
        SubmissionVerdict::Correct { recorded: false, first_blood: false }
    );
    assert_eq!(
        evaluate_submission(150, 100, 200, false, "flag{x}", "flag{y}", 0),
        SubmissionVerdict::Wrong { recorded: true }
    );
}

#[test]
fn verification_details_shapes() {
    let reg = PendingVerification::Team(PendingTeamVerification {
        name: "solvers".to_string(),
        email: "cap@example.com".to_string(),
    });
    match verification_details_response(&reg, "unused") {
        nerine::platform::VerificationDetailsResponse::TeamRegistration { name, email, kind } => {
            assert_eq!(name, "solvers");
            assert_eq!(email, "cap@example.com");
            assert_eq!(kind, "team_registration");
        }
        other => panic!("wrong shape: {:?}", other),
    }

    let upd = PendingVerification::EmailUpdate(PendingEmailUpdate {
        team_id: "t-1".to_string(),
        new_email: "new@example.com".to_string(),
    });
    match verification_details_response(&upd, "solvers") {
        nerine::platform::VerificationDetailsResponse::EmailUpdate { name, new_email, kind } => {
            assert_eq!(name, "solvers");
            assert_eq!(new_email, "new@example.com");
            assert_eq!(kind, "email_update");
        }
        other => panic!("wrong shape: {:?}", other),
    }
}

#[test]
fn error_statuses_and_shapes() {
    let cases: Vec<(Error, u16, &str)> = vec![
        (Error::Validation { message: "bad".to_string() }, 400, "validation_error"),
        (Error::NotFound, 404, "not_found"),
        (Error::AlreadyDeployed { public_id: "pid".to_string() }, 409, "already_deployed"),
        (Error::AlreadyDestroyed, 409, "already_destroyed"),
        (Error::NotYetDeployed, 409, "not_yet_deployed"),
        (Error::Remote { message: "daemon".to_string() }, 500, "remote_error"),
        (Error::Database { message: "tx".to_string() }, 500, "database_error"),
        (Error::Misconfiguration { message: "env".to_string() }, 500, "misconfiguration"),
    ];
    for (e, status, kind) in cases {
        assert_eq!(e.status_code(), status);
        assert_eq!(e.kind(), kind);
        let body = error_response(&e);
        assert_eq!(body.error, kind);
        assert!(!body.message.is_empty());
    }
    let body = error_response(&Error::Remote { message: "daemon unreachable".to_string() });
    assert_eq!(body.message, "daemon unreachable");
}
