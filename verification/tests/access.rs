use relay_core::access::{AccessControl, LocalMessage, Policy};
use relay_core::error::Error;

fn message() -> LocalMessage {
    LocalMessage {
        onward_route: vec!["app".to_string()],
        return_route: vec!["relay".to_string()],
        payload: vec![1, 2, 3],
    }
}

#[test]
fn allow_all_permits() {
    assert_eq!(Policy::AllowAll.is_authorized(&message()), Ok(true));
}

#[test]
fn deny_all_denies() {
    assert_eq!(Policy::DenyAll.is_authorized(&message()), Ok(false));
}

#[test]
fn empty_all_authorizes() {
    assert_eq!(Policy::All(vec![]).is_authorized(&message()), Ok(true));
}

#[test]
fn empty_any_never_authorizes() {
    assert_eq!(Policy::Any(vec![]).is_authorized(&message()), Ok(false));
}

#[test]
fn all_allow_then_deny_denies() {
    let p = Policy::All(vec![Policy::AllowAll, Policy::DenyAll]);
    assert_eq!(p.is_authorized(&message()), Ok(false));
}

#[test]
fn all_deny_then_allow_denies() {
    let p = Policy::All(vec![Policy::DenyAll, Policy::AllowAll]);
    assert_eq!(p.is_authorized(&message()), Ok(false));
}

#[test]
fn any_deny_then_allow_authorizes() {
    let p = Policy::Any(vec![Policy::DenyAll, Policy::AllowAll]);
    assert_eq!(p.is_authorized(&message()), Ok(true));
}

#[test]
fn any_allow_then_deny_authorizes() {
    let p = Policy::Any(vec![Policy::AllowAll, Policy::DenyAll]);
    assert_eq!(p.is_authorized(&message()), Ok(true));
}

// A child that would fail the whole evaluation is placed after the deciding
// child: were later children still evaluated, the error would surface.
#[test]
fn all_skips_children_after_denial() {
    let broken = Policy::Fixed(Err(Error::AuthorizationCheckFailed("broken".to_string())));
    let p = Policy::All(vec![Policy::DenyAll, broken]);
    assert_eq!(p.is_authorized(&message()), Ok(false));
}

#[test]
fn any_skips_children_after_approval() {
    let broken = Policy::Fixed(Err(Error::AuthorizationCheckFailed("broken".to_string())));
    let p = Policy::Any(vec![Policy::AllowAll, broken]);
    assert_eq!(p.is_authorized(&message()), Ok(true));
}

#[test]
fn all_propagates_error_unchanged() {
    let e = Error::AuthorizationCheckFailed("identity store down".to_string());
    let p = Policy::All(vec![Policy::AllowAll, Policy::Fixed(Err(e.clone())), Policy::DenyAll]);
    assert_eq!(p.is_authorized(&message()), Err(e));
}

#[test]
fn any_propagates_error_unchanged() {
    let e = Error::AuthorizationCheckFailed("identity store down".to_string());
    let p = Policy::Any(vec![Policy::DenyAll, Policy::Fixed(Err(e.clone())), Policy::AllowAll]);
    assert_eq!(p.is_authorized(&message()), Err(e));
}

#[test]
fn nested_composition() {
    let p = Policy::All(vec![
        Policy::Any(vec![Policy::DenyAll, Policy::AllowAll]),
        Policy::AllowAll,
    ]);
    assert_eq!(p.is_authorized(&message()), Ok(true));
    let q = Policy::Any(vec![
        Policy::All(vec![Policy::AllowAll, Policy::DenyAll]),
        Policy::DenyAll,
    ]);
    assert_eq!(q.is_authorized(&message()), Ok(false));
}

#[test]
fn fixed_verdicts_pass_through() {
    assert_eq!(Policy::Fixed(Ok(true)).is_authorized(&message()), Ok(true));
    assert_eq!(Policy::Fixed(Ok(false)).is_authorized(&message()), Ok(false));
}
