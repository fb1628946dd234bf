use cydonia::permission::{alert, verdict, Choice, PermissionKind};

fn choice(id: &str, name: &str, kind: PermissionKind) -> Choice {
    Choice { id: id.to_owned(), name: name.to_owned(), kind }
}

fn four() -> Vec<Choice> {
    vec![
        choice("a1", "Allow", PermissionKind::AllowOnce),
        choice("a2", "Always allow", PermissionKind::AllowAlways),
        choice("r1", "Reject", PermissionKind::RejectOnce),
        choice("r2", "Always reject", PermissionKind::RejectAlways),
    ]
}

#[test]
fn a_side_reads_its_once_and_always_forms() {
    let options = four();
    let allow = verdict(&options, true).unwrap();
    assert_eq!(allow.label, "Allow");
    assert_eq!(allow.id(false), "a1");
    assert_eq!(allow.id(true), "a2");
    let reject = verdict(&options, false).unwrap();
    assert_eq!(reject.id(true), "r2");
}

#[test]
fn an_always_with_no_form_sends_the_once() {
    let options = vec![
        choice("a1", "Allow", PermissionKind::AllowOnce),
        choice("r1", "Reject", PermissionKind::RejectOnce),
    ];
    let allow = verdict(&options, true).unwrap();
    assert_eq!(allow.always, None);
    assert_eq!(allow.id(true), "a1");
}

#[test]
fn the_request_is_an_alert_when_both_sides_account_for_every_option() {
    let options = four();
    let (deny, allow) = alert(&options).unwrap();
    assert_eq!(deny.once, "r1");
    assert_eq!(allow.once, "a1");
    let mut extra = four();
    extra.push(choice("a3", "Allow later", PermissionKind::AllowOnce));
    assert!(alert(&extra).is_none());
    let one_sided = vec![choice("a1", "Allow", PermissionKind::AllowOnce)];
    assert!(alert(&one_sided).is_none());
    assert!(verdict(&one_sided, false).is_none());
}
