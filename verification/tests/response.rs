use infrahub_credential_helper::extract_credential;
use infrahub_credential_helper::response::{
    CredentialNode, CredentialQueryResponse, PasswordCredential, RelatedCredential,
    RepositoryEdge, RepositoryNode, RepositoryQueryData, TextAttribute,
};

fn text(value: Option<&str>) -> Option<TextAttribute> {
    Some(TextAttribute { value: value.map(String::from) })
}

fn response_with(edges: Vec<RepositoryEdge>) -> CredentialQueryResponse {
    CredentialQueryResponse { data: Some(RepositoryQueryData { edges }) }
}

fn repository(credential: Option<CredentialNode>) -> RepositoryEdge {
    RepositoryEdge {
        node: Some(RepositoryNode { credential: RelatedCredential { node: credential } }),
    }
}

fn password_credential(
    username: Option<TextAttribute>,
    password: Option<TextAttribute>,
) -> Option<CredentialNode> {
    Some(CredentialNode::CorePasswordCredential(PasswordCredential { username, password }))
}

#[test]
fn extract_credential_success() {
    let resp = response_with(vec![repository(password_credential(
        text(Some("myuser")),
        text(Some("mypass")),
    ))]);
    let (username, password) = extract_credential(resp).unwrap();
    assert_eq!(username, "myuser");
    assert_eq!(password, "mypass");
}

#[test]
fn extract_credential_empty_edges() {
    let resp = response_with(vec![]);
    let err = extract_credential(resp).unwrap_err();
    assert_eq!(err, "Repository not found in the database.");
}

#[test]
fn extract_credential_no_credential_node() {
    let resp = response_with(vec![repository(None)]);
    let err = extract_credential(resp).unwrap_err();
    assert_eq!(err, "Repository doesn't have credentials defined.");
}

#[test]
fn extract_credential_missing_username() {
    let resp = response_with(vec![repository(password_credential(None, text(Some("mypass"))))]);
    let err = extract_credential(resp).unwrap_err();
    assert_eq!(err, "Failed to extract username from credentials.");
}

#[test]
fn extract_credential_no_data() {
    let resp = CredentialQueryResponse { data: None };
    let err = extract_credential(resp).unwrap_err();
    assert_eq!(err, "No data in API response");
}

#[test]
fn extract_credential_missing_password_value() {
    let resp = response_with(vec![repository(password_credential(
        text(Some("myuser")),
        text(None),
    ))]);
    let err = extract_credential(resp).unwrap_err();
    assert_eq!(err, "Failed to extract password from credentials.");
}

#[test]
fn extract_credential_repository_without_node() {
    let resp = response_with(vec![RepositoryEdge { node: None }]);
    let err = extract_credential(resp).unwrap_err();
    assert_eq!(err, "Repository not found in the database.");
}

#[test]
fn extract_credential_uses_first_repository() {
    let resp = response_with(vec![
        repository(password_credential(text(Some("first")), text(Some("one")))),
        repository(password_credential(text(Some("second")), text(Some("two")))),
    ]);
    let (username, password) = extract_credential(resp).unwrap();
    assert_eq!(username, "first");
    assert_eq!(password, "one");
}

#[test]
fn extract_credential_username_checked_before_password() {
    let resp = response_with(vec![repository(password_credential(text(None), None))]);
    let err = extract_credential(resp).unwrap_err();
    assert_eq!(err, "Failed to extract username from credentials.");
}
