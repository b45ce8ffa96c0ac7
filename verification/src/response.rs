//! The reply to the repository credential query, and the username and
//! password taken out of it.
use vstd::prelude::*;

verus! {

pub const NO_DATA: &'static str = "No data in API response";

pub const REPOSITORY_NOT_FOUND: &'static str = "Repository not found in the database.";

pub const NO_CREDENTIALS: &'static str = "Repository doesn't have credentials defined.";

pub const NO_USERNAME: &'static str = "Failed to extract username from credentials.";

pub const NO_PASSWORD: &'static str = "Failed to extract password from credentials.";

/// The reply to the credential query; the errors and extensions that it may
/// carry play no part.
#[derive(Debug)]
pub struct CredentialQueryResponse {
    pub data: Option<RepositoryQueryData>,
}

/// The `CoreGenericRepository` connection: the repositories found at the location.
#[derive(Debug)]
pub struct RepositoryQueryData {
    pub edges: Vec<RepositoryEdge>,
}

/// One repository of the connection.
#[derive(Debug)]
pub struct RepositoryEdge {
    pub node: Option<RepositoryNode>,
}

/// A repository, as far as the query asks about it.
#[derive(Debug)]
pub struct RepositoryNode {
    pub credential: RelatedCredential,
}

/// The repository's `credential` relationship.
#[derive(Debug)]
pub struct RelatedCredential {
    pub node: Option<CredentialNode>,
}

/// A credential, by its kind.
#[derive(Debug)]
pub enum CredentialNode {
    CorePasswordCredential(PasswordCredential),
}

/// A username and password credential.
#[derive(Debug)]
pub struct PasswordCredential {
    pub username: Option<TextAttribute>,
    pub password: Option<TextAttribute>,
}

/// A text attribute of a node.
#[derive(Debug)]
pub struct TextAttribute {
    pub value: Option<String>,
}

/// The text that an attribute holds, if the attribute is there and holds one.
pub open spec fn attribute_text(a: Option<TextAttribute>) -> Option<Seq<char>> {
    match a {
        Some(TextAttribute { value: Some(v) }) => Some(v@),
        _ => None,
    }
}

/// The username and password that a reply carries for the first repository
/// found, or the refusal, in this order: no data; no repository (or a first
/// one without a node); no credential; no username; no password.
pub open spec fn extracted_credential(response: CredentialQueryResponse) -> Result<
    (Seq<char>, Seq<char>),
    Seq<char>,
> {
    match response.data {
        None => Err(NO_DATA@),
        Some(data) => if data.edges@.len() == 0 {
            Err(REPOSITORY_NOT_FOUND@)
        } else {
            match data.edges@[0].node {
                None => Err(REPOSITORY_NOT_FOUND@),
                Some(repository) => match repository.credential.node {
                    None => Err(NO_CREDENTIALS@),
                    Some(CredentialNode::CorePasswordCredential(c)) => match attribute_text(
                        c.username,
                    ) {
                        None => Err(NO_USERNAME@),
                        Some(u) => match attribute_text(c.password) {
                            None => Err(NO_PASSWORD@),
                            Some(p) => Ok((u, p)),
                        },
                    },
                },
            }
        },
    }
}

/// The view of an extraction's outcome.
pub open spec fn credential_view(r: Result<(String, String), String>) -> Result<
    (Seq<char>, Seq<char>),
    Seq<char>,
> {
    match r {
        Ok((u, p)) => Ok((u@, p@)),
        Err(e) => Err(e@),
    }
}

/// The text of an attribute, copied out.
fn attribute_value(a: &Option<TextAttribute>) -> (r: Option<String>)
    ensures
        match r {
            Some(s) => attribute_text(*a) == Some(s@),
            None => attribute_text(*a) is None,
        },
{
    match a {
        Some(attr) => match &attr.value {
            Some(v) => Some(v.clone()),
            None => None,
        },
        None => None,
    }
}

/// The username and password for the repository that the reply describes.
pub fn extract_credential(response: CredentialQueryResponse) -> (r: Result<(String, String), String>)
    ensures
        credential_view(r) == extracted_credential(response),
        first_credential(response) matches Some((u, p)) ==> (r matches Ok((ru, rp)) && ru@ == u
            && rp@ == p),
        r matches Ok((ru, rp)) ==> first_credential(response) == Some((ru@, rp@)),
{
    proof {
        law_credential_is_handed_out_unchanged(response);
    }
    let data = match &response.data {
        Some(d) => d,
        None => {
            return Err(String::from_str(NO_DATA));
        },
    };
    if data.edges.len() == 0 {
        return Err(String::from_str(REPOSITORY_NOT_FOUND));
    }
    let repository = match &data.edges[0].node {
        Some(n) => n,
        None => {
            return Err(String::from_str(REPOSITORY_NOT_FOUND));
        },
    };
    let credential = match &repository.credential.node {
        Some(c) => c,
        None => {
            return Err(String::from_str(NO_CREDENTIALS));
        },
    };
    match credential {
        CredentialNode::CorePasswordCredential(c) => {
            let username = match attribute_value(&c.username) {
                Some(u) => u,
                None => {
                    return Err(String::from_str(NO_USERNAME));
                },
            };
            let password = match attribute_value(&c.password) {
                Some(p) => p,
                None => {
                    return Err(String::from_str(NO_PASSWORD));
                },
            };
            Ok((username, password))
        },
    }
}

/// Law: only the first repository that the reply lists counts: two replies
/// whose first repositories agree give the same credential or refusal.
pub proof fn law_only_first_repository_counts(
    one: CredentialQueryResponse,
    other: CredentialQueryResponse,
)
    requires
        one.data matches Some(d1) && other.data matches Some(d2) && d1.edges@.len() > 0
            && d2.edges@.len() > 0 && d1.edges@[0] == d2.edges@[0],
    ensures
        extracted_credential(one) == extracted_credential(other),
{
}

/// The username and password texts that the first repository's password
/// credential holds, when it holds both.
pub open spec fn first_credential(response: CredentialQueryResponse) -> Option<
    (Seq<char>, Seq<char>),
> {
    if let Some(data) = response.data {
        if data.edges@.len() > 0 {
            if let Some(repository) = data.edges@[0].node {
                if let Some(CredentialNode::CorePasswordCredential(c)) = repository.credential.node {
                    if let (
                        Some(TextAttribute { value: Some(u) }),
                        Some(TextAttribute { value: Some(p) }),
                    ) = (c.username, c.password) {
                        Some((u@, p@))
                    } else {
                        None
                    }
                } else {
                    None
                }
            } else {
                None
            }
        } else {
            None
        }
    } else {
        None
    }
}

/// Law: the credential comes out exactly as the first repository holds it:
/// when that repository's credential holds a username and a password, the
/// result is those two texts, unchanged, whatever their length; and any
/// credential handed out is one that the first repository holds.
pub proof fn law_credential_is_handed_out_unchanged(response: CredentialQueryResponse)
    ensures
        first_credential(response) matches Some(pair) ==> extracted_credential(response) == Ok::<
            (Seq<char>, Seq<char>),
            Seq<char>,
        >(pair),
        extracted_credential(response) matches Ok(pair) ==> first_credential(response) == Some(
            pair,
        ),
{
}

} // verus!
