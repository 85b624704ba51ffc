//! Request bodies the gateway accepts, each with the field rules it is checked
//! against before any work is done.
use vstd::prelude::*;
use vstd::string::*;

use crate::error::BrokerError;

verus! {

/// Whether `s` passes `validator::validate_email`.
pub uninterp spec fn email_valid(s: Seq<char>) -> bool;

/// Relies on `validator::validate_email`, which looks at the text alone and
/// refuses an empty text or one without `@` before any other test.
#[verifier::external_body]
fn check_email(s: &str) -> (r: bool)
    ensures
        r == email_valid(s@),
        s@.len() == 0 ==> !r,
        !s@.contains('@') ==> !r,
{
    validator::validate_email(s)
}

/// A present field whose length in characters lies in `min..=max`.
pub open spec fn present_within(f: Option<String>, min: nat, max: nat) -> bool {
    f matches Some(s) && min <= s@.len() <= max
}

/// A present field of at least `min` characters that reads as an email address.
pub open spec fn present_email(f: Option<String>, min: nat) -> bool {
    f matches Some(s) && min <= s@.len() && email_valid(s@)
}

fn length_within(s: &String, min: usize, max: usize) -> (r: bool)
    ensures
        r == (min <= s@.len() <= max),
        s@.len() <= usize::MAX,
{
    let n = s.as_str().unicode_len();
    min <= n && n <= max
}

fn checked_email(f: &Option<String>, min: usize) -> (r: bool)
    ensures
        r == present_email(*f, min as nat),
{
    match f {
        Some(s) => {
            let long_enough = length_within(s, min, usize::MAX);
            long_enough && check_email(s.as_str())
        },
        None => false,
    }
}

fn checked_within(f: &Option<String>, min: usize, max: usize) -> (r: bool)
    ensures
        r == present_within(*f, min as nat, max as nat),
{
    match f {
        Some(s) => length_within(s, min, max),
        None => false,
    }
}

fn checked_nonempty(f: &Option<String>) -> (r: bool)
    ensures
        r == (f matches Some(s) && s@.len() >= 1),
{
    match f {
        Some(s) => length_within(s, 1, usize::MAX),
        None => false,
    }
}

fn verdict(ok: bool) -> (r: Result<(), BrokerError>)
    ensures
        ok ==> r is Ok,
        !ok ==> r == Err::<(), BrokerError>(BrokerError::BadRequest),
{
    if ok {
        Ok(())
    } else {
        Err(BrokerError::BadRequest)
    }
}

/// Page selector for the message history.
pub struct Pagination {
    pub page: Option<i64>,
}

/// A publish request: where to, a subject of 6 to 30 characters, and a body.
pub struct SendNotificationEndpointRequest {
    pub address: Option<String>,
    pub subject: Option<String>,
    pub message: Option<String>,
}

impl SendNotificationEndpointRequest {
    pub open spec fn is_valid(&self) -> bool {
        &&& self.address is Some
        &&& present_within(self.subject, 6, 30)
        &&& self.message is Some
    }

    /// `BadRequest` unless every field is present and the subject has 6 to 30 characters.
    pub fn validate(&self) -> (r: Result<(), BrokerError>)
        ensures
            self.is_valid() ==> r is Ok,
            !self.is_valid() ==> r == Err::<(), BrokerError>(BrokerError::BadRequest),
    {
        verdict(
            self.address.is_some() && checked_within(&self.subject, 6, 30)
                && self.message.is_some(),
        )
    }
}

/// A group-creation request: a name of 6 to 30 characters and the admin's email.
pub struct AddGroupEndpointRequest {
    pub group_name: Option<String>,
    pub admin_email: Option<String>,
}

impl AddGroupEndpointRequest {
    pub open spec fn is_valid(&self) -> bool {
        &&& present_within(self.group_name, 6, 30)
        &&& present_email(self.admin_email, 1)
    }

    /// `BadRequest` unless the name has 6 to 30 characters and the email reads as one.
    pub fn validate(&self) -> (r: Result<(), BrokerError>)
        ensures
            self.is_valid() ==> r is Ok,
            !self.is_valid() ==> r == Err::<(), BrokerError>(BrokerError::BadRequest),
    {
        verdict(checked_within(&self.group_name, 6, 30) && checked_email(&self.admin_email, 1))
    }
}

/// One input slot of a template.
pub struct TemplateInputsEndpoint {
    pub name: Option<String>,
    pub default_value: Option<String>,
}

impl TemplateInputsEndpoint {
    pub open spec fn is_valid(&self) -> bool {
        present_within(self.name, 6, 30)
    }

    /// `BadRequest` unless the name has 6 to 30 characters.
    pub fn validate(&self) -> (r: Result<(), BrokerError>)
        ensures
            self.is_valid() ==> r is Ok,
            !self.is_valid() ==> r == Err::<(), BrokerError>(BrokerError::BadRequest),
    {
        verdict(checked_within(&self.name, 6, 30))
    }
}

/// A template-creation request.
pub struct AddTemplateEndpointRequest {
    pub name: Option<String>,
    pub description: Option<String>,
    pub body: Option<String>,
    pub template_inputs: Option<Vec<TemplateInputsEndpoint>>,
}

impl AddTemplateEndpointRequest {
    pub open spec fn is_valid(&self) -> bool {
        &&& present_within(self.name, 6, 30)
        &&& self.body matches Some(b) && b@.len() >= 1
    }

    /// `BadRequest` unless the name has 6 to 30 characters and the body is not empty.
    pub fn validate(&self) -> (r: Result<(), BrokerError>)
        ensures
            self.is_valid() ==> r is Ok,
            !self.is_valid() ==> r == Err::<(), BrokerError>(BrokerError::BadRequest),
    {
        verdict(checked_within(&self.name, 6, 30) && checked_nonempty(&self.body))
    }
}

/// A sign-up request.
pub struct RegisterEndpointRequest {
    pub email: Option<String>,
    pub password: Option<String>,
    pub first_name: Option<String>,
    pub last_name: Option<String>,
}

impl RegisterEndpointRequest {
    pub open spec fn is_valid(&self) -> bool {
        &&& present_email(self.email, 1)
        &&& present_within(self.password, 8, 30)
        &&& self.first_name is Some
        &&& self.last_name is Some
    }

    /// `BadRequest` unless the email reads as one, the password has 8 to 30
    /// characters and both names are present.
    pub fn validate(&self) -> (r: Result<(), BrokerError>)
        ensures
            self.is_valid() ==> r is Ok,
            !self.is_valid() ==> r == Err::<(), BrokerError>(BrokerError::BadRequest),
    {
        verdict(
            checked_email(&self.email, 1) && checked_within(&self.password, 8, 30)
                && self.first_name.is_some() && self.last_name.is_some(),
        )
    }
}

/// A sign-in request.
pub struct LoginEndpointRequest {
    pub email: Option<String>,
    pub password: Option<String>,
}

impl LoginEndpointRequest {
    pub open spec fn is_valid(&self) -> bool {
        &&& present_email(self.email, 1)
        &&& present_within(self.password, 8, 30)
    }

    /// `BadRequest` unless the email reads as one and the password has 8 to 30 characters.
    pub fn validate(&self) -> (r: Result<(), BrokerError>)
        ensures
            self.is_valid() ==> r is Ok,
            !self.is_valid() ==> r == Err::<(), BrokerError>(BrokerError::BadRequest),
    {
        verdict(checked_email(&self.email, 1) && checked_within(&self.password, 8, 30))
    }
}

/// A request for fresh tokens.
pub struct RefreshtokenEndpointRequest {
    pub token: Option<String>,
}

impl RefreshtokenEndpointRequest {
    pub open spec fn is_valid(&self) -> bool {
        self.token matches Some(t) && t@.len() >= 1
    }

    /// `BadRequest` unless a non-empty token is present.
    pub fn validate(&self) -> (r: Result<(), BrokerError>)
        ensures
            self.is_valid() ==> r is Ok,
            !self.is_valid() ==> r == Err::<(), BrokerError>(BrokerError::BadRequest),
    {
        verdict(checked_nonempty(&self.token))
    }
}

/// A profile update; absent fields are left as they are.
pub struct UpdateEndpointRequest {
    pub password: Option<String>,
    pub first_name: Option<String>,
    pub last_name: Option<String>,
    pub bio: Option<String>,
    pub image: Option<String>,
}

impl UpdateEndpointRequest {
    pub open spec fn is_valid(&self) -> bool {
        self.password matches Some(p) ==> p@.len() >= 8
    }

    /// `BadRequest` when a new password is given with fewer than 8 characters.
    pub fn validate(&self) -> (r: Result<(), BrokerError>)
        ensures
            self.is_valid() ==> r is Ok,
            !self.is_valid() ==> r == Err::<(), BrokerError>(BrokerError::BadRequest),
    {
        match &self.password {
            Some(p) => verdict(length_within(p, 8, usize::MAX)),
            None => Ok(()),
        }
    }
}

/// A role or permission name to add.
pub struct AddRolePermissionRequest {
    pub name: Option<String>,
}

/// Roles to grant to or take from a user.
pub struct AuthorizeRevokeUserRoleRequest {
    pub roles: Option<Vec<String>>,
}

/// Permissions to grant to or take from a role.
pub struct AuthorizeRevokeRolePermissionRequest {
    pub permissions: Option<Vec<String>>,
}

} // verus!
