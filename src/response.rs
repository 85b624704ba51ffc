//! Response bodies the gateway sends back.
use vstd::prelude::*;

use crate::events::NotificationMessage;
use crate::request::TemplateInputsEndpoint;
use crate::token::Tokens;

verus! {

/// A one-line status.
pub struct StatusMessageResponse {
    pub status: String,
}

/// The outcome of a notification operation, in words.
pub struct NotificationEndpointResponse {
    pub message: String,
}

/// One page of the message history and the total number of messages.
pub struct NotificationLogsEndpointResponse {
    pub notifications: Vec<NotificationMessage>,
    pub count: i64,
}

/// A user as the authentication endpoints report it.
pub struct UserDto {
    pub id: i64,
    pub username: String,
    pub email: String,
    pub bio: Option<String>,
    pub image: Option<String>,
    pub token: String,
}

pub struct UserAuthenticationResponse {
    pub user: UserDto,
}

impl UserAuthenticationResponse {
    pub fn new(
        id: i64,
        username: String,
        email: String,
        bio: Option<String>,
        image: Option<String>,
        token: String,
    ) -> (r: UserAuthenticationResponse)
        ensures
            r.user == (UserDto { id, username, email, bio, image, token }),
    {
        UserAuthenticationResponse { user: UserDto { id, username, email, bio, image, token } }
    }
}

/// A template and its input slots.
pub struct TemplateEndpointResponse {
    pub name: String,
    pub description: String,
    pub template_inputs: Vec<TemplateInputsEndpoint>,
}

pub struct ListTemplateEndpointResponse {
    pub templates: Vec<TemplateEndpointResponse>,
}

/// A role and the permissions it carries.
pub struct RolePermissions {
    pub role_name: String,
    pub permissions: Vec<String>,
}

/// A user's profile.
pub struct UserEndpointResponse {
    pub id: i64,
    pub email: String,
    pub first_name: String,
    pub last_name: String,
    pub bio: Option<String>,
    pub image: Option<String>,
    pub roles: Vec<RolePermissions>,
}

/// A fresh pair of tokens.
pub struct ObtainTokenResponse {
    pub refresh_token: String,
    pub bearer_token: String,
}

impl ObtainTokenResponse {
    pub fn from_tokens(tokens: Tokens) -> (r: ObtainTokenResponse)
        ensures
            r.refresh_token == tokens.refresh,
            r.bearer_token == tokens.bearer,
    {
        ObtainTokenResponse { refresh_token: tokens.refresh, bearer_token: tokens.bearer }
    }
}

/// The outcome of a sign-up: the address and the token that confirms it.
pub struct RegisterUserEndpointResponse {
    pub email: String,
    pub verify_token: String,
}

pub struct Roles {
    pub id: i64,
    pub name: String,
}

pub struct RolesListResponse {
    pub roles: Vec<Roles>,
    pub count: i64,
}

pub struct Permissions {
    pub id: i64,
    pub name: String,
}

pub struct PermissionsListResponse {
    pub permissions: Vec<Permissions>,
    pub count: i64,
}

/// A user as a listing shows it.
pub struct UserListEndpoint {
    pub id: i64,
    pub email: String,
    pub first_name: String,
    pub last_name: String,
    pub bio: Option<String>,
    pub image: Option<String>,
}

pub struct UserListEndpointResponse {
    pub users: Vec<UserListEndpoint>,
    pub count: i64,
}

} // verus!
