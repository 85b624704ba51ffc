//! The decisions of the notification endpoints. Each endpoint waits on an
//! outside collaborator (the group directory, the message log, the client's
//! stream) between its steps; the steps themselves are here.
use vstd::prelude::*;
use vstd::string::*;

use crate::error::BrokerError;
use crate::events::{address_of, address_tag, envelope_for, ChannelTag, EventMessage, NotificationMessage, TagModel};
use crate::registry::{offered, tag_set, Registry};
use crate::request::{AddGroupEndpointRequest, Pagination, SendNotificationEndpointRequest};
use crate::token::{
    bearer_accepts, sender_accepts, sender_claims_of, signed_token, token_claims, JwtService,
    NotificationSenderClaim, SENDER_TOKEN_LIFETIME,
};

verus! {

/// Messages per page of the history.
pub const PAGINATION_SIZE: i64 = 10;

/// The tags a connection listens on: none without a user; else the user's own
/// tag, then one channel tag per group the directory reported.
pub open spec fn connection_tags(user: Option<i64>, groups: Option<Seq<String>>) -> Seq<TagModel> {
    match user {
        None => Seq::empty(),
        Some(u) => seq![TagModel::User(u)] + match groups {
            None => Seq::empty(),
            Some(g) => g.map_values(|n: String| TagModel::Channel(n@)),
        },
    }
}

pub open spec fn names_of(groups: Option<Vec<String>>) -> Option<Seq<String>> {
    match groups {
        Some(g) => Some(g@),
        None => None,
    }
}

/// A publish request that passed its checks and waits for the log to assign
/// its id and time.
pub struct PendingNotification {
    pub tag: ChannelTag,
    pub channel: String,
    pub subject: String,
    pub message: String,
}

/// A group that passed its checks, with the sender token issued for it.
pub struct NewGroup {
    pub group_name: String,
    pub admin_email: String,
    pub token: String,
}

/// The notification endpoints.
pub struct NotificationRouter;

impl NotificationRouter {
    /// Tags for a new connection. `user` is the id read from the bearer token,
    /// if it was valid; `groups` the user's groups, if the directory answered.
    pub fn subscriber_tags(user: Option<i64>, groups: Option<Vec<String>>) -> (r: Vec<ChannelTag>)
        ensures
            r@.map_values(|t: ChannelTag| t@) == connection_tags(
                user,
                names_of(groups),
            ),
    {
        let ghost gs = names_of(groups);
        let mut tags: Vec<ChannelTag> = Vec::new();
        match user {
            None => {
                assert(tags@.map_values(|t: ChannelTag| t@) =~= connection_tags(user, gs));
            },
            Some(u) => {
                tags.push(ChannelTag::UserId(u));
                match groups {
                    None => {
                        assert(tags@.map_values(|t: ChannelTag| t@) =~= connection_tags(user, gs));
                    },
                    Some(g) => {
                        let ghost g0 = g@;
                        let mut rest = g;
                        let mut out: Vec<ChannelTag> = Vec::new();
                        let mut k: usize = 0;
                        let n = rest.len();
                        while k < n
                            invariant
                                k <= n,
                                n == g0.len(),
                                rest@ == g0,
                                out@.len() == k,
                                forall|i: int| 0 <= i < k ==> #[trigger] out@[i]@ == TagModel::Channel(g0[i]@),
                            decreases n - k,
                        {
                            out.push(ChannelTag::ChannelId(rest[k].clone()));
                            k = k + 1;
                        }
                        tags.append(&mut out);
                        assert(tags@.map_values(|t: ChannelTag| t@) =~= connection_tags(user, gs));
                    },
                }
            },
        }
        tags
    }

    /// Registers a new connection under the tags of `subscriber_tags`. An
    /// anonymous connection listens on no tag and still receives broadcasts.
    pub fn open_stream(registry: &mut Registry, user: Option<i64>, groups: Option<Vec<String>>) -> (r:
        Option<u64>)
        requires
            old(registry).wf(),
        ensures
            final(registry).wf(),
            final(registry).capacity() == old(registry).capacity(),
            old(registry).next_handle() < u64::MAX ==> {
                &&& r == Some(old(registry).next_handle())
                &&& final(registry).queues() == old(registry).queues().insert(
                    old(registry).next_handle(),
                    Seq::empty(),
                )
                &&& final(registry).subscriptions() == old(registry).subscriptions().insert(
                    old(registry).next_handle(),
                    connection_tags(user, names_of(groups)).to_set(),
                )
            },
            old(registry).next_handle() == u64::MAX ==> r is None && final(registry).subscriptions()
                == old(registry).subscriptions(),
    {
        let tags = NotificationRouter::subscriber_tags(user, groups);
        proof {
            let models = tags@.map_values(|t: ChannelTag| t@);
            assert forall|t: TagModel| tag_set(tags@).contains(t) <==> models.to_set().contains(t) by {
                if tag_set(tags@).contains(t) {
                    let i = choose|i: int| 0 <= i < tags@.len() && #[trigger] tags@[i]@ == t;
                    assert(models[i] == t);
                }
                if models.contains(t) {
                    let i = choose|i: int| 0 <= i < models.len() && models[i] == t;
                    assert(tags@[i]@ == t);
                }
            }
            assert(tag_set(tags@) =~= models.to_set());
        }
        registry.register(tags)
    }

    /// Checks a publish request against the sender token's verdict, in this
    /// order: the request's fields first, then the token, then the address.
    /// Any live sender token authorizes a publish, whatever its target: the
    /// token names the group it was issued for, but a publish may also go to
    /// one user or to everyone, so the target is not compared with it.
    pub fn check_publish(
        request: SendNotificationEndpointRequest,
        sender: Result<NotificationSenderClaim, BrokerError>,
    ) -> (r: Result<PendingNotification, BrokerError>)
        ensures
            !request.is_valid() ==> r == Err::<PendingNotification, BrokerError>(BrokerError::BadRequest),
            request.is_valid() ==> match sender {
                Err(e) => r == Err::<PendingNotification, BrokerError>(e),
                Ok(_) => match address_tag(request.address->Some_0@) {
                    None => r == Err::<PendingNotification, BrokerError>(BrokerError::InvalidAddress),
                    Some(t) => r matches Ok(p) && {
                        &&& p.tag@ == t
                        &&& p.channel@ == address_of(t)
                        &&& p.subject == request.subject->Some_0
                        &&& p.message == request.message->Some_0
                    },
                },
            },
    {
        if request.validate().is_err() {
            return Err(BrokerError::BadRequest);
        }
        if let Err(e) = sender {
            return Err(e);
        }
        match request {
            SendNotificationEndpointRequest { address: Some(a), subject: Some(s), message: Some(m) } => {
                let tag = ChannelTag::parse_address(a.as_str())?;
                let channel = tag.to_address();
                Ok(PendingNotification { tag, channel, subject: s, message: m })
            },
            _ => Err(BrokerError::BadRequest),
        }
    }

    /// Checks a publish request, reading the sender token at time `now`.
    pub fn prepare_notification(
        jwt: &JwtService,
        sender_token: &str,
        now: u64,
        request: SendNotificationEndpointRequest,
    ) -> (r: Result<PendingNotification, BrokerError>)
        ensures
            !request.is_valid() ==> r == Err::<PendingNotification, BrokerError>(BrokerError::BadRequest),
            request.is_valid() ==> match token_claims(sender_token@, jwt.sender_secret()) {
                Some(c) if sender_accepts(c, now) => match address_tag(request.address->Some_0@) {
                    None => r == Err::<PendingNotification, BrokerError>(BrokerError::InvalidAddress),
                    Some(t) => r matches Ok(p) && {
                        &&& p.tag@ == t
                        &&& p.channel@ == address_of(t)
                        &&& p.subject == request.subject->Some_0
                        &&& p.message == request.message->Some_0
                    },
                },
                _ => r == Err::<PendingNotification, BrokerError>(BrokerError::Unauthorized),
            },
    {
        if request.validate().is_err() {
            return Err(BrokerError::BadRequest);
        }
        let sender = jwt.decode_notification_sender_token(sender_token, now);
        NotificationRouter::check_publish(request, sender)
    }

    /// Fans a checked notification out, once the log has assigned it `id` and
    /// `datetime`: the envelope kind follows the tag.
    pub fn publish(registry: &mut Registry, pending: PendingNotification, id: i64, datetime: i64)
        requires
            old(registry).wf(),
        ensures
            final(registry).wf(),
            final(registry).subscriptions() == old(registry).subscriptions(),
            final(registry).capacity() == old(registry).capacity(),
            final(registry).next_handle() == old(registry).next_handle(),
            final(registry).queues() == offered(
                old(registry).queues(),
                old(registry).audience(pending.tag@),
                old(registry).capacity(),
                envelope_for(
                    pending.tag@,
                    NotificationMessage {
                        id,
                        datetime,
                        channel: pending.channel,
                        subject: pending.subject,
                        message: pending.message,
                    },
                ),
            ),
    {
        let PendingNotification { tag, channel, subject, message } = pending;
        let record = NotificationMessage { id, datetime, channel, subject, message };
        let envelope = EventMessage::for_tag(&tag, record);
        registry.deliver_to_tag(&tag, &envelope);
    }

    /// Checks a group-creation request and issues the group's sender token at
    /// time `now`: the fields first, then the caller's bearer token.
    pub fn prepare_group(
        jwt: &JwtService,
        bearer_token: &str,
        now: u64,
        request: AddGroupEndpointRequest,
    ) -> (r: Result<NewGroup, BrokerError>)
        requires
            now <= u64::MAX - SENDER_TOKEN_LIFETIME,
        ensures
            !request.is_valid() ==> r == Err::<NewGroup, BrokerError>(BrokerError::BadRequest),
            request.is_valid() ==> match token_claims(bearer_token@, jwt.bearer_secret()) {
                Some(c) if bearer_accepts(c, now) => r matches Ok(g) && {
                    &&& g.group_name == request.group_name->Some_0
                    &&& g.admin_email == request.admin_email->Some_0
                    &&& g.token@ == signed_token(
                        sender_claims_of(
                            g.group_name@,
                            g.admin_email@,
                            (now + SENDER_TOKEN_LIFETIME) as u64,
                        ),
                        jwt.sender_secret(),
                    )
                },
                _ => r == Err::<NewGroup, BrokerError>(BrokerError::Unauthorized),
            },
    {
        if request.validate().is_err() {
            return Err(BrokerError::BadRequest);
        }
        jwt.decode_bearer_token(bearer_token, now)?;
        match request {
            AddGroupEndpointRequest { group_name: Some(group_name), admin_email: Some(admin_email) } => {
                let token = jwt.create_notification_sender_token(
                    group_name.as_str(),
                    admin_email.as_str(),
                    now,
                )?;
                Ok(NewGroup { group_name, admin_email, token })
            },
            _ => Err(BrokerError::BadRequest),
        }
    }

    /// The status line returned for a new group, which hands out its token.
    pub fn group_created_message(group_name: &str, token: &str) -> (r: String)
        ensures
            r@ == "successfully created group: "@ + group_name@ + ", group token is: "@ + token@,
    {
        let mut out = String::from_str("successfully created group: ");
        out.append(group_name);
        out.append(", group token is: ");
        out.append(token);
        out
    }

    /// Addresses whose history a user may read: those of its connection tags.
    pub fn log_channels(user: Option<i64>, groups: Option<Vec<String>>) -> (r: Vec<String>)
        ensures
            r@.len() == connection_tags(
                user,
                names_of(groups),
            ).len(),
            forall|i: int|
                0 <= i < r@.len() ==> #[trigger] r@[i]@ == address_of(
                    connection_tags(
                        user,
                        names_of(groups),
                    )[i],
                ),
    {
        let tags = NotificationRouter::subscriber_tags(user, groups);
        let mut out: Vec<String> = Vec::new();
        let mut k: usize = 0;
        while k < tags.len()
            invariant
                k <= tags@.len(),
                out@.len() == k,
                forall|i: int| 0 <= i < k ==> #[trigger] out@[i]@ == address_of(tags@[i]@),
            decreases tags@.len() - k,
        {
            out.push(tags[k].to_address());
            k = k + 1;
        }
        proof {
            assert forall|i: int| 0 <= i < out@.len() implies #[trigger] out@[i]@ == address_of(
                tags@.map_values(|t: ChannelTag| t@)[i],
            ) by {}
        }
        out
    }

    /// The history window of a page: `(offset, limit)` with `offset` the page
    /// number times `PAGINATION_SIZE`; no page means the first. A page whose
    /// offset does not fit in an `i64` is a bad request.
    pub fn log_window(pagination: &Pagination) -> (r: Result<(i64, i64), BrokerError>)
        ensures
            match pagination.page {
                None => r == Ok::<(i64, i64), BrokerError>((0, PAGINATION_SIZE)),
                Some(p) => if i64::MIN <= p * PAGINATION_SIZE <= i64::MAX {
                    r == Ok::<(i64, i64), BrokerError>(((p * PAGINATION_SIZE) as i64, PAGINATION_SIZE))
                } else {
                    r == Err::<(i64, i64), BrokerError>(BrokerError::BadRequest)
                },
            },
    {
        match pagination.page {
            None => Ok((0, PAGINATION_SIZE)),
            Some(p) => {
                if p > i64::MAX / PAGINATION_SIZE || p < i64::MIN / PAGINATION_SIZE {
                    Err(BrokerError::BadRequest)
                } else {
                    Ok((p * PAGINATION_SIZE, PAGINATION_SIZE))
                }
            },
        }
    }
}

/// The token service as the endpoints share it.
pub struct StateTokenService(pub JwtService);

impl StateTokenService {
    pub fn new(token_service: JwtService) -> (r: StateTokenService)
        ensures
            r.0 == token_service,
    {
        StateTokenService(token_service)
    }
}

} // verus!
