//! Routing tags, their wire addresses, and the event envelopes that the broker fans out.
use vstd::prelude::*;
use vstd::string::*;

use crate::decimal::{
    decimal_of, is_canonical_decimal, lemma_canonical_decimal, lemma_decimal_round_trip, parse_i64,
    parse_i64_spec, write_i64,
};
use crate::error::BrokerError;

verus! {

/// Mathematical value of a routing tag.
pub enum TagModel {
    User(i64),
    Channel(Seq<char>),
    Broadcast,
}

/// A routing target: one user, one named channel, or every subscriber.
#[derive(Debug, Eq, Hash)]
pub enum ChannelTag {
    UserId(i64),
    ChannelId(String),
    Broadcast,
}

impl View for ChannelTag {
    type V = TagModel;

    open spec fn view(&self) -> TagModel {
        match self {
            ChannelTag::UserId(id) => TagModel::User(*id),
            ChannelTag::ChannelId(name) => TagModel::Channel(name@),
            ChannelTag::Broadcast => TagModel::Broadcast,
        }
    }
}

impl PartialEq for ChannelTag {
    fn eq(&self, other: &ChannelTag) -> (r: bool)
        ensures
            r == (self@ == other@),
    {
        match self {
            ChannelTag::UserId(a) => match other {
                ChannelTag::UserId(b) => *a == *b,
                _ => false,
            },
            ChannelTag::ChannelId(a) => match other {
                ChannelTag::ChannelId(b) => same_text(a.as_str(), b.as_str()),
                _ => false,
            },
            ChannelTag::Broadcast => match other {
                ChannelTag::Broadcast => true,
                _ => false,
            },
        }
    }
}

impl vstd::std_specs::cmp::PartialEqSpecImpl for ChannelTag {
    open spec fn obeys_eq_spec() -> bool {
        true
    }

    open spec fn eq_spec(&self, other: &ChannelTag) -> bool {
        self@ == other@
    }
}

impl Clone for ChannelTag {
    fn clone(&self) -> (r: Self)
        ensures
            r == *self,
    {
        match self {
            ChannelTag::UserId(id) => ChannelTag::UserId(*id),
            ChannelTag::ChannelId(name) => ChannelTag::ChannelId(name.clone()),
            ChannelTag::Broadcast => ChannelTag::Broadcast,
        }
    }
}

pub open spec fn user_prefix() -> Seq<char> {
    seq!['U', 's', 'e', 'r', ':']
}

pub open spec fn channel_prefix() -> Seq<char> {
    seq!['C', 'h', 'a', 'n', 'n', 'e', 'l', ':']
}

pub open spec fn broadcast_word() -> Seq<char> {
    seq!['B', 'r', 'o', 'a', 'd', 'c', 'a', 's', 't']
}

pub open spec fn starts_with(s: Seq<char>, p: Seq<char>) -> bool {
    p.len() <= s.len() && s.subrange(0, p.len() as int) == p
}

/// The tag an address denotes: `Broadcast`, `User:<i64>` or `Channel:<name>`.
pub open spec fn address_tag(s: Seq<char>) -> Option<TagModel> {
    if s == broadcast_word() {
        Some(TagModel::Broadcast)
    } else if starts_with(s, user_prefix()) {
        match parse_i64_spec(s.subrange(5, s.len() as int)) {
            Some(id) => Some(TagModel::User(id)),
            None => None,
        }
    } else if starts_with(s, channel_prefix()) {
        Some(TagModel::Channel(s.subrange(8, s.len() as int)))
    } else {
        None
    }
}

/// The address written for a tag.
pub open spec fn address_of(t: TagModel) -> Seq<char> {
    match t {
        TagModel::User(id) => user_prefix() + decimal_of(id as int),
        TagModel::Channel(name) => channel_prefix() + name,
        TagModel::Broadcast => broadcast_word(),
    }
}

fn same_text(a: &str, b: &str) -> (r: bool)
    ensures
        r == (a@ == b@),
{
    if a.unicode_len() != b.unicode_len() {
        return false;
    }
    let r = has_prefix(a, b);
    proof {
        if r {
            assert(a@ =~= a@.subrange(0, b@.len() as int));
        } else if a@ == b@ {
            assert(a@.subrange(0, b@.len() as int) =~= a@);
        }
    }
    r
}

pub(crate) fn has_prefix(s: &str, p: &str) -> (r: bool)
    ensures
        r == starts_with(s@, p@),
{
    let n = s.unicode_len();
    let m = p.unicode_len();
    if m > n {
        return false;
    }
    let mut i: usize = 0;
    while i < m
        invariant
            i <= m <= n,
            n == s@.len(),
            m == p@.len(),
            forall|j: int| 0 <= j < i ==> s@[j] == p@[j],
        decreases m - i,
    {
        if s.get_char(i) != p.get_char(i) {
            assert(s@.subrange(0, m as int)[i as int] != p@[i as int]);
            return false;
        }
        i = i + 1;
    }
    assert(s@.subrange(0, m as int) =~= p@);
    true
}

impl ChannelTag {
    /// Reads a wire address. Anything but `Broadcast`, `User:<i64>` or
    /// `Channel:<name>` is an invalid address.
    pub fn parse_address(input: &str) -> (r: Result<ChannelTag, BrokerError>)
        ensures
            match address_tag(input@) {
                Some(t) => r matches Ok(tag) && tag@ == t,
                None => r == Err::<ChannelTag, BrokerError>(BrokerError::InvalidAddress),
            },
    {
        proof {
            reveal_strlit("Broadcast");
            reveal_strlit("User:");
            reveal_strlit("Channel:");
            assert("Broadcast"@ =~= broadcast_word());
            assert("User:"@ =~= user_prefix());
            assert("Channel:"@ =~= channel_prefix());
        }
        let n = input.unicode_len();
        if has_prefix(input, "Broadcast") && n == 9 {
            assert(input@ =~= input@.subrange(0, 9));
            return Ok(ChannelTag::Broadcast);
        }
        proof {
            if input@ == broadcast_word() {
                assert(input@.subrange(0, 9) =~= input@);
            }
        }
        if has_prefix(input, "User:") {
            let rest = input.substring_char(5, n);
            return match parse_i64(rest) {
                Some(id) => Ok(ChannelTag::UserId(id)),
                None => Err(BrokerError::InvalidAddress),
            };
        }
        if has_prefix(input, "Channel:") {
            let rest = input.substring_char(8, n);
            return Ok(ChannelTag::ChannelId(String::from_str(rest)));
        }
        Err(BrokerError::InvalidAddress)
    }

    /// Writes the wire address of this tag.
    pub fn to_address(&self) -> (r: String)
        ensures
            r@ == address_of(self@),
    {
        proof {
            reveal_strlit("Broadcast");
            reveal_strlit("User:");
            reveal_strlit("Channel:");
        }
        match self {
            ChannelTag::UserId(id) => {
                let mut out = String::from_str("User:");
                write_i64(&mut out, *id);
                assert(out@ =~= address_of(self@));
                out
            },
            ChannelTag::ChannelId(name) => {
                let mut out = String::from_str("Channel:");
                out.append(name.as_str());
                assert(out@ =~= address_of(self@));
                out
            },
            ChannelTag::Broadcast => {
                let out = String::from_str("Broadcast");
                assert(out@ =~= address_of(self@));
                out
            },
        }
    }
}

impl std::str::FromStr for ChannelTag {
    type Err = BrokerError;

    fn from_str(input: &str) -> (r: Result<ChannelTag, BrokerError>)
        ensures
            match address_tag(input@) {
                Some(t) => r matches Ok(tag) && tag@ == t,
                None => r == Err::<ChannelTag, BrokerError>(BrokerError::InvalidAddress),
            },
    {
        ChannelTag::parse_address(input)
    }
}

/// Reading the address written for any tag gives that tag back.
pub proof fn lemma_address_of_parses(t: TagModel)
    ensures
        address_tag(address_of(t)) == Some(t),
{
    let s = address_of(t);
    match t {
        TagModel::User(id) => {
            lemma_decimal_round_trip(id);
            assert(s[0] == 'U');
            assert(s.subrange(0, 5) =~= user_prefix());
            assert(s.subrange(5, s.len() as int) =~= decimal_of(id as int));
        },
        TagModel::Channel(name) => {
            assert(s[0] == 'C');
            assert(s.subrange(0, 8) =~= channel_prefix());
            assert(s.subrange(8, s.len() as int) =~= name);
            if 5 <= s.len() {
                assert(s.subrange(0, 5)[0] == 'C');
            }
        },
        TagModel::Broadcast => {},
    }
}

/// Writing back the tag of a valid address gives the address itself, for
/// every address whose user id, if any, is written in canonical decimal.
pub proof fn lemma_address_round_trip(s: Seq<char>)
    requires
        address_tag(s) is Some,
        starts_with(s, user_prefix()) ==> is_canonical_decimal(s.subrange(5, s.len() as int)),
    ensures
        address_of(address_tag(s)->Some_0) == s,
{
    if s == broadcast_word() {
    } else if starts_with(s, user_prefix()) {
        let rest = s.subrange(5, s.len() as int);
        lemma_canonical_decimal(rest);
        assert(user_prefix() + rest =~= s);
    } else {
        let rest = s.subrange(8, s.len() as int);
        assert(channel_prefix() + rest =~= s);
    }
}

/// An immutable notification record, produced once per publish.
#[derive(Debug)]
pub struct NotificationMessage {
    pub id: i64,
    pub datetime: i64,
    pub channel: String,
    pub subject: String,
    pub message: String,
}

impl Clone for NotificationMessage {
    fn clone(&self) -> (r: Self)
        ensures
            r == *self,
    {
        NotificationMessage {
            id: self.id,
            datetime: self.datetime,
            channel: self.channel.clone(),
            subject: self.subject.clone(),
            message: self.message.clone(),
        }
    }
}

/// The envelope fanned out to subscribers; the variant records how the
/// target was resolved.
#[derive(Debug)]
pub enum EventMessage {
    User(NotificationMessage),
    Channel(NotificationMessage),
    Broadcast(NotificationMessage),
}

impl Clone for EventMessage {
    fn clone(&self) -> (r: Self)
        ensures
            r == *self,
    {
        match self {
            EventMessage::User(m) => EventMessage::User(m.clone()),
            EventMessage::Channel(m) => EventMessage::Channel(m.clone()),
            EventMessage::Broadcast(m) => EventMessage::Broadcast(m.clone()),
        }
    }
}

/// The envelope kind that a target tag calls for.
pub open spec fn envelope_for(t: TagModel, m: NotificationMessage) -> EventMessage {
    match t {
        TagModel::User(_) => EventMessage::User(m),
        TagModel::Channel(_) => EventMessage::Channel(m),
        TagModel::Broadcast => EventMessage::Broadcast(m),
    }
}

impl EventMessage {
    /// Wraps `message` in the envelope kind that `tag` calls for.
    pub fn for_tag(tag: &ChannelTag, message: NotificationMessage) -> (r: EventMessage)
        ensures
            r == envelope_for(tag@, message),
    {
        match tag {
            ChannelTag::UserId(_) => EventMessage::User(message),
            ChannelTag::ChannelId(_) => EventMessage::Channel(message),
            ChannelTag::Broadcast => EventMessage::Broadcast(message),
        }
    }

    /// The record inside the envelope.
    pub fn notification(&self) -> (r: &NotificationMessage)
        ensures
            match self {
                EventMessage::User(m) => *r == m,
                EventMessage::Channel(m) => *r == m,
                EventMessage::Broadcast(m) => *r == m,
            },
    {
        match self {
            EventMessage::User(m) => m,
            EventMessage::Channel(m) => m,
            EventMessage::Broadcast(m) => m,
        }
    }
}

} // verus!
