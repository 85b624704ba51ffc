use notification_gateway::decimal::{parse_i64, write_i64};
use notification_gateway::error::BrokerError;
use notification_gateway::events::ChannelTag;

#[test]
fn parses_each_address_kind() {
    assert_eq!(ChannelTag::parse_address("Broadcast"), Ok(ChannelTag::Broadcast));
    assert_eq!(ChannelTag::parse_address("User:42"), Ok(ChannelTag::UserId(42)));
    assert_eq!(ChannelTag::parse_address("User:-7"), Ok(ChannelTag::UserId(-7)));
    assert_eq!(
        ChannelTag::parse_address("Channel:ops"),
        Ok(ChannelTag::ChannelId("ops".to_string()))
    );
    assert_eq!(
        ChannelTag::parse_address("Channel:a:b"),
        Ok(ChannelTag::ChannelId("a:b".to_string()))
    );
    assert_eq!(
        ChannelTag::parse_address("Channel:"),
        Ok(ChannelTag::ChannelId(String::new()))
    );
}

#[test]
fn rejects_invalid_addresses() {
    for bad in ["", "Foo:1", "User:abc", "User:", "User:-", "Broadcast:x", "broadcast", "Channel", "User:12a"] {
        assert_eq!(ChannelTag::parse_address(bad), Err(BrokerError::InvalidAddress), "{bad}");
    }
}

#[test]
fn rejects_user_ids_out_of_range() {
    assert_eq!(
        ChannelTag::parse_address("User:9223372036854775808"),
        Err(BrokerError::InvalidAddress)
    );
    assert_eq!(
        ChannelTag::parse_address("User:-9223372036854775808"),
        Ok(ChannelTag::UserId(i64::MIN))
    );
    assert_eq!(
        ChannelTag::parse_address("User:9223372036854775807"),
        Ok(ChannelTag::UserId(i64::MAX))
    );
}

#[test]
fn writes_addresses() {
    assert_eq!(ChannelTag::Broadcast.to_address(), "Broadcast");
    assert_eq!(ChannelTag::UserId(0).to_address(), "User:0");
    assert_eq!(ChannelTag::UserId(-12).to_address(), "User:-12");
    assert_eq!(ChannelTag::UserId(i64::MIN).to_address(), "User:-9223372036854775808");
    assert_eq!(ChannelTag::ChannelId("alerts".to_string()).to_address(), "Channel:alerts");
}

#[test]
fn valid_addresses_round_trip() {
    for s in ["Broadcast", "User:1", "User:-1", "User:0", "User:9223372036854775807", "Channel:ops", "Channel:", "Channel:x:y"] {
        let tag = ChannelTag::parse_address(s).unwrap();
        assert_eq!(tag.to_address(), s);
    }
}

#[test]
fn tags_round_trip_through_addresses() {
    let tags = [
        ChannelTag::Broadcast,
        ChannelTag::UserId(77),
        ChannelTag::UserId(-5),
        ChannelTag::ChannelId("ops".to_string()),
    ];
    for t in tags {
        assert_eq!(ChannelTag::parse_address(&t.to_address()), Ok(t.clone()));
    }
}

#[test]
fn non_canonical_user_ids_read_but_write_canonically() {
    let tag = ChannelTag::parse_address("User:007").unwrap();
    assert_eq!(tag, ChannelTag::UserId(7));
    assert_eq!(tag.to_address(), "User:7");
    assert_eq!(ChannelTag::parse_address("User:+5"), Ok(ChannelTag::UserId(5)));
}

#[test]
fn decimal_reader_matches_std() {
    for s in ["0", "-0", "+0", "12", "-12", "+12", "007", "", "-", "+", "1-2", " 1", "9223372036854775807", "9223372036854775808", "-9223372036854775808", "-9223372036854775809", "99999999999999999999999"] {
        assert_eq!(parse_i64(s), s.parse::<i64>().ok(), "{s}");
    }
}

#[test]
fn decimal_writer_matches_std() {
    for n in [0i64, 1, -1, 9, 10, -10, 123456789, i64::MAX, i64::MIN] {
        let mut out = String::from("x=");
        write_i64(&mut out, n);
        assert_eq!(out, format!("x={n}"));
    }
}

#[test]
fn from_str_reads_addresses() {
    let tag: ChannelTag = "Channel:ops".parse().unwrap();
    assert_eq!(tag, ChannelTag::ChannelId("ops".to_string()));
    assert_eq!("Foo:1".parse::<ChannelTag>(), Err(BrokerError::InvalidAddress));
}
