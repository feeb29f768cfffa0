use mail::rfc5322::{
    raw_received, raw_obs_orig_date, raw_obs_from, raw_obs_reply_to, raw_obs_to, raw_obs_message_id,
    raw_obs_references, raw_obs_subject,
};
use mail::{Address, Field};

#[test]
fn test_raw_received() {
    let i = b"Received: from machine.example by x.y.test; 21 Nov 1997 10:01:22 -0600\x0d\x0a";
    let msg = raw_received(i, 0);
    assert!(msg.is_some());
    let (_, inner_msg) = msg.unwrap();
    match inner_msg {
        Field::Received(ref v) => {
            println!("{}", v.to_string());
        },
        _ => assert!(false),
    };
    assert!(!inner_msg.is_malformed());
}

#[test]
fn test_raw_obs_orig_date() {
    let msg = raw_obs_orig_date(b"Date: 21 Sep 16 19:51 UTC\x0d\x0a", 0);
    assert!(msg.is_some());
    assert!(!msg.unwrap().1.is_malformed());

    let msg = raw_obs_orig_date(b"Date: Thu, 22 Sep 2016 1:46:40 -0700\x0d\x0a", 0);
    assert!(msg.is_some());
    let inner_msg = msg.unwrap().1;
    println!("{}", inner_msg.to_string());
    assert!(!inner_msg.is_malformed());

    let msg = raw_obs_orig_date(b"Date: Fri, 21 Nov 1997 09:55:06 -0600\x0d\x0a", 0);
    assert!(msg.is_some());
    assert!(!msg.unwrap().1.is_malformed());
}

#[test]
fn test_raw_obs_from() {
    let msg = raw_obs_from(b"From: =?utf-8?Q?Humble=20Bundle?= <contact@humblebundle.com>\x0d\x0a", 0);
    assert!(msg.is_some());
    assert!(!msg.unwrap().1.is_malformed());

    let msg = raw_obs_from(b"From: John Doe <jdoe@machine.example>\x0d\x0a", 0);
    assert!(msg.is_some());
    assert!(!msg.unwrap().1.is_malformed());

    let msg = raw_obs_from(b"From: \"Joe Q. Public\" <john.q.public@example.com>\x0d\x0a", 0);
    assert!(msg.is_some());
    let inner_msg = msg.unwrap().1;
    assert!(!inner_msg.is_malformed());
    match inner_msg {
        Field::From(f) => {
            let act = f.addresses();
            let exp = vec![Address::Mailbox {
                local_part: "john.q.public".to_string(),
                domain: "example.com".to_string(),
                display_name: Some(b" Joe Q. Public ".to_vec()),
            }];
            assert_eq!(act.unwrap(), exp);
        },
        _ => assert!(false),
    }
}

#[test]
fn test_raw_obs_reply_to() {
    let msg = raw_obs_reply_to(b"Reply-to: noreply <noreply@facebookmail.com>\x0d\x0a", 0);
    assert!(msg.is_some());
    assert!(!msg.unwrap().1.is_malformed());
}

#[test]
fn test_raw_obs_to() {
    let msg = raw_obs_to(b"To: Mary Smith <mary@example.net>\x0d\x0a", 0);
    assert!(msg.is_some());
    assert!(!msg.unwrap().1.is_malformed());
}

#[test]
fn test_raw_obs_message_id() {
    let msg = raw_obs_message_id(b"Message-ID: <1234@local.machine.example>\x0d\x0a", 0);
    assert!(msg.is_some());
    assert!(!msg.unwrap().1.is_malformed());
}

#[test]
fn test_raw_obs_references() {
    let msg = raw_obs_references(b"References: <comm-tagged-1077147628989448>\x0d\x0a", 0);
    assert!(msg.is_some());
    assert!(!msg.unwrap().1.is_malformed());

    let msg = raw_obs_references(b"References: <1234@local.machine.example>\x0d\x0a", 0);
    assert!(msg.is_some());
    assert!(!msg.unwrap().1.is_malformed());
}

#[test]
fn test_raw_obs_subject() {
    let msg = raw_obs_subject(b"Subject: Saying Hello\x0d\x0a", 0);
    assert!(msg.is_some());
    assert!(!msg.unwrap().1.is_malformed());
}
