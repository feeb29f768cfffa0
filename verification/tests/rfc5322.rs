use mail::rfc5322::{
    cfws, atext, atom, qcontent, quoted_string, word, phrase, display_name, date_time, date, day, month, year,
    time, zone, mailbox, name_addr, angle_addr, group, mailbox_list, address_list, addr_spec, local_part,
    domain, received_token, many1_cr_not_lf, obs_phrase, obs_zone,
};
use mail::{Address, Date, DateTime};

fn mbox(local_part: &str, domain: &str, display_name: Option<&[u8]>) -> Address {
    Address::Mailbox {
        local_part: local_part.to_string(),
        domain: domain.to_string(),
        display_name: display_name.map(|d| d.to_vec()),
    }
}

#[test]
fn rfc5322_test_cfws() {
    assert!(cfws(b"(his account)", 0).is_some());
    assert!(cfws(b"\r\n ", 0).is_some());
    assert!(cfws(b"(comment)\r\n ", 0).is_some());
    assert!(cfws(b"(comment)(comment)\r\n ", 0).is_some());
    assert!(cfws(b"(comment)\r\n (comment)\r\n ", 0).is_some());
    assert!(cfws(b"\r\n (comment)\r\n (comment)\r\n ", 0).is_some());
}

#[test]
fn test_atext() {
    assert!(atext(b"=", 0).is_some());
    assert!(atext(b"?", 0).is_some());
    assert!(atext(b"-", 0).is_some());
}

#[test]
fn test_atom() {
    assert!(atom(b" =?utf-8?Q?Humble=20Bundle?= ", 0).is_some());
    assert!(atom(b" \"Joe Q. Public\" ", 0).is_none());
}

#[test]
fn test_qcontent() {
    let msg = qcontent(b"G", 0);
    assert!(msg.is_some());
    assert_eq!(msg.unwrap().1, b'G');

    let msg = qcontent(b"\\\"", 0);
    assert!(msg.is_some());
    assert_eq!(msg.unwrap().1, b'\"');
}

#[test]
fn test_quoted_string() {
    let msg = quoted_string(b"\"Giant; \\\"Big\\\" Box\"", 0);
    assert!(msg.is_some());
    assert_eq!(msg.unwrap().1, b"Giant; \\\"Big\\\" Box".to_vec());

    let msg = quoted_string(b" \"Joe Q. Public\" ", 0);
    assert!(msg.is_some());
    assert_eq!(msg.unwrap().1, b" Joe Q. Public ".to_vec());
}

#[test]
fn test_word() {
    assert!(word(b" =?utf-8?Q?Humble=20Bundle?= ", 0).is_some());

    let msg = word(b"Joe ", 0);
    assert!(msg.is_some());
    assert_eq!(msg.unwrap().1, b"Joe ".to_vec());

    let msg = word(b" \"Joe Q. Public\" ", 0);
    assert!(msg.is_some());
    assert_eq!(msg.unwrap().1, b" Joe Q. Public ".to_vec());
}

#[test]
fn rfc5322_test_phrase() {
    assert!(phrase(b" =?utf-8?Q?Humble=20Bundle?= ", 0).is_some());

    let msg = phrase(b"Joe Q. Public", 0);
    assert!(msg.is_some());
    assert_eq!(msg.unwrap().1, b"Joe Q. Public".to_vec());

    let msg = display_name(b" \"Joe Q. Public\" ", 0);
    assert!(msg.is_some());
    assert_eq!(msg.unwrap().1, b" Joe Q. Public ".to_vec());
}

#[test]
fn rfc5322_test_date_time() {
    assert!(date_time(b"Thu, 22 Sep 2016 1:46:40 -0700", 0).is_some());

    let msg = date_time(b"21 Sep 16 19:51 UTC", 0);
    assert!(msg.is_some());
    assert_eq!(
        msg.unwrap().1,
        DateTime { year: 2016, month: 9, day: 21, hour: 19, minute: 51, second: 0, offset: 0 }
    );

    let msg = date_time(b"Fri, 21 Nov 1997 09:55:06 -0600", 0);
    assert!(msg.is_some());
    assert_eq!(
        msg.unwrap().1,
        DateTime { year: 1997, month: 11, day: 21, hour: 9, minute: 55, second: 6, offset: -6 * 3600 }
    );

    let msg = date_time(b"21 Nov 97 09:55:06 GMT", 0);
    assert!(msg.is_some());
    assert_eq!(
        msg.unwrap().1,
        DateTime { year: 1997, month: 11, day: 21, hour: 9, minute: 55, second: 6, offset: 0 }
    );

    let i = b"Thu,\r\n      13\r\n        Feb\r\n          1969\r\n 23:32\r\n               -0330 (Newfoundland Time)\r\n";
    assert!(date_time(i, 0).is_some());
}

#[test]
fn rfc5322_test_date() {
    let msg = date(b"21 Sept 16", 0);
    assert!(msg.is_some());
    assert_eq!(msg.unwrap().1, Date { year: 2016, month: 9, day: 21 });

    let msg = date(b"21 Nov 97", 0);
    assert!(msg.is_some());
    assert_eq!(msg.unwrap().1, Date { year: 1997, month: 11, day: 21 });
}

#[test]
fn test_day() {
    assert!(day(b" 21 ", 0).is_some());
}

#[test]
fn test_month() {
    assert!(month(b"Nov", 0).is_some());
}

#[test]
fn test_year() {
    assert!(year(b" 1997 ", 0).is_some());
    assert!(year(b" 97 ", 0).is_some());
}

#[test]
fn rfc5322_test_time() {
    assert!(time(b"1:46:40 -0700", 0).is_some());

    let msg = time(b"19:51 UTC", 0);
    assert!(msg.is_some());
    assert_eq!(msg.unwrap().1, ((19, 51, 0), 0));

    let msg = time(b"09:55:06 -0600", 0);
    assert!(msg.is_some());
    assert_eq!(msg.unwrap().1, ((9, 55, 6), -6 * 3600));

    assert!(time(b"09:55:06 GMT", 0).is_some());
    assert!(time(b"23:32\r\n               -0330", 0).is_some());
}

#[test]
fn rfc5322_test_zone() {
    assert!(zone(b" -0330", 0).is_some());
}

#[test]
fn rfc5322_test_mailbox() {
    assert!(mailbox(b" =?utf-8?Q?Humble=20Bundle?= <contact@humblebundle.com>", 0).is_some());
    assert!(mailbox(b"jdoe@test   . example", 0).is_some());
    assert!(mailbox(b"Joe Q. Public <john.q.public@example.com>", 0).is_some());

    let msg = mailbox(b" \"Joe Q. Public\" <john.q.public@example.com>", 0);
    assert!(msg.is_some());
    let expected = mbox("john.q.public", "example.com", Some(b" Joe Q. Public "));
    assert_eq!(msg.unwrap().1, expected);
}

#[test]
fn rfc5322_test_name_addr() {
    assert!(name_addr(b" =?utf-8?Q?Humble=20Bundle?= <contact@humblebundle.com>", 0).is_some());

    // The domain comes back exactly as written in the input, `y.test`: no
    // rule of the grammar changes the letters of a domain.
    let msg = name_addr(b"Who? <one@y.test>", 0);
    assert!(msg.is_some());
    let expected = (b"one".to_vec(), b"y.test".to_vec(), Some(b"Who? ".to_vec()));
    assert_eq!(msg.unwrap().1, expected);

    let msg = name_addr(b"\"Giant; \\\"Big\\\" Box\" <sysservices@example.net>", 0);
    assert!(msg.is_some());
    let expected = (b"sysservices".to_vec(), b"example.net".to_vec(), Some(b"Giant; \\\"Big\\\" Box ".to_vec()));
    assert_eq!(msg.unwrap().1, expected);

    let msg = name_addr(b" \"Joe Q. Public\" <john.q.public@example.com>", 0);
    assert!(msg.is_some());
    let expected = (b"john.q.public".to_vec(), b"example.com".to_vec(), Some(b" Joe Q. Public ".to_vec()));
    assert_eq!(msg.unwrap().1, expected);

    assert!(name_addr(b"Joe Q. Public <john.q.public@example.com>", 0).is_some());
    assert!(name_addr(b"John Doe <jdoe@machine.example>", 0).is_some());
    assert!(name_addr(b"<boss@nil.test>", 0).is_some());
    assert!(name_addr(b"Pete(A wonderful \\) chap) <pete(his account)@silly.test(his host)>", 0).is_some());
}

#[test]
fn rfc5322_test_angle_addr() {
    assert!(angle_addr(b"<jdoe@machine(comment).  example>", 0).is_some());
    assert!(angle_addr(b"<pete(his account)@silly.test(his host)>", 0).is_some());
    assert!(angle_addr(b"<jdoe@machine.example>", 0).is_some());
}

#[test]
fn rfc5322_test_group() {
    assert!(group(b"(Empty list)(start)Undisclosed recipients  :(nobody(that I know))  ;", 0).is_some());
    let i = b"A Group(Some people)\r\n     :Chris Jones <c@(Chris's host.)public.example>,\r\n         joe@example.org,\r\n  John <jdoe@one.test> (my dear friend); (the end of the group)";
    assert!(group(i, 0).is_some());
}

#[test]
fn rfc5322_test_display_name() {
    assert!(display_name(b" =?utf-8?Q?Humble=20Bundle?= ", 0).is_some());
    assert!(display_name(b"A Group(Some people)\r\n     ", 0).is_some());
    assert!(display_name(b"Joe Q. Public", 0).is_some());
    assert!(display_name(b"Pete(A wonderful \\) chap)", 0).is_some());
    assert!(display_name(b"John Doe", 0).is_some());

    let msg = display_name(b" \"Joe Q. Public\" ", 0);
    assert!(msg.is_some());
    assert_eq!(msg.unwrap().1, b" Joe Q. Public ".to_vec());
}

#[test]
fn rfc5322_test_mailbox_list() {
    assert!(mailbox_list(b" =?utf-8?Q?Humble=20Bundle?= <contact@humblebundle.com>", 0).is_some());
    assert!(mailbox_list(b"Joe Q. Public <john.q.public@example.com>", 0).is_some());

    let msg = mailbox_list(b" \"Joe Q. Public\" <john.q.public@example.com>", 0);
    assert!(msg.is_some());
    let expected = mbox("john.q.public", "example.com", Some(b" Joe Q. Public "));
    assert_eq!(msg.unwrap().1, vec![expected]);

    assert!(mailbox_list(b"John Doe <jdoe@machine.example>", 0).is_some());
    assert!(mailbox_list(b"Pete(A wonderful \\) chap) <pete(his account)@silly.test(his host)>", 0).is_some());
}

#[test]
fn rfc5322_test_address_list() {
    assert!(address_list(b" noreply <noreply@facebookmail.com>", 0).is_some());
    assert!(address_list(b"John Doe <jdoe@machine(comment).  example>", 0).is_some());
    assert!(address_list(b"Mary Smith <mary@example.net>, , jdoe@test   . example", 0).is_some());
    assert!(address_list(b"(Empty list)(start)Undisclosed recipients  :(nobody(that I know))  ;", 0).is_some());
    let i = b"A Group(Some people)\r\n     :Chris Jones <c@(Chris's host.)public.example>,\r\n         joe@example.org,\r\n  John <jdoe@one.test> (my dear friend); (the end of the group)";
    assert!(address_list(i, 0).is_some());
    assert!(address_list(b"<boss@nil.test>, \"Giant; \\\"Big\\\" Box\" <sysservices@example.net>", 0).is_some());
}

#[test]
fn rfc5322_test_addr_spec() {
    assert!(addr_spec(b"jdoe@machine(comment).  example", 0).is_some());
    assert!(addr_spec(b"pete(his account)@silly.test(his host)", 0).is_some());
    assert!(addr_spec(b"jdoe@machine.example", 0).is_some());
}

#[test]
fn rfc5322_test_local_part() {
    assert!(local_part(b"pete(his account)", 0).is_some());
}

#[test]
fn rfc5322_test_domain() {
    assert!(domain(b"test   . example", 0).is_some());
    assert!(domain(b"silly.test(his host)", 0).is_some());
    assert!(domain(b"machine.example", 0).is_some());
}

#[test]
fn test_received_token() {
    assert!(received_token(b" from ", 0).is_some());

    let msg = received_token(b"x.y.test;", 0);
    assert!(msg.is_some());
    assert_eq!(msg.unwrap().1, b"x.y.test".to_vec());
}

#[test]
fn test_many1_cr_not_lf() {
    let msg = many1_cr_not_lf(b"\x0d\x0d\x0dhello", 0);
    assert!(msg.is_some());
    assert_eq!(msg.unwrap().1, b"\x0d\x0d\x0d".to_vec());

    let msg = many1_cr_not_lf(b"\x0d\x0d\x0ahello", 0);
    assert!(msg.is_some());
    assert_eq!(msg.unwrap().1, b"\x0d".to_vec());
}

#[test]
fn rfc5322_test_obs_phrase() {
    assert!(obs_phrase(b"Joe Q. Public", 0).is_some());
}

#[test]
fn rfc5322_test_obs_zone() {
    assert!(obs_zone(b"-0330 (Newfoundland Time)\r\n", 0).is_none());
}
