use mail::mime::{content, description, encoding, id, version, Encoding, SubLevel, TopLevel};
use mail::rfc2046::{boundary, close_delimiter, dash_boundary, delimiter};
use mail::rfc5322::{
    date_in_year, date_time_panics, message, message_eof, obs_domain_list, raw_obs_from,
    raw_obs_in_reply_to, raw_obs_optional, raw_obs_subject, raw_field, till_crlf, msg_id, raw_obs_orig_date,
};
use mail::util::{downcased_string, unchecked_string_from_bufs};
use mail::rfc5322::{time, dot_atom_text, address_list, group};
use mail::{Address, Date, DateTime, Field, FieldKind, FieldValue, MessageID};

fn mbox(local_part: &str, domain: &str, display_name: Option<&[u8]>) -> Address {
    Address::Mailbox {
        local_part: local_part.to_string(),
        domain: domain.to_string(),
        display_name: display_name.map(|d| d.to_vec()),
    }
}

#[test]
fn message_with_body() {
    let raw = b"From: a@b.example\r\nSubject: Hi\r\n\r\nHello\r\nthere";
    let (e, m) = message(raw, 0);
    assert_eq!(e, raw.len());
    assert_eq!(m.fields.len(), 2);
    assert_eq!(m.body(), b"Hello\r\nthere".to_vec());
    assert!(message_eof(raw, 0).is_some());
}

#[test]
fn message_without_body() {
    let raw = b"Subject: Hi\r\n";
    let (e, m) = message(raw, 0);
    assert_eq!(e, raw.len());
    assert_eq!(m.fields.len(), 1);
    assert_eq!(m.body(), Vec::<u8>::new());
}

#[test]
fn message_stops_at_a_line_that_is_no_field() {
    let raw = b"Subject: Hi\r\nthis line has no colon\r\n";
    let (e, m) = message(raw, 0);
    assert_eq!(e, 13);
    assert_eq!(m.fields.len(), 1);
    assert!(message_eof(raw, 0).is_none());
}

#[test]
fn accessors_take_the_first_field_of_a_kind() {
    let raw = b"To: a@one.example\r\nTo: b@two.example\r\n\r\n";
    let (_, m) = message(raw, 0);
    assert_eq!(m.to().unwrap(), vec![mbox(" a", "one.example", None)]);
    assert!(m.from().is_missing());
    assert!(m.cc().is_missing());
    assert!(m.bcc().is_missing());
    assert!(m.sender().is_missing());
    assert!(m.reply_to().is_missing());
    assert!(m.message_id().is_missing());
    assert!(m.references().is_missing());
    assert!(m.in_reply_to().is_missing());
    assert!(m.date().is_missing());
}

#[test]
fn accessors_read_each_kind() {
    let raw = b"From: John Doe <jdoe@machine.example>\r\n\
Sender: mjones@machine.example\r\n\
Reply-To: r@home.example\r\n\
Cc: c@x.example\r\n\
Message-ID: <1234@local.machine.example>\r\n\
In-Reply-To: <1@a.example> and <2@b.example>\r\n\
References: <comm-tagged-1077147628989448>\r\n\
Date: Fri, 21 Nov 1997 09:55:06 -0600\r\n\r\n";
    let (_, m) = message(raw, 0);
    assert_eq!(m.from().unwrap(), vec![mbox("jdoe", "machine.example", Some(b" John Doe "))]);
    assert_eq!(m.sender().unwrap(), mbox(" mjones", "machine.example", None));
    assert_eq!(m.reply_to().unwrap(), vec![mbox(" r", "home.example", None)]);
    assert_eq!(m.cc().unwrap(), vec![mbox(" c", "x.example", None)]);
    assert_eq!(
        m.message_id().unwrap(),
        MessageID { id_left: Some("1234".to_string()), id_right: "local.machine.example".to_string() }
    );
    assert_eq!(
        m.in_reply_to().unwrap(),
        vec![
            MessageID { id_left: Some("1".to_string()), id_right: "a.example".to_string() },
            MessageID { id_left: Some("2".to_string()), id_right: "b.example".to_string() },
        ]
    );
    assert_eq!(
        m.references().unwrap(),
        vec![MessageID { id_left: None, id_right: "comm-tagged-1077147628989448".to_string() }]
    );
    assert_eq!(
        m.date_in_year(2024).unwrap(),
        DateTime { year: 1997, month: 11, day: 21, hour: 9, minute: 55, second: 6, offset: -6 * 3600 }
    );
    assert!(m.date().is_ok());
}

#[test]
fn malformed_exactly_when_raw() {
    let (_, f) = raw_obs_from(b"From: not an address\r\n", 0).unwrap();
    assert!(f.is_malformed());
    match &f {
        Field::From(v) => {
            let a = v.addresses();
            assert!(a.is_raw());
            assert!(!a.is_ok());
            assert!(!a.is_missing());
            assert_eq!(a.raw(), " not an address\r\n".to_string());
        },
        _ => panic!("not a From field"),
    }
}

#[test]
fn message_ids_never_malformed() {
    let (_, f) = raw_obs_in_reply_to(b"In-Reply-To: whatever (this is)\r\n", 0).unwrap();
    assert!(!f.is_malformed());
    match &f {
        Field::InReplyTo(v) => assert_eq!(v.message_ids().unwrap(), Vec::<MessageID>::new()),
        _ => panic!("not an In-Reply-To field"),
    }
}

#[test]
fn field_names_ignore_case() {
    let (e1, f1) = raw_obs_from(b"FROM: a@b.example\r\n", 0).unwrap();
    let (e2, f2) = raw_obs_from(b"from : a@b.example\r\n", 0).unwrap();
    assert_eq!(e1, 19);
    assert_eq!(e2, 20);
    assert_eq!(f1.to_string(), "From:  a@b.example".to_string());
    assert_eq!(f2.to_string(), "From:  a@b.example".to_string());
    assert_eq!(f1.kind(), FieldKind::From);
}

#[test]
fn field_body_runs_over_folded_lines() {
    let s = b"Subject: a\r\n b\r\nX: c\r\n";
    assert_eq!(till_crlf(s, 8), 16);
    let (e, f) = raw_obs_subject(s, 0).unwrap();
    assert_eq!(e, 16);
    assert_eq!(f.to_string(), "Subject:  a\r\n b".to_string());
    assert_eq!(till_crlf(b"no line break", 0), 13);
}

#[test]
fn optional_fields_keep_their_name() {
    let (e, f) = raw_field(b"X-Mailer : thing\r\n", 0).unwrap();
    assert_eq!(e, 18);
    assert!(f.is_unstructured());
    assert!(!f.is_malformed());
    assert_eq!(f.to_string(), "X-Mailer:  thing".to_string());
    assert!(raw_obs_optional(b": no name\r\n", 0).is_none());
}

#[test]
fn to_string_replaces_invalid_utf8() {
    let (_, f) = raw_obs_subject(b"Subject: \xff\r\n", 0).unwrap();
    assert_eq!(f.to_string(), "Subject:  \u{fffd}".to_string());
    assert!(f.renders());
    let (_, g) = raw_obs_subject(b"Subject:", 0).unwrap();
    assert!(!g.renders());
}

#[test]
fn two_digit_years() {
    assert_eq!(date_in_year(b"1 Jan 30", 0, 2029).unwrap().1, Date { year: 1930, month: 1, day: 1 });
    assert_eq!(date_in_year(b"1 Jan 30", 0, 2030).unwrap().1, Date { year: 2030, month: 1, day: 1 });
    assert!(date_time_panics(b"21 Nov 97 09:55:06 GMT", 0, 50));
    assert!(!date_time_panics(b"21 Nov 97 09:55:06 GMT", 0, 2024));
}

#[test]
fn calendar_dates_are_checked() {
    assert!(date_in_year(b"29 Feb 2020", 0, 2024).is_some());
    assert!(date_in_year(b"29 Feb 2021", 0, 2024).is_none());
    assert!(date_in_year(b"30 Feb 2020", 0, 2024).is_none());
}

#[test]
fn message_id_forms() {
    let (_, m) = msg_id(b" <a.b@[1.2.3.4]> ", 0).unwrap();
    assert_eq!(m, MessageID { id_left: Some("a.b".to_string()), id_right: "1.2.3.4".to_string() });
    assert!(msg_id(b"<a@b", 0).is_none());
}

#[test]
fn obs_domain_list_reads_domains() {
    let (e, v) = obs_domain_list(b", ,@a.example,@b.example:", 0).unwrap();
    assert_eq!(e, 24);
    assert_eq!(v, vec![b"a.example".to_vec(), b"b.example".to_vec()]);
    assert!(obs_domain_list(b"a.example", 0).is_none());
}

#[test]
fn mime_version() {
    let (e, f) = version(b"MIME-Version:1.0", 0).unwrap();
    assert_eq!(e, 16);
    assert_eq!(f.to_string(), "MIME-Version: 1.0".to_string());
    let (_, f) = version(b"MIME-Version:(produced by x)1.(y)12", 0).unwrap();
    match f {
        Field::MIMEVersion(v) => {
            assert_eq!(v.top_version, 1);
            assert_eq!(v.sub_version, 12);
        },
        _ => panic!("not a version field"),
    }
    assert!(version(b"MIME-Version: 1.0", 0).is_none());
}

#[test]
fn content_type() {
    let (e, f) = content(b"Content-Type:text/X-foo;a=b;a=c;d=e\r\n", 0).unwrap();
    assert_eq!(e, 35);
    match f {
        Field::ContentType(v) => {
            assert_eq!(v.top_level, TopLevel::Text);
            assert_eq!(v.sub_level, SubLevel::Ext("X-foo".to_string()));
            assert_eq!(v.params, vec![("a".to_string(), b"c".to_vec()), ("d".to_string(), b"e".to_vec())]);
        },
        _ => panic!("not a content type field"),
    }
    let (e, f) = content(b"Content-Type: text/plain\r\n", 0).unwrap();
    assert_eq!(e, 13);
    assert_eq!(f.to_string(), "Content-Type: text/plain".to_string());
    assert!(content(b"Content-Length: 3\r\n", 0).is_none());
}

#[test]
fn content_transfer_encoding() {
    let (_, f) = encoding(b"Content-Transfer-Encoding:BASE64", 0).unwrap();
    match &f {
        Field::ContentTransferEncoding(v) => assert_eq!(v.encoding, Encoding::Base64),
        _ => panic!("not an encoding field"),
    }
    assert_eq!(f.to_string(), "Content-Transfer-Encoding: base64".to_string());
    let (_, f) = encoding(b"Content-Transfer-Encoding:x-gzip", 0).unwrap();
    assert_eq!(f.to_string(), "Content-Transfer-Encoding: x-gzip".to_string());
    assert!(encoding(b"Content-Transfer-Encoding: base64", 0).is_none());
}

#[test]
fn content_id_and_description() {
    let (_, f) = id(b"Content-ID: <part1@x.example>\r\n", 0).unwrap();
    assert_eq!(f.kind(), FieldKind::ContentID);
    assert_eq!(f.to_string(), "Content-ID:  <part1@x.example>".to_string());
    let (_, f) = description(b"Content-Description: a picture\r\n", 0).unwrap();
    assert_eq!(f.to_string(), "Content-Description:  a picture".to_string());
}

#[test]
fn boundaries() {
    let abc = "abc".to_string();
    assert_eq!(boundary(b"abc def--", 0, abc.clone()), Some(3));
    assert_eq!(boundary(b"xyz", 0, abc.clone()), None);
    assert_eq!(boundary(b"abc", 0, "ab ".to_string()), None);
    assert_eq!(boundary(b"a b", 0, "a b".to_string()), Some(3));
    let long = [b'a'; 71];
    let seventy = String::from_utf8(vec![b'a'; 70]).unwrap();
    let seventy_one = String::from_utf8(vec![b'a'; 71]).unwrap();
    assert_eq!(boundary(&long, 0, seventy), Some(70));
    assert_eq!(boundary(&long, 0, seventy_one), None);
    assert_eq!(dash_boundary(b"--abc", 0, abc.clone()), Some(5));
    assert_eq!(dash_boundary(b"--xyz", 0, abc.clone()), None);
    assert_eq!(delimiter(b"\r\n--abc", 0, abc.clone()), Some(7));
    assert_eq!(close_delimiter(b"\r\n--abc--", 0, abc.clone()), Some(9));
    assert_eq!(close_delimiter(b"\r\n--abc", 0, abc), None);
}

#[test]
fn obsolete_zone_names() {
    assert_eq!(time(b"09:55:06 EST", 0).unwrap().1, ((9, 55, 6), -5 * 3600));
    assert_eq!(time(b"09:55:06 PDT", 0).unwrap().1, ((9, 55, 6), -7 * 3600));
    assert_eq!(time(b"09:55:06 Z", 0).unwrap().1, ((9, 55, 6), 0));
}

#[test]
fn dot_atom_text_without_dots() {
    assert_eq!(dot_atom_text(b"jdoe", 0), Some(4));
    assert_eq!(dot_atom_text(b"a.b.c@", 0), Some(5));
    assert_eq!(dot_atom_text(b"a.", 0), Some(1));
}

#[test]
fn address_list_with_an_empty_element() {
    let (e, v) = address_list(b"Mary Smith <mary@example.net>, , jdoe@test   . example", 0).unwrap();
    assert_eq!(e, 54);
    assert_eq!(
        v,
        vec![mbox("mary", "example.net", Some(b"Mary Smith ")), mbox(" jdoe", "test   . example", None)]
    );
}

#[test]
fn empty_group() {
    let (_, g) = group(b"Undisclosed recipients:;", 0).unwrap();
    assert_eq!(g, Address::Group { display_name: b"Undisclosed recipients".to_vec(), mailboxes: Vec::new() });
}

#[test]
fn downcased_string_failures() {
    assert_eq!(downcased_string(b"REPLY-TO", 0, b"Reply-To"), Ok(8));
    assert_eq!(downcased_string(b"Reply-Xo", 0, b"Reply-To"), Err(b'T'));
    assert_eq!(downcased_string(b"Rep", 0, b"Reply-To"), Err(b'l'));
}

#[test]
fn field_values() {
    let p: FieldValue<u8> = FieldValue::Parsed(3);
    assert!(p.is_ok() && !p.is_raw() && !p.is_missing());
    assert_eq!(p.unwrap(), 3);
    let r: FieldValue<u8> = FieldValue::Raw(b"abc".to_vec());
    assert!(!r.is_ok() && r.is_raw() && !r.is_missing());
    assert_eq!(r.raw(), "abc".to_string());
    let m: FieldValue<u8> = FieldValue::Missing;
    assert!(!m.is_ok() && !m.is_raw() && m.is_missing());
}

#[test]
fn strings_from_buffers() {
    assert_eq!(unchecked_string_from_bufs(vec![b"ab".to_vec(), Vec::new(), b"c".to_vec()]), "abc".to_string());
}

#[test]
fn readers_follow_the_fields_vector() {
    let (_, s) = raw_obs_subject(b"Subject: x\r\n", 0).unwrap();
    let (_, a) = raw_obs_from(b"From: a@one.example\r\n", 0).unwrap();
    let (_, b) = raw_obs_from(b"From: b@two.example\r\n", 0).unwrap();
    let m = mail::Message { fields: vec![s, a, b], body: None };
    assert_eq!(m.from().unwrap(), vec![mbox(" a", "one.example", None)]);
    assert!(m.to().is_missing());
    assert_eq!(m.body(), Vec::<u8>::new());
}

#[test]
fn date_that_cannot_be_formed_reads_raw() {
    let (_, f) = raw_obs_orig_date(b"Date: 21 Nov 1997 24:00 GMT\r\n", 0).unwrap();
    assert!(f.is_malformed());
    match &f {
        Field::Date(v) => assert_eq!(v.date_time().raw(), " 21 Nov 1997 24:00 GMT\r\n".to_string()),
        _ => panic!("not a Date field"),
    }
}

#[test]
fn two_digit_year_settles_from_year_one_hundred() {
    assert!(date_time_panics(b"21 Sep 16 19:51 UTC", 0, 15));
    assert!(!date_time_panics(b"21 Sep 16 19:51 UTC", 0, 100));
    assert_eq!(date_in_year(b"21 Sep 16", 0, 100).unwrap().1, Date { year: 16, month: 9, day: 21 });
    assert_eq!(date_in_year(b"21 Sep 16", 0, 2016).unwrap().1, Date { year: 2016, month: 9, day: 21 });
}
