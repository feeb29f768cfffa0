// The messages below are the examples of RFC 5322, Appendix A, with CRLF
// line breaks.

use mail::rfc5322::{message, raw_fields};
use mail::Message;

fn parse(raw: &[u8]) -> Message {
    let (_, m) = message(raw, 0);
    m
}

fn assert_fields_structured(m: &Message) {
    for field in m.fields.iter() {
        println!("checking {}", field.to_string());
        assert!(!field.is_unstructured());
        assert!(!field.is_malformed());
    }
}

const EXAMPLE_1_1_1: &[u8] = b"From: John Doe <jdoe@machine.example>\r\n\
To: Mary Smith <mary@example.net>\r\n\
Subject: Saying Hello\r\n\
Date: Fri, 21 Nov 1997 09:55:06 -0600\r\n\
Message-ID: <1234@local.machine.example>\r\n\
\r\n\
This is a message just to say hello.\r\n\
So, \"Hello\".\r\n";

const EXAMPLE_1_1_2: &[u8] = b"From: John Doe <jdoe@machine.example>\r\n\
Sender: Michael Jones <mjones@machine.example>\r\n\
To: Mary Smith <mary@example.net>\r\n\
Subject: Saying Hello\r\n\
Date: Fri, 21 Nov 1997 09:55:06 -0600\r\n\
Message-ID: <1234@local.machine.example>\r\n\
\r\n\
This is a message just to say hello.\r\n\
So, \"Hello\".\r\n";

const EXAMPLE_1_2: &[u8] = b"From: \"Joe Q. Public\" <john.q.public@example.com>\r\n\
To: Mary Smith <mary@x.test>, jdoe@example.org, Who? <one@y.test>\r\n\
Cc: <boss@nil.test>, \"Giant; \\\"Big\\\" Box\" <sysservices@example.net>\r\n\
Date: Tue, 1 Jul 2003 10:52:37 +0200\r\n\
Message-ID: <5678.21-Nov-1997@example.com>\r\n\
\r\n\
Hi everyone.\r\n";

const EXAMPLE_1_3: &[u8] = b"From: Pete <pete@silly.example>\r\n\
To: A Group:Ed Jones <c@a.test>,joe@where.test,John <jdoe@one.test>;\r\n\
Cc: Undisclosed recipients:;\r\n\
Date: Thu, 13 Feb 1969 23:32:54 -0330\r\n\
Message-ID: <testabcd.1234@silly.example>\r\n\
\r\n\
Testing.\r\n";

const EXAMPLE_2_1: &[u8] = b"From: John Doe <jdoe@machine.example>\r\n\
To: Mary Smith <mary@example.net>\r\n\
Subject: Saying Hello\r\n\
Date: Fri, 21 Nov 1997 09:55:06 -0600\r\n\
Message-ID: <1234@local.machine.example>\r\n\
\r\n\
This is a message just to say hello.\r\n\
So, \"Hello\".\r\n";

const EXAMPLE_2_2: &[u8] = b"From: Mary Smith <mary@example.net>\r\n\
To: John Doe <jdoe@machine.example>\r\n\
Reply-To: \"Mary Smith: Personal Account\" <smith@home.example>\r\n\
Subject: Re: Saying Hello\r\n\
Date: Fri, 21 Nov 1997 10:01:10 -0600\r\n\
Message-ID: <3456@example.net>\r\n\
In-Reply-To: <1234@local.machine.example>\r\n\
References: <1234@local.machine.example>\r\n\
\r\n\
This is a reply to your hello.\r\n";

const EXAMPLE_2_3: &[u8] = b"To: \"Mary Smith: Personal Account\" <smith@home.example>\r\n\
From: John Doe <jdoe@machine.example>\r\n\
Subject: Re: Saying Hello\r\n\
Date: Fri, 21 Nov 1997 11:00:00 -0600\r\n\
Message-ID: <abcd.1234@local.machine.test>\r\n\
In-Reply-To: <3456@example.net>\r\n\
References: <1234@local.machine.example> <3456@example.net>\r\n\
\r\n\
This is a reply to your reply.\r\n";

const EXAMPLE_3_1: &[u8] = b"Resent-From: Mary Smith <mary@example.net>\r\n\
Resent-To: Jane Brown <j-brown@other.example>\r\n\
Resent-Date: Mon, 24 Nov 1997 14:22:01 -0800\r\n\
Resent-Message-ID: <78910@example.net>\r\n\
From: John Doe <jdoe@machine.example>\r\n\
To: Mary Smith <mary@example.net>\r\n\
Subject: Saying Hello\r\n\
Date: Fri, 21 Nov 1997 09:55:06 -0600\r\n\
Message-ID: <1234@local.machine.example>\r\n\
\r\n\
This is a message just to say hello.\r\n\
So, \"Hello\".\r\n";

// The resent message again, its field names written in the obsolete form
// (white space before the colon).
const EXAMPLE_3_2: &[u8] = b"Resent-From : Mary Smith <mary@example.net>\r\n\
Resent-To : Jane Brown <j-brown@other.example>\r\n\
Resent-Date : Mon, 24 Nov 1997 14:22:01 -0800\r\n\
Resent-Message-ID : <78910@example.net>\r\n\
From : John Doe <jdoe@machine.example>\r\n\
To : Mary Smith <mary@example.net>\r\n\
Subject : Saying Hello\r\n\
Date : Fri, 21 Nov 1997 09:55:06 -0600\r\n\
Message-ID : <1234@local.machine.example>\r\n\
\r\n\
This is a message just to say hello.\r\n\
So, \"Hello\".\r\n";

const EXAMPLE_4: &[u8] = b"Received: from x.y.test\r\n\
   by example.net\r\n\
   via TCP\r\n\
   with ESMTP\r\n\
   id ABC12345\r\n\
   for <mary@example.net>;  21 Nov 1997 10:05:43 -0600\r\n\
Received: from node.example by x.y.test; 21 Nov 1997 10:01:22 -0600\r\n\
From: John Doe <jdoe@node.example>\r\n\
To: Mary Smith <mary@example.net>\r\n\
Subject: Saying Hello\r\n\
Date: Fri, 21 Nov 1997 09:55:06 -0600\r\n\
Message-ID: <1234@local.node.example>\r\n\
\r\n\
This is a message just to say hello.\r\n\
So, \"Hello\".\r\n";

const EXAMPLE_5: &[u8] = b"From: Pete(A nice \\) chap) <pete(his account)@silly.test(his host)>\r\n\
To:A Group(Some people)\r\n     :Chris Jones <c@(Chris's host.)public.example>,\r\n         joe@example.org,\r\n  John <jdoe@one.test> (my dear friend); (the end of the group)\r\n\
Cc:(Empty list)(start)Hidden recipients  :(nobody(that I know))  ;\r\n\
Date: Thu,\r\n      13\r\n        Feb\r\n          1969\r\n      23:32\r\n               -0330 (Newfoundland Time)\r\n\
Message-ID:              <testabcd.1234@silly.test>\r\n\
\r\n\
Testing.\r\n";

const EXAMPLE_6_1: &[u8] = b"From: Joe Q. Public <john.q.public@example.com>\r\n\
To: Mary Smith <@node.test:mary@example.net>, , jdoe@test  . example\r\n\
Date: Tue, 1 Jul 2003 10:52:37 +0200\r\n\
Message-ID: <5678.21-Nov-1997@example.com>\r\n\
\r\n\
Hi everyone.\r\n";

const EXAMPLE_6_2: &[u8] = b"From: John Doe <jdoe@machine.example>\r\n\
To: Mary Smith <mary@example.net>\r\n\
Subject: Saying Hello\r\n\
Date: 21 Nov 97 09:55:06 GMT\r\n\
Message-ID: <1234@local.machine.example>\r\n\
\r\n\
This is a message just to say hello.\r\n\
So, \"Hello\".\r\n";

#[test]
fn example_1_1_1() {
    let (_, fields) = raw_fields(EXAMPLE_1_1_1, 0);
    assert_eq!(fields.len(), 5);
    let email = parse(EXAMPLE_1_1_1);
    assert_fields_structured(&email);
}

#[test]
fn example_1_1_2() {
    let email = parse(EXAMPLE_1_1_2);
    assert_fields_structured(&email);
}

#[test]
fn example_1_2() {
    let email = parse(EXAMPLE_1_2);
    assert_fields_structured(&email);
}

#[test]
fn example_1_3() {
    assert_fields_structured(&parse(EXAMPLE_1_3));
}

#[test]
fn example_2_1() {
    assert_fields_structured(&parse(EXAMPLE_2_1));
}

#[test]
fn example_2_2() {
    assert_fields_structured(&parse(EXAMPLE_2_2));
}

#[test]
fn example_2_3() {
    assert_fields_structured(&parse(EXAMPLE_2_3));
}

#[test]
fn example_3_1() {
    assert_fields_structured(&parse(EXAMPLE_3_1));
}

#[test]
fn example_3_2() {
    assert_fields_structured(&parse(EXAMPLE_3_2));
}

#[test]
fn example_4() {
    assert_fields_structured(&parse(EXAMPLE_4));
}

#[test]
fn example_5() {
    assert_fields_structured(&parse(EXAMPLE_5));
}

#[test]
fn example_6_1() {
    let email = parse(EXAMPLE_6_1);
    assert_eq!(email.fields.len(), 4);
}

#[test]
fn example_6_2() {
    assert_fields_structured(&parse(EXAMPLE_6_2));
}
