//! RFC 5322 message syntax (which supersedes RFC 2822): the lexical
//! tokens, addresses, dates and header fields, each parser with the grammar
//! rule that it implements.

pub mod chars;
pub mod lexical;
pub mod words;
pub mod text;
pub mod address;
pub mod datetime;
pub mod ids;
pub mod fields;
pub mod ascii;

pub use self::chars::{alpha, bit, cr, many_cr, crlf, byte, dquote, htab, lf, many_lf, sp, vchar, wsp, ctext, atext, qtext, text, ftext, obs_no_ws_ctl, obs_ctext, obs_qtext, obs_utext, many1_obs_utext, quoted_pair, obs_qp, qcontent, dtext};
pub use self::lexical::{obs_fws, fws, ccontent, comment, cfws, drop_cfws};
pub use self::words::{atom, dot_atom_text, dot_atom, quoted_string, word, obs_phrase, phrase, obs_local_part, obs_domain, domain, local_part};
pub use self::text::{many1_cr_not_lf, obs_unstruct_crlf, unstructured_crlf, obs_phrase_list};
pub use self::address::{addr_spec, angle_addr, display_name, name_addr, mailbox, obs_mbox_list, mailbox_list, group_list, group, address, obs_addr_list, address_list, obs_domain_list};
pub use self::datetime::{current_year, day_name, obs_day_of_week, day_of_week, obs_day, day, month, obs_year, year, date_in_year, date, hour, obs_hour, minute, obs_minute, second, obs_second, time_of_day, obs_zone, zone, time, date_time_panics, date_time_in_year, date_time};
pub use self::ids::{no_fold_literal, id_left, obs_id_left, id_right, obs_id_right, msg_id};
pub use self::fields::{till_crlf, drop_field_name, field_name, raw_obs_optional, raw_field, raw_fields, body, obs_body, message, message_eof, received_token, raw_received, raw_obs_orig_date, raw_obs_from, raw_obs_sender, raw_obs_reply_to, raw_obs_to, raw_obs_cc, raw_obs_message_id, raw_obs_in_reply_to, raw_obs_references, raw_obs_subject, raw_obs_comments, raw_obs_resent_from, raw_obs_resent_send, raw_obs_resent_date, raw_obs_resent_to, raw_obs_resent_cc, raw_obs_resent_mid, raw_obs_resent_rply};
