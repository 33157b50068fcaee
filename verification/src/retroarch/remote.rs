//! What RetroArch's UDP command interface (`network_cmd_enable`) answers,
//! and what the probe of a command port concludes.
use crate::config::{trim_indices, trim_range};
use crate::text::{chars_of, decimal, first_word, first_word_at, push_decimal, push_str, range_eq, string_of_range};
use vstd::prelude::*;

verus! {

/// What `GET_STATUS` reports.
#[derive(Debug, Clone, PartialEq, Eq)]
pub enum Status {
    Playing,
    Paused,
    Contentless,
    /// Any other reply, trimmed.
    Other(String),
}

/// What a `GET_STATUS` reply means: its first word must be `GET_STATUS`
/// and its second names the state; anything else is kept, trimmed.
pub open spec fn status_of(reply: Seq<char>) -> StatusView {
    let (a1, b1) = first_word(reply, 0, reply.len() as int);
    let (a2, b2) = first_word(reply, b1, reply.len() as int);
    let command = reply.subrange(a1, b1);
    let state = reply.subrange(a2, b2);
    if command == "GET_STATUS"@ && state == "PLAYING"@ {
        StatusView::Playing
    } else if command == "GET_STATUS"@ && state == "PAUSED"@ {
        StatusView::Paused
    } else if command == "GET_STATUS"@ && state == "CONTENTLESS"@ {
        StatusView::Contentless
    } else {
        let (a, b) = trim_range(reply, 0, reply.len() as int);
        StatusView::Other(reply.subrange(a, b))
    }
}

/// A [`Status`] with its text as a sequence of characters.
pub enum StatusView {
    Playing,
    Paused,
    Contentless,
    Other(Seq<char>),
}

impl View for Status {
    type V = StatusView;

    open spec fn view(&self) -> StatusView {
        match self {
            Status::Playing => StatusView::Playing,
            Status::Paused => StatusView::Paused,
            Status::Contentless => StatusView::Contentless,
            Status::Other(s) => StatusView::Other(s@),
        }
    }
}

/// Parse a `GET_STATUS` reply such as
/// `GET_STATUS PLAYING game_boy,Zelda,crc32=6887a34`.
pub fn parse_status(reply: &str) -> (st: Status)
    ensures
        st@ == status_of(reply@),
{
    let s = chars_of(reply);
    let n = s.len();
    let (a1, b1) = first_word_at(&s, 0, n);
    let (a2, b2) = first_word_at(&s, b1, n);
    let get_status = chars_of("GET_STATUS");
    if range_eq(&s, a1, b1, &get_status) {
        if range_eq(&s, a2, b2, &chars_of("PLAYING")) {
            return Status::Playing;
        }
        if range_eq(&s, a2, b2, &chars_of("PAUSED")) {
            return Status::Paused;
        }
        if range_eq(&s, a2, b2, &chars_of("CONTENTLESS")) {
            return Status::Contentless;
        }
    }
    let (a, b) = trim_indices(&s, 0, n);
    Status::Other(string_of_range(&s, a, b))
}

/// The text a wait for `PLAYING` reports as the last status seen.
pub open spec fn status_text(st: StatusView) -> Seq<char> {
    match st {
        StatusView::Playing => "PLAYING"@,
        StatusView::Paused => "PAUSED"@,
        StatusView::Contentless => "CONTENTLESS"@,
        StatusView::Other(s) => s,
    }
}

impl Status {
    /// The status as a wait for `PLAYING` reports it: the state's word,
    /// or the reply itself.
    pub fn text(&self) -> (s: String)
        ensures
            s@ == status_text(self@),
    {
        match self {
            Status::Playing => "PLAYING".to_string(),
            Status::Paused => "PAUSED".to_string(),
            Status::Contentless => "CONTENTLESS".to_string(),
            Status::Other(s) => s.clone(),
        }
    }
}

/// The error when a command port already answers `GET_STATUS`.
pub open spec fn port_taken_message(port: u16) -> Seq<char> {
    "UDP port "@ + decimal(port as nat)
        + " already answers GET_STATUS; another RetroArch has the command interface on it, choose --cmd-port"@
}

/// Whether `port` may be handed to our RetroArch: any reply to the probe's
/// `GET_STATUS` (`answered`) shows that somebody else's RetroArch already
/// holds it, and our commands would reach that one instead; a read
/// timeout means it is free.
pub fn probe_free(port: u16, answered: bool) -> (r: Result<(), String>)
    ensures
        answered ==> (r matches Err(e) && e@ == port_taken_message(port)),
        !answered ==> r is Ok,
{
    if answered {
        let mut e = String::new();
        push_str(&mut e, "UDP port ");
        push_decimal(&mut e, port as u64);
        push_str(
            &mut e,
            " already answers GET_STATUS; another RetroArch has the command interface on it, choose --cmd-port",
        );
        Err(e)
    } else {
        Ok(())
    }
}

} // verus!
