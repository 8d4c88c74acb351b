use crate::messages::chat_line;
use crate::messages::chat_line_spec;
use crate::messages::connected_banner;
use crate::messages::connected_banner_spec;
use crate::messages::disconnected_banner;
use crate::messages::disconnected_banner_spec;
use crate::messages::forward_greeting;
use crate::messages::forward_greeting_spec;
use crate::registry::key_is;
use crate::registry::select;
use crate::registry::Entry;
use crate::registry::Registry;
use vstd::prelude::*;

verus! {

/// The single byte a client sends to ask the server to close its session.
pub const DISCONNECT_BYTE: u8 = 3;

/// The reply to an authentication attempt. A rejection always tells the
/// peer which method it may retry with; this server only ever offers the
/// password method.
#[derive(Clone, Copy, PartialEq, Eq, Structural, Debug)]
pub enum Auth {
    Accept,
    Reject { proceed_with_password: bool },
}

/// Per-connection state of the multiplexer: the connection's identity and
/// the username recorded by the one successful password authentication,
/// empty until then.
pub struct Handler {
    pub id: u64,
    pub username: String,
}

/// What a channel-open of a session channel does: the open is accepted,
/// and the banner is to be written to each target entry's channel.
pub struct OpenOutcome {
    pub accept: bool,
    pub banner: String,
    pub targets: Vec<Entry>,
}

/// What a data packet from the client does.
pub enum DataOutcome {
    /// The sender asked to leave: the banner is to be written to each
    /// target entry's channel, and the sender's connection closed.
    Disconnect { banner: String, targets: Vec<Entry> },
    /// An ordinary chat payload: the line is to be written to each target
    /// entry's channel, the sender's own among them.
    Chat { line: String, targets: Vec<Entry> },
}

/// What a remote-port-forwarding request does: the request is accepted,
/// and one forwarded channel is to be opened back to the requester for the
/// requested address and port, advertising the fixed originator, carrying
/// the fixed greeting and then end-of-file.
pub struct ForwardOutcome {
    pub accept: bool,
    pub address: String,
    pub port: u32,
    pub originator_address: String,
    pub originator_port: u32,
    pub greeting: String,
    pub send_eof: bool,
}

/// Whether a data packet is the disconnect sentinel: the single byte 0x03.
pub open spec fn is_disconnect_request(bytes: Seq<u8>) -> bool {
    bytes.len() == 1 && bytes[0] == DISCONNECT_BYTE
}

impl Handler {
    /// The handler template a freshly started server begins with: no
    /// connection accepted yet, no username recorded.
    pub fn template() -> (h: Handler)
        ensures
            h.id == 0,
            h.username@ == Seq::<char>::empty(),
    {
        Handler { id: 0, username: String::new() }
    }

    /// Called when a connection is accepted: bumps the template's counter
    /// and hands out a fresh handler carrying the new identity and no
    /// authenticated username yet.
    pub fn new_client(&mut self) -> (h: Handler)
        requires
            old(self).id < u64::MAX,
        ensures
            final(self).id == old(self).id + 1,
            final(self).username == old(self).username,
            h.id == old(self).id + 1,
            h.username@ == Seq::<char>::empty(),
    {
        self.id = self.id + 1;
        Handler { id: self.id, username: String::new() }
    }

    /// Decides a password authentication attempt. `verdict` is what the
    /// key-verification oracle said of the presented password: valid,
    /// invalid, or nothing because the oracle call itself failed. The
    /// attempt is rejected exactly when the oracle said invalid, offering
    /// the password method again; a verdict of valid, and equally a failed
    /// oracle call, accepts the attempt and records the username.
    pub fn auth_password(&mut self, user: &str, verdict: Option<bool>) -> (a: Auth)
        ensures
            verdict == Some(false) ==> a == (Auth::Reject { proceed_with_password: true })
                && *final(self) == *old(self),
            verdict != Some(false) ==> a == Auth::Accept && final(self).id == old(self).id
                && final(self).username@ == user@,
    {
        match verdict {
            Some(false) => Auth::Reject { proceed_with_password: true },
            _ => {
                self.username = user.to_owned();
                Auth::Accept
            },
        }
    }

    /// Decides a public-key authentication attempt: always rejected, and
    /// the rejection advertises password as the method to retry with. The
    /// handler is not touched.
    pub fn auth_publickey(&self) -> (a: Auth)
        ensures
            a == (Auth::Reject { proceed_with_password: true }),
    {
        Auth::Reject { proceed_with_password: true }
    }

    /// Decides a channel-open of a session channel: the channel is
    /// registered under this connection, the open is accepted, and the
    /// connection banner is addressed to every registered channel, the
    /// newcomer among them.
    pub fn channel_open_session(&self, reg: &mut Registry, chan: u64, handle: u64) -> (out:
        OpenOutcome)
        requires
            old(reg).wf(),
        ensures
            final(reg).wf(),
            forall|e: Entry| #[trigger]
                final(reg)@.contains(e) <==> (old(reg)@.contains(e) && !key_is(e, self.id, chan))
                    || e == (Entry { conn: self.id, chan, handle }),
            out.accept,
            out.banner@ == connected_banner_spec(self.username@),
            out.targets@ == select(final(reg)@, None),
    {
        reg.insert(self.id, chan, handle);
        OpenOutcome {
            accept: true,
            banner: connected_banner(self.username.as_str()),
            targets: reg.recipients(None),
        }
    }

    /// Decides a data packet from this connection. The disconnect sentinel
    /// addresses the disconnection banner to every other connection's
    /// channels and closes the sender's connection; any other payload
    /// addresses the chat line to every registered channel, the sender's
    /// own among them.
    pub fn data(&self, reg: &Registry, bytes: &[u8]) -> (out: DataOutcome)
        ensures
            is_disconnect_request(bytes@) ==> (out matches DataOutcome::Disconnect {
                banner,
                targets,
            } && banner@ == disconnected_banner_spec(self.username@) && targets@ == select(
                reg@,
                Some(self.id),
            )),
            !is_disconnect_request(bytes@) ==> (out matches DataOutcome::Chat {
                line,
                targets,
            } && line@ == chat_line_spec(self.username@, bytes@) && targets@ == select(
                reg@,
                None,
            )),
    {
        if bytes.len() == 1 && bytes[0] == DISCONNECT_BYTE {
            DataOutcome::Disconnect {
                banner: disconnected_banner(self.username.as_str()),
                targets: reg.recipients(Some(self.id)),
            }
        } else {
            DataOutcome::Chat {
                line: chat_line(self.username.as_str(), bytes),
                targets: reg.recipients(None),
            }
        }
    }

    /// Decides a remote-port-forwarding request: always accepted, with one
    /// forwarded channel to be opened back to the requester for the
    /// requested address and port, advertising originator 1.2.3.4 port
    /// 1234, carrying the fixed greeting and then end-of-file.
    pub fn tcpip_forward(&self, address: &str, port: u32) -> (f: ForwardOutcome)
        ensures
            f.accept,
            f.address@ == address@,
            f.port == port,
            f.originator_address@ == "1.2.3.4"@,
            f.originator_port == 1234,
            f.greeting@ == forward_greeting_spec(),
            f.send_eof,
    {
        ForwardOutcome {
            accept: true,
            address: address.to_owned(),
            port,
            originator_address: "1.2.3.4".to_owned(),
            originator_port: 1234,
            greeting: forward_greeting(),
            send_eof: true,
        }
    }
}

} // verus!
