//! The client's side of opening a transfer: the request that it sends and
//! the session that it starts with.

use crate::file::Host;
use crate::options::{Options, OptionsView};
use crate::packet::{Request, RequestView};
use crate::session::{SessionView, TftpSession};
use crate::OpCode;
use vstd::prelude::*;

verus! {

/// What a `Client` holds.
pub struct ClientView {
    pub mode: Seq<char>,
    pub options: OptionsView,
}

/// The mode and the options that a client asks for.
pub struct Client {
    mode: String,
    options: Options,
}

impl View for Client {
    type V = ClientView;

    closed spec fn view(&self) -> ClientView {
        ClientView { mode: self.mode@, options: self.options@ }
    }
}

impl Client {
    pub fn new(mode: &str, options: Options) -> (client: Client)
        ensures
            client@ == (ClientView { mode: mode@, options: options@ }),
    {
        Client { mode: mode.to_owned(), options }
    }

    /// The request that fetches `remote_file`.
    pub fn get(&self, remote_file: &str) -> (req: Request)
        ensures
            req@ == (RequestView {
                op_code: OpCode::Rrq,
                filename: remote_file@,
                mode: self@.mode,
                options: self@.options,
            }),
    {
        Request::rrq(remote_file, self.mode.as_str(), &self.options)
    }

    /// The size of the local file is asked for: a write request tells it
    /// where the client asks for the transfer size option.
    pub fn wants_size(&self) -> (r: bool)
        ensures
            r == self@.options.tsize is Some,
    {
        self.options.has_tsize()
    }

    /// The request that stores a local file of `file_size` bytes as
    /// `remote_file`. Where the client asks for the transfer size option,
    /// the request tells the size.
    pub fn put(&self, remote_file: &str, file_size: u64) -> (req: Request)
        ensures
            req@ == (RequestView {
                op_code: OpCode::Wrq,
                filename: remote_file@,
                mode: self@.mode,
                options: self@.options.set_tsize(file_size),
            }),
    {
        let mut req = Request::wrq(remote_file, self.mode.as_str(), &self.options);
        req.options_mut().set_tsize(file_size);
        req
    }

    /// The session that a request starts with: a fresh one in the
    /// request's mode.
    pub fn handl_request(&self, req: &Request, host: Host) -> (session: TftpSession)
        ensures
            session@ == (SessionView { mode: req@.mode, ..SessionView::start(host) }),
    {
        let mut session = TftpSession::new(host);
        session.set_mode(req.mode());
        session
    }
}

} // verus!
