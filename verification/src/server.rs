//! The server's side of opening a transfer: which file a request may
//! name, and how the server answers it.
//!
//! A path is handed over as its segments, one byte string for each. The
//! name that a request holds is cut into its segments here; a name that is
//! an absolute path or leads above a directory is refused before any file
//! is touched.

use crate::buffer::contents;
use crate::error::Error;
use crate::file::Host;
use crate::options::Options;
use crate::packet;
use crate::packet::{
    ack_bytes, oack_bytes, parsed_request, request_failure, Request, RequestView,
};
use crate::session::{SessionView, TftpSession};
use crate::text::bytes_eq;
use crate::transfer::{read_step, Next, NextView, Outcome, Step, StepView};
use crate::OpCode;
use bytes::Bytes;
use vstd::prelude::*;
use vstd::slice::{slice_subrange, slice_to_vec};
use vstd::string::StringSliceAdditionalSpecFns;
use vstd::utf8::encode_utf8;

verus! {

/// The segments of a path, each as the bytes it holds.
pub open spec fn segments(path: Seq<Vec<u8>>) -> Seq<Seq<u8>> {
    Seq::new(path.len(), |i: int| path[i]@)
}

/// The segment that names the directory above.
pub open spec fn is_parent(segment: Seq<u8>) -> bool {
    segment == seq![46u8, 46u8]
}

/// Some segment of the path names the directory above.
pub open spec fn has_parent(path: Seq<Seq<u8>>) -> bool {
    exists|i: int| 0 <= i < path.len() && is_parent(#[trigger] path[i])
}

/// The path begins with all the segments of `root`.
pub open spec fn path_starts_with(path: Seq<Seq<u8>>, root: Seq<Seq<u8>>) -> bool {
    root.len() <= path.len() && forall|i: int| 0 <= i < root.len() ==> #[trigger] path[i] == root[i]
}

/// The path may be opened: it lies under `root` and no segment of it
/// names the directory above.
pub open spec fn path_allowed(root: Seq<Seq<u8>>, path: Seq<Seq<u8>>) -> bool {
    path_starts_with(path, root) && !has_parent(path)
}

/// Some segment of the path names the directory above.
pub fn contains_parent(path: &Vec<Vec<u8>>) -> (r: bool)
    ensures
        r == has_parent(segments(path@)),
{
    let parent: [u8; 2] = [46, 46];
    let mut i: usize = 0;
    while i < path.len()
        invariant
            i <= path.len(),
            parent@ == seq![46u8, 46u8],
            forall|j: int| 0 <= j < i ==> !is_parent(#[trigger] segments(path@)[j]),
        decreases path.len() - i,
    {
        if bytes_eq(path[i].as_slice(), parent.as_slice()) {
            assert(is_parent(segments(path@)[i as int]));
            return true;
        }
        i += 1;
    }
    false
}

/// The path begins with all the segments of `root`.
pub fn starts_with(path: &Vec<Vec<u8>>, root: &Vec<Vec<u8>>) -> (r: bool)
    ensures
        r == path_starts_with(segments(path@), segments(root@)),
{
    if root.len() > path.len() {
        return false;
    }
    let mut i: usize = 0;
    while i < root.len()
        invariant
            i <= root.len() <= path.len(),
            forall|j: int|
                0 <= j < i ==> #[trigger] segments(path@)[j] == segments(root@)[j],
        decreases root.len() - i,
    {
        assert(segments(path@)[i as int] == path@[i as int]@);
        assert(segments(root@)[i as int] == root@[i as int]@);
        if !bytes_eq(path[i].as_slice(), root[i].as_slice()) {
            return false;
        }
        i += 1;
    }
    true
}

/// Decides whether a path may be opened.
pub fn check_path(root: &Vec<Vec<u8>>, path: &Vec<Vec<u8>>) -> (r: Result<(), Error>)
    ensures
        r is Ok <==> path_allowed(segments(root@), segments(path@)),
        r is Err ==> (r matches Err(Error::InvalidFileName)),
{
    if !starts_with(path, root) || contains_parent(path) {
        Err(Error::InvalidFileName)
    } else {
        Ok(())
    }
}

/// The byte parts the segments of a path: a slash, and on a host of the
/// Windows family a backslash too.
pub open spec fn is_separator(b: u8, host: Host) -> bool {
    b == 47 || (host == Host::Windows && b == 92)
}

/// The index of the first separator at or after `from`, or the length
/// where there is none.
pub open spec fn separator_from(s: Seq<u8>, from: int, host: Host) -> int
    decreases s.len() - from,
{
    if from < 0 || from >= s.len() || is_separator(s[from], host) {
        from
    } else {
        separator_from(s, from + 1, host)
    }
}

/// The segments of a file name from `from` on: what stands between its
/// separators, empty stretches too.
pub open spec fn name_segments(s: Seq<u8>, from: int, host: Host) -> Seq<Seq<u8>>
    decreases s.len() - from,
{
    let k = separator_from(s, from, host);
    if from < 0 || k < from || k >= s.len() {
        seq![s.subrange(from, s.len() as int)]
    } else {
        seq![s.subrange(from, k)] + name_segments(s, k + 1, host)
    }
}

/// The file name is an absolute path: it begins with a separator, or, on a
/// host of the Windows family, with the letter and the colon of a drive.
pub open spec fn name_absolute(s: Seq<u8>, host: Host) -> bool {
    (s.len() >= 1 && is_separator(s[0], host)) || (host == Host::Windows && s.len() >= 2 && s[1]
        == 58)
}

/// The file that a request names may be opened: the name is no absolute
/// path, and the path that it makes behind the root has no segment that
/// names the directory above.
pub open spec fn request_allowed(
    root: Seq<Seq<u8>>,
    filename: Seq<Seq<u8>>,
    absolute: bool,
) -> bool {
    !absolute && path_allowed(root, root + filename)
}

/// The file name, as the text of a request holds it, may be opened under
/// `root`.
pub open spec fn name_allowed(root: Seq<Seq<u8>>, name: Seq<char>, host: Host) -> bool {
    request_allowed(
        root,
        name_segments(encode_utf8(name), 0, host),
        name_absolute(encode_utf8(name), host),
    )
}

/// The byte parts the segments of a path.
pub fn separates(b: u8, host: Host) -> (r: bool)
    ensures
        r == is_separator(b, host),
{
    b == 47 || (host == Host::Windows && b == 92)
}

/// The file name is an absolute path.
pub fn is_absolute(name: &[u8], host: Host) -> (r: bool)
    ensures
        r == name_absolute(name@, host),
{
    (name.len() >= 1 && separates(name[0], host)) || (host == Host::Windows && name.len() >= 2
        && name[1] == 58)
}

/// Cuts a file name into its segments.
pub fn split_name(name: &[u8], host: Host) -> (parts: Vec<Vec<u8>>)
    ensures
        segments(parts@) == name_segments(name@, 0, host),
{
    let mut parts: Vec<Vec<u8>> = Vec::new();
    let mut pos: usize = 0;
    assert(segments(parts@) + name_segments(name@, 0, host) =~= name_segments(name@, 0, host));
    loop
        invariant_except_break
            pos <= name@.len(),
            segments(parts@) + name_segments(name@, pos as int, host) == name_segments(
                name@,
                0,
                host,
            ),
        ensures
            segments(parts@) == name_segments(name@, 0, host),
        decreases name@.len() - pos,
    {
        let mut end: usize = pos;
        while end < name.len() && !separates(name[end], host)
            invariant
                pos <= end <= name@.len(),
                separator_from(name@, pos as int, host) == separator_from(name@, end as int, host),
            decreases name@.len() - end,
        {
            end += 1;
        }
        let ghost before = segments(parts@);
        let ghost tail = name_segments(name@, pos as int, host);
        if end >= name.len() {
            parts.push(slice_to_vec(slice_subrange(name, pos, name.len())));
            assert(segments(parts@) =~= before + tail);
            break;
        }
        parts.push(slice_to_vec(slice_subrange(name, pos, end)));
        pos = end + 1;
        assert(segments(parts@) + name_segments(name@, pos as int, host) =~= before + tail);
    }
    parts
}

/// The path of the file that a request names, if it may be opened.
/// `filename` holds the segments of the name, `absolute` says whether the
/// name is an absolute path. An absolute name is refused, and so is a name
/// that leads above a directory.
pub fn request_path(root: &Vec<Vec<u8>>, filename: &Vec<Vec<u8>>, absolute: bool) -> (r: Result<
    Vec<Vec<u8>>,
    Error,
>)
    ensures
        r is Ok <==> request_allowed(segments(root@), segments(filename@), absolute),
        r matches Ok(path) ==> segments(path@) == segments(root@) + segments(filename@),
        r is Err ==> (r matches Err(Error::InvalidFileName)),
{
    if absolute {
        return Err(Error::InvalidFileName);
    }
    let mut path: Vec<Vec<u8>> = Vec::new();
    let mut i: usize = 0;
    while i < root.len()
        invariant
            i <= root.len(),
            path@.len() == i,
            segments(path@) == segments(root@).take(i as int),
        decreases root.len() - i,
    {
        let ghost before = path@;
        path.push(slice_to_vec(root[i].as_slice()));
        i += 1;
        assert forall|j: int| 0 <= j < i implies segments(path@)[j] == segments(root@).take(
            i as int,
        )[j] by {
            if j < i - 1 {
                assert(path@[j] == before[j]);
                assert(segments(before)[j] == segments(root@).take(i - 1)[j]);
            }
        }
        assert(segments(path@) =~= segments(root@).take(i as int));
    }
    assert(segments(root@).take(root.len() as int) =~= segments(root@));
    let ghost head = segments(path@);
    assert(head + segments(filename@).take(0) =~= head);
    let mut i: usize = 0;
    while i < filename.len()
        invariant
            i <= filename.len(),
            path@.len() == head.len() + i,
            segments(path@) == head + segments(filename@).take(i as int),
        decreases filename.len() - i,
    {
        let ghost before = path@;
        path.push(slice_to_vec(filename[i].as_slice()));
        i += 1;
        assert forall|j: int| 0 <= j < head.len() + i implies segments(path@)[j] == (head
            + segments(filename@).take(i as int))[j] by {
            if j < head.len() + i - 1 {
                assert(path@[j] == before[j]);
                assert(segments(before)[j] == (head + segments(filename@).take(i - 1))[j]);
            }
        }
        assert(segments(path@) =~= head + segments(filename@).take(i as int));
    }
    assert(segments(filename@).take(filename.len() as int) =~= segments(filename@));
    assert(segments(path@) =~= segments(root@) + segments(filename@));
    match check_path(root, &path) {
        Ok(()) => Ok(path),
        Err(e) => Err(e),
    }
}

/// Path containment: a file name with a segment that names the directory
/// above is refused, and so is every file name that is an absolute path.
pub proof fn lemma_path_containment(
    root: Seq<Seq<u8>>,
    filename: Seq<Seq<u8>>,
    absolute: bool,
)
    requires
        has_parent(filename) || absolute,
    ensures
        !request_allowed(root, filename, absolute),
{
    if has_parent(filename) {
        let i = choose|i: int| 0 <= i < filename.len() && is_parent(#[trigger] filename[i]);
        let path = root + filename;
        assert(path[root.len() + i] == filename[i]);
        assert(is_parent(path[root.len() + i]));
    }
}

/// The request is one that opens a transfer: a read or a write request.
pub open spec fn opens_transfer(req: RequestView) -> bool {
    req.op_code == OpCode::Rrq || req.op_code == OpCode::Wrq
}

/// Reads the packet that a client opens a transfer with, takes its mode
/// into the session, and decides whether the file that it names may be
/// opened under `root`. A packet of any kind but a read or a write request
/// is refused, and so is a name that is an absolute path or leads above a
/// directory. All of this is decided before any file is touched.
pub fn handle_request(session: &mut TftpSession, buf: &mut Bytes, root: &Vec<Vec<u8>>) -> (r:
    Result<Request, Error>)
    ensures
        r matches Ok(req) ==> parsed_request(contents(*old(buf))) == Some(req@) && opens_transfer(
            req@,
        ) && name_allowed(segments(root@), req@.filename, old(session)@.host) && final(session)@
            == (SessionView { mode: req@.mode, ..old(session)@ }),
        r matches Err(e) ==> match parsed_request(contents(*old(buf))) {
            Some(req) => final(session)@ == (SessionView { mode: req.mode, ..old(session)@ })
                && if !opens_transfer(req) {
                e is InvalidOpCode
            } else {
                e is InvalidFileName && !name_allowed(
                    segments(root@),
                    req.filename,
                    old(session)@.host,
                )
            },
            None => request_failure(contents(*old(buf)), e) && final(session)@ == old(session)@,
        },
{
    let req = match packet::parse_request(buf) {
        Ok(req) => req,
        Err(e) => {
            return Err(e);
        },
    };
    session.set_mode(req.mode());
    match req.op_code() {
        OpCode::Rrq => {},
        OpCode::Wrq => {},
        _ => {
            return Err(Error::InvalidOpCode);
        },
    }
    let name = req.filename().as_bytes();
    let host = session.host();
    let parts = split_name(name, host);
    match request_path(root, &parts, is_absolute(name, host)) {
        Ok(_) => Ok(req),
        Err(e) => Err(e),
    }
}

/// The size of the file is asked for: a read request is told it where the
/// server grants the transfer size option.
pub fn wants_size(req: &Request, limitations: &Options) -> (r: bool)
    ensures
        r == (req@.op_code == OpCode::Rrq && req@.options.cut_off(limitations@).tsize is Some),
{
    let mut options = *req.options();
    options.cut_off(limitations);
    match req.op_code() {
        OpCode::Rrq => options.has_tsize(),
        _ => false,
    }
}

/// How the server answers a request, once the file is open: the session
/// with the options that the server grants, and the first step. Granted
/// options are told in an OACK; without any, a read request is answered
/// with the first window and a write request with the ACK of block 0.
pub open spec fn start_outcome(
    s: SessionView,
    req: RequestView,
    limitations: crate::options::OptionsView,
    file_size: u64,
) -> Outcome {
    let cut = req.options.cut_off(limitations);
    let granted = if req.op_code == OpCode::Rrq {
        cut.set_tsize(file_size)
    } else {
        cut
    };
    let agreed = SessionView { options: granted, ..s };
    if granted.has_option() {
        Outcome {
            session: agreed,
            step: StepView { write: None, send: Some(oack_bytes(granted)), next: NextView::Receive },
        }
    } else if req.op_code == OpCode::Rrq {
        Outcome { session: agreed, step: read_step(agreed, 0) }
    } else {
        Outcome {
            session: agreed,
            step: StepView {
                write: None,
                send: Some(ack_bytes(agreed.blocknum_ack)),
                next: NextView::Receive,
            },
        }
    }
}

/// Answers a request, once the file that it names is open. `file_size` is
/// the size of the file that a read request asks for.
pub fn start_transfer(
    session: &mut TftpSession,
    req: &Request,
    limitations: &Options,
    file_size: u64,
) -> (step: Step)
    requires
        opens_transfer(req@),
    ensures
        (Outcome { session: final(session)@, step: step@ }) == start_outcome(
            old(session)@,
            req@,
            limitations@,
            file_size,
        ),
{
    let mut options = *req.options();
    options.cut_off(limitations);
    let reading = match req.op_code() {
        OpCode::Rrq => true,
        _ => false,
    };
    if reading {
        options.set_tsize(file_size);
    }
    session.set_options(options);
    if session.options().has_option() {
        let packet = session.send_oack_recv_data();
        Step { write: None, send: Some(packet), next: Next::Receive }
    } else if reading {
        let (reader_pos, lastch) = session.window_start(0);
        Step { write: None, send: None, next: Next::Read { blocknum_start: 0, reader_pos, lastch } }
    } else {
        let packet = session.send_ack_recv_data();
        Step { write: None, send: Some(packet), next: Next::Receive }
    }
}

} // verus!
