//! The state of one transfer and the rules by which it moves.
//!
//! A session sends and receives nothing itself. Each of its functions
//! takes what has arrived, changes the state, and says what is to be done
//! next: what to put on the local file, what to send, and whether to wait
//! for another packet.

use crate::buffer::contents;
use crate::error::Error;
use crate::file;
use crate::file::{lemma_read_prefix, read_spec, write_spec, FileWrite, Host};
use crate::options::{Options, OptionsView};
use crate::packet;
use crate::buffer::max_len;
use crate::packet::{ack_bytes, data_bytes, error_bytes, oack_bytes, request_bytes, Request};
use crate::HEADER_LEN;
use bytes::Bytes;
use vstd::prelude::*;
use vstd::slice::slice_subrange;

verus! {

/// How often the packets of a step are sent again after a wait for their
/// answer ran out, before the transfer fails.
pub const RETRANSMIT_LIMIT: u32 = 10;

/// How often a failed send or receive is tried again.
pub const RETRY_LIMIT: u32 = 10;

/// The pause before a failed send or receive is tried again, in
/// milliseconds.
pub const RETRY_DELAY: u64 = 10;

/// The record of one DATA packet that was sent: enough to read the file
/// again from where the packet began.
#[derive(Clone, Copy, Debug)]
pub struct FileBlock {
    pub blocknum: u16,
    pub reader_pos: u64,
    pub lastch: Option<u8>,
    pub data_len: usize,
    pub reader_pos_len: usize,
}

/// What a session holds.
pub struct SessionView {
    pub blocknum_ack: u16,
    pub blocks: Seq<FileBlock>,
    pub received_data: u16,
    pub mode: Seq<char>,
    pub options: OptionsView,
    pub rollover: u32,
    pub lastch: Option<u8>,
    pub host: Host,
    pub fresh: bool,
}

/// The state of one transfer with one peer.
pub struct TftpSession {
    blocknum_ack: u16,
    blocknum_blocks: Vec<FileBlock>,
    received_data: u16,
    mode: String,
    options: Options,
    rollover: u32,
    lastch: Option<u8>,
    host: Host,
    fresh: bool,
}

/// Block numbers count modulo 2^16.
pub open spec fn blocknum_add(n: u16, k: u16) -> u16 {
    ((n + k) % 65536) as u16
}

/// The block number `num` is one that may be acknowledged next: it lies
/// behind `ack`, at most `windowsize` blocks further, counting round past
/// 65535.
pub open spec fn in_window(ack: u16, windowsize: u16, num: u16) -> bool {
    let min = blocknum_add(ack, 1);
    let max = blocknum_add(ack, windowsize);
    if min <= max {
        min <= num <= max
    } else {
        min <= num || num <= max
    }
}

/// Block number wrap: the window behind `n` holds the `w` block numbers
/// from `blocknum_add(n, 1)` to `blocknum_add(n, w)`, and no other.
pub proof fn lemma_expect_window(n: u16, w: u16, num: u16)
    requires
        w >= 1,
    ensures
        in_window(n, w, num) <==> exists|k: u16| 1 <= k <= w && num == #[trigger] blocknum_add(n, k),
{
    if in_window(n, w, num) {
        let k: u16 = if num > n {
            (num - n) as u16
        } else {
            (num + 65536 - n) as u16
        };
        assert(1 <= k <= w && num == blocknum_add(n, k));
    }
}

/// The record of the first block after `from` that has the number `num`.
pub open spec fn find_block(blocks: Seq<FileBlock>, num: u16, from: int) -> Option<FileBlock>
    decreases blocks.len() - from,
{
    if from < 0 || from >= blocks.len() {
        None
    } else if blocks[from].blocknum == num {
        Some(blocks[from])
    } else {
        find_block(blocks, num, from + 1)
    }
}

/// What one window of DATA packets comes to: the packets, their records,
/// the count of wraps after it, and the carry after it.
pub struct WindowView {
    pub packets: Seq<Seq<u8>>,
    pub blocks: Seq<FileBlock>,
    pub rollover: int,
    pub lastch: Option<u8>,
}

/// The bytes that each of a list of packets holds.
pub open spec fn packets_view(packets: Seq<Bytes>) -> Seq<Seq<u8>> {
    Seq::new(packets.len(), |i: int| contents(packets[i]))
}

/// The window of at most `left` DATA packets behind the block `blocknum`.
/// `source` is the file from `reader_pos` on. Each block is read where the
/// one before it stopped; a block that comes out short is the last.
pub open spec fn window_spec(
    mode: Seq<char>,
    blksize: usize,
    host: Host,
    source: Seq<u8>,
    blocknum: u16,
    reader_pos: int,
    lastch: Option<u8>,
    rollover: int,
    left: nat,
) -> WindowView
    decreases left,
{
    if left == 0 {
        WindowView { packets: Seq::empty(), blocks: Seq::empty(), rollover, lastch }
    } else {
        let num = blocknum_add(blocknum, 1);
        let wraps = if blocknum == u16::MAX {
            rollover + 1
        } else {
            rollover
        };
        let r = read_spec(source, blksize as nat, mode, lastch, host);
        let block = FileBlock {
            blocknum: num,
            reader_pos: reader_pos as u64,
            lastch,
            data_len: (r.data.len() + HEADER_LEN) as usize,
            reader_pos_len: r.consumed as usize,
        };
        let rest = if r.data.len() < blksize {
            WindowView {
                packets: Seq::empty(),
                blocks: Seq::empty(),
                rollover: wraps,
                lastch: r.lastch,
            }
        } else {
            window_spec(
                mode,
                blksize,
                host,
                source.skip(r.consumed as int),
                num,
                reader_pos + r.consumed,
                r.lastch,
                wraps,
                (left - 1) as nat,
            )
        };
        WindowView {
            packets: seq![data_bytes(num, r.data)] + rest.packets,
            blocks: seq![block] + rest.blocks,
            rollover: rest.rollover,
            lastch: rest.lastch,
        }
    }
}

/// A window looks at no more bytes of the file than its blocks can hold:
/// the first `len` bytes from the reading position, where they are at
/// least `left` blocks of `blksize` bytes, give the same window as the
/// whole file from there.
pub proof fn lemma_window_prefix(
    mode: Seq<char>,
    blksize: usize,
    host: Host,
    source: Seq<u8>,
    blocknum: u16,
    reader_pos: int,
    lastch: Option<u8>,
    rollover: int,
    left: nat,
    len: int,
)
    requires
        blksize * left <= len <= source.len(),
    ensures
        window_spec(
            mode,
            blksize,
            host,
            source.take(len),
            blocknum,
            reader_pos,
            lastch,
            rollover,
            left,
        ) == window_spec(mode, blksize, host, source, blocknum, reader_pos, lastch, rollover, left),
    decreases left,
{
    if left > 0 {
        assert(blksize * left == blksize * (left - 1) + blksize) by (nonlinear_arith);
        assert(blksize * (left - 1) >= 0) by (nonlinear_arith)
            requires
                left >= 1,
                blksize >= 0,
        ;
        lemma_read_prefix(source, blksize as nat, mode, lastch, host, len);
        let r = read_spec(source, blksize as nat, mode, lastch, host);
        if r.data.len() >= blksize {
            let wraps = if blocknum == u16::MAX {
                rollover + 1
            } else {
                rollover
            };
            assert(source.take(len).skip(r.consumed as int) =~= source.skip(
                r.consumed as int,
            ).take(len - r.consumed));
            lemma_window_prefix(
                mode,
                blksize,
                host,
                source.skip(r.consumed as int),
                blocknum_add(blocknum, 1),
                reader_pos + r.consumed,
                r.lastch,
                wraps,
                (left - 1) as nat,
                len - r.consumed,
            );
        }
    }
}

/// Every record ends at a position that a file can have.
pub open spec fn blocks_fit(blocks: Seq<FileBlock>) -> bool {
    forall|i: int|
        0 <= i < blocks.len() ==> (#[trigger] blocks[i]).reader_pos + blocks[i].reader_pos_len
            <= u64::MAX
}

impl SessionView {
    /// A session before its first packet.
    pub open spec fn start(host: Host) -> SessionView {
        SessionView {
            blocknum_ack: 0,
            blocks: Seq::empty(),
            received_data: 0,
            mode: "netascii"@,
            options: OptionsView::none(),
            rollover: 0,
            lastch: None,
            host,
            fresh: true,
        }
    }

    /// The bytes to ask for when waiting for a packet: a full DATA packet.
    pub open spec fn recv_size(self) -> int {
        self.options.blksize() + HEADER_LEN
    }

    /// The last packet that was sent was a short one: the file is through.
    pub open spec fn sent_completed(self) -> bool {
        self.blocks.len() > 0 && self.blocks.last().data_len < self.options.blksize()
            + HEADER_LEN
    }

    /// All the blocks of a window have come in.
    pub open spec fn received_data_last(self) -> bool {
        self.received_data == self.options.windowsize()
    }

    /// The window that is sent behind the block `blocknum_start`, read from
    /// `source`, the file from `reader_pos` on.
    pub open spec fn window(
        self,
        blocknum_start: u16,
        reader_pos: u64,
        lastch: Option<u8>,
        source: Seq<u8>,
    ) -> WindowView {
        window_spec(
            self.mode,
            self.options.blksize(),
            self.host,
            source,
            blocknum_start,
            reader_pos as int,
            lastch,
            self.rollover as int,
            self.options.windowsize() as nat,
        )
    }

    /// The bytes of the file that a window can use at most: a block for
    /// each packet that the window allows.
    pub open spec fn window_source_len(self) -> int {
        self.options.blksize() * self.options.windowsize()
    }

    /// The session after the window behind `blocknum_start` was sent.
    pub open spec fn after_window(self, blocknum_start: u16, source: Seq<u8>) -> SessionView {
        let start = self.window_start(blocknum_start);
        let window = self.window(blocknum_start, start.0, start.1, source);
        SessionView {
            blocks: window.blocks,
            rollover: window.rollover as u32,
            lastch: window.lastch,
            ..self
        }
    }

    /// Where in the file, and with which carry, the window behind the block
    /// `blocknum_start` begins: where that block was read before, if it is
    /// on record; else where the last block on record ended; else at the
    /// beginning.
    pub open spec fn window_start(self, blocknum_start: u16) -> (u64, Option<u8>) {
        match find_block(self.blocks, blocknum_add(blocknum_start, 1), 0) {
            Some(block) => (block.reader_pos, block.lastch),
            None => if self.blocks.len() > 0 {
                (
                    (self.blocks.last().reader_pos + self.blocks.last().reader_pos_len) as u64,
                    self.lastch,
                )
            } else {
                (0, None)
            },
        }
    }
}

/// The window of a session is the same whether it is built from the whole
/// rest of the file or from the first `window_source_len` bytes of it.
pub proof fn lemma_window_source(
    s: SessionView,
    blocknum_start: u16,
    reader_pos: u64,
    lastch: Option<u8>,
    rest: Seq<u8>,
)
    requires
        s.window_source_len() <= rest.len(),
    ensures
        s.window(blocknum_start, reader_pos, lastch, rest.take(s.window_source_len()))
            == s.window(blocknum_start, reader_pos, lastch, rest),
{
    lemma_window_prefix(
        s.mode,
        s.options.blksize(),
        s.host,
        rest,
        blocknum_start,
        reader_pos as int,
        lastch,
        s.rollover as int,
        s.options.windowsize() as nat,
        s.window_source_len(),
    );
}

impl View for TftpSession {
    type V = SessionView;

    closed spec fn view(&self) -> SessionView {
        SessionView {
            blocknum_ack: self.blocknum_ack,
            blocks: self.blocknum_blocks@,
            received_data: self.received_data,
            mode: self.mode@,
            options: self.options@,
            rollover: self.rollover,
            lastch: self.lastch,
            host: self.host,
            fresh: self.fresh,
        }
    }
}

impl TftpSession {
    #[verifier::type_invariant]
    spec fn well_formed(self) -> bool {
        blocks_fit(self.blocknum_blocks@)
    }

    /// A session before its first packet, on a host of the given family.
    pub fn new(host: Host) -> (session: TftpSession)
        ensures
            session@ == SessionView::start(host),
    {
        TftpSession {
            blocknum_ack: 0,
            blocknum_blocks: Vec::new(),
            received_data: 0,
            mode: "netascii".to_owned(),
            options: Options::default(),
            rollover: 0,
            lastch: None,
            host,
            fresh: true,
        }
    }

    pub fn host(&self) -> (host: Host)
        ensures
            host == self@.host,
    {
        self.host
    }

    pub fn blocknum_ack(&self) -> (num: u16)
        ensures
            num == self@.blocknum_ack,
    {
        self.blocknum_ack
    }

    pub fn set_blocknum_ack(&mut self, num: u16)
        ensures
            final(self)@ == (SessionView { blocknum_ack: num, ..old(self)@ }),
    {
        proof {
            use_type_invariant(&*self);
        }
        self.blocknum_ack = num;
    }

    /// The block number `value` blocks behind the last acknowledged one.
    pub fn blocknum_ack_add(&self, value: u16) -> (num: u16)
        ensures
            num == blocknum_add(self@.blocknum_ack, value),
    {
        self.blocknum_ack.wrapping_add(value)
    }

    /// The block number is one that may be acknowledged next.
    pub fn blocknum_expect(&self, num: u16) -> (expected: bool)
        ensures
            expected == in_window(self@.blocknum_ack, self@.options.windowsize(), num),
    {
        let min = self.blocknum_ack_add(1);
        let max = self.blocknum_ack_add(self.options.windowsize());
        if min <= max {
            min <= num && num <= max
        } else {
            min <= num || num <= max
        }
    }

    pub fn received_data_clear(&mut self)
        ensures
            final(self)@ == (SessionView { received_data: 0, ..old(self)@ }),
    {
        proof {
            use_type_invariant(&*self);
        }
        self.received_data = 0;
    }

    pub fn received_data_last(&self) -> (last: bool)
        ensures
            last == self@.received_data_last(),
    {
        self.received_data == self.options.windowsize()
    }

    pub fn received_data_inc(&mut self)
        requires
            old(self)@.received_data < u16::MAX,
        ensures
            final(self)@ == (SessionView {
                received_data: (old(self)@.received_data + 1) as u16,
                ..old(self)@
            }),
    {
        proof {
            use_type_invariant(&*self);
        }
        self.received_data += 1;
    }

    pub fn sent_completed(&self) -> (completed: bool)
        ensures
            completed == self@.sent_completed(),
    {
        let n = self.blocknum_blocks.len();
        if n > 0 {
            self.blocknum_blocks[n - 1].data_len < self.options.blksize() + HEADER_LEN
        } else {
            false
        }
    }

    pub fn mode(&self) -> (mode: &str)
        ensures
            mode@ == self@.mode,
    {
        self.mode.as_str()
    }

    pub fn set_mode(&mut self, mode: &str)
        ensures
            final(self)@ == (SessionView { mode: mode@, ..old(self)@ }),
    {
        proof {
            use_type_invariant(&*self);
        }
        self.mode = mode.to_owned();
    }

    pub fn options(&self) -> (options: &Options)
        ensures
            options@ == self@.options,
    {
        &self.options
    }

    pub fn set_options(&mut self, options: Options)
        ensures
            final(self)@ == (SessionView { options: options@, ..old(self)@ }),
    {
        proof {
            use_type_invariant(&*self);
        }
        self.options = options;
    }

    pub fn rollover(&self) -> (rollover: u32)
        ensures
            rollover == self@.rollover,
    {
        self.rollover
    }

    pub fn rollover_add(&mut self, value: u32)
        requires
            old(self)@.rollover + value <= u32::MAX,
        ensures
            final(self)@ == (SessionView {
                rollover: (old(self)@.rollover + value) as u32,
                ..old(self)@
            }),
    {
        proof {
            use_type_invariant(&*self);
        }
        self.rollover += value;
    }

    pub fn lastch(&self) -> (lastch: Option<u8>)
        ensures
            lastch == self@.lastch,
    {
        self.lastch
    }

    pub fn set_lastch(&mut self, lastch: Option<u8>)
        ensures
            final(self)@ == (SessionView { lastch, ..old(self)@ }),
    {
        proof {
            use_type_invariant(&*self);
        }
        self.lastch = lastch;
    }

    /// The bytes to ask for when waiting for a packet.
    pub fn recv_size(&self) -> (size: usize)
        ensures
            size == self@.recv_size(),
    {
        self.options.blksize() + HEADER_LEN
    }

    /// Turns a block off the wire into what is to be put on the local
    /// file, with the session's mode and carry.
    pub fn write(&self, buf: &[u8]) -> (r: (FileWrite, usize, Option<u8>))
        ensures
            r.0.rewind == write_spec(buf@, self@.mode, self@.lastch, self@.host).rewind,
            r.0.bytes@ == write_spec(buf@, self@.mode, self@.lastch, self@.host).bytes,
            r.1 == write_spec(buf@, self@.mode, self@.lastch, self@.host).size,
            r.2 == write_spec(buf@, self@.mode, self@.lastch, self@.host).lastch,
    {
        file::write(buf, self.mode.as_str(), self.lastch, self.host)
    }

    /// The ACK of the last acknowledged block.
    pub fn send_ack(&self) -> (packet: Bytes)
        ensures
            contents(packet) == ack_bytes(self@.blocknum_ack),
    {
        packet::ack(self.blocknum_ack)
    }

    /// The ERROR packet that tells the peer of a failure.
    pub fn send_error(&self, err: Error) -> (packet: Bytes)
        requires
            5 + err.spec_text().len() <= max_len(),
        ensures
            contents(packet) == error_bytes(err.spec_error_code().spec_code(), err.spec_text()),
    {
        packet::error(err)
    }

    /// The ACK that asks for the next DATA packet. It is sent, and sent
    /// again whenever the wait for the DATA packet runs out.
    pub fn send_ack_recv_data(&self) -> (packet: Bytes)
        ensures
            contents(packet) == ack_bytes(self@.blocknum_ack),
    {
        self.send_ack()
    }

    /// The OACK that grants the session's options. It is sent, and sent
    /// again whenever the wait for an answer runs out.
    pub fn send_oack_recv_data(&self) -> (packet: Bytes)
        ensures
            contents(packet) == oack_bytes(self@.options),
    {
        packet::oack(&self.options)
    }

    /// The packet of the request that opens the transfer. It is sent, and
    /// sent again whenever the wait for an answer runs out.
    pub fn send_req_recv_data(&self, req: &Request) -> (packet: Bytes)
        requires
            request_bytes(req@).len() <= max_len(),
        ensures
            contents(packet) == request_bytes(req@),
    {
        packet::request(req)
    }

    /// Decides what follows a wait for a packet. `retransmit` counts the
    /// waits, the first being 1. A packet that has come ends the waiting.
    /// Each of the first ten waits that run out is followed by sending
    /// again and another wait, with the count that is returned; the wait
    /// behind the tenth retransmission fails the transfer when it runs out.
    pub fn wait_for_recv(&self, retransmit: u32, received: bool) -> (r: Result<Option<u32>, Error>)
        ensures
            received ==> r == Ok::<Option<u32>, Error>(None),
            !received && retransmit > RETRANSMIT_LIMIT ==> (r matches Err(Error::Timedout)),
            !received && retransmit <= RETRANSMIT_LIMIT ==> r == Ok::<Option<u32>, Error>(
                Some((retransmit + 1) as u32),
            ),
    {
        if received {
            Ok(None)
        } else if retransmit > RETRANSMIT_LIMIT {
            Err(Error::Timedout)
        } else {
            Ok(Some(retransmit + 1))
        }
    }

    /// Decides what follows a send or a receive. `count` counts the
    /// attempts, the first being 1; `failure` is what went wrong, if
    /// anything did. An attempt that went well ends the trying. A failed one
    /// is followed, after a pause of `RETRY_DELAY`, by another with the
    /// count that is returned; a failure after ten retries is handed on.
    pub fn retry_on_failed(&self, count: u32, failure: Option<Error>) -> (r: Result<
        Option<u32>,
        Error,
    >)
        ensures
            failure is None ==> r == Ok::<Option<u32>, Error>(None),
            failure is Some && count > RETRY_LIMIT ==> r == Err::<Option<u32>, Error>(failure->0),
            failure is Some && count <= RETRY_LIMIT ==> r == Ok::<Option<u32>, Error>(
                Some((count + 1) as u32),
            ),
    {
        match failure {
            None => Ok(None),
            Some(err) => {
                if count > RETRY_LIMIT {
                    Err(err)
                } else {
                    Ok(Some(count + 1))
                }
            },
        }
    }

    /// No packet has been handled yet.
    pub fn fresh(&self) -> (fresh: bool)
        ensures
            fresh == self@.fresh,
    {
        self.fresh
    }

    /// Notes that a packet has been handled.
    pub fn set_started(&mut self)
        ensures
            final(self)@ == (SessionView { fresh: false, ..old(self)@ }),
    {
        proof {
            use_type_invariant(&*self);
        }
        self.fresh = false;
    }

    /// The counters that a packet may raise are below their limits.
    pub fn ready(&self) -> (ready: bool)
        ensures
            ready == (self@.received_data < u16::MAX && self@.rollover < u32::MAX),
    {
        self.received_data < u16::MAX && self.rollover < u32::MAX
    }

    /// The bytes of the file that a window can use at most. A window that
    /// is built from that many bytes from its reading position, or from all
    /// that are left, is the window of the whole file.
    pub fn window_source_len(&self) -> (n: u64)
        ensures
            n == self@.window_source_len(),
    {
        let blksize = self.options.blksize() as u64;
        let windowsize = self.options.windowsize() as u64;
        assert(blksize * windowsize <= 65535 * 65535) by (nonlinear_arith)
            requires
                blksize <= 65535,
                windowsize <= 65535,
        ;
        blksize * windowsize
    }

    /// Builds the window of DATA packets behind the block `blocknum_start`.
    /// `source` holds the file from `reader_pos` on: as many bytes as the
    /// window can use, or all that are left. The result is the packets in
    /// the order in which they are sent, their records, the count of wraps
    /// and the carry.
    pub fn send_multi_data(
        &self,
        blocknum_start: u16,
        reader_pos: u64,
        lastch: Option<u8>,
        source: &[u8],
    ) -> (r: (Vec<Bytes>, Vec<FileBlock>, u32, Option<u8>))
        requires
            reader_pos + source@.len() <= u64::MAX,
            self@.rollover < u32::MAX,
        ensures
            packets_view(r.0@) == self@.window(blocknum_start, reader_pos, lastch, source@).packets,
            r.1@ == self@.window(blocknum_start, reader_pos, lastch, source@).blocks,
            r.2 == self@.window(blocknum_start, reader_pos, lastch, source@).rollover,
            r.3 == self@.window(blocknum_start, reader_pos, lastch, source@).lastch,
            blocks_fit(r.1@),
    {
        let ghost goal = self@.window(blocknum_start, reader_pos, lastch, source@);
        let ghost mode = self@.mode;
        let host = self.host;
        let blksize = self.options.blksize();
        let windowsize = self.options.windowsize();
        let base = self.rollover;
        let mut rollover = self.rollover;
        let mut blocknum_req = blocknum_start;
        let mut pos = reader_pos;
        let mut offset: usize = 0;
        let mut lastch = lastch;
        let mut packets: Vec<Bytes> = Vec::new();
        let mut blocks: Vec<FileBlock> = Vec::new();
        let mut count: u16 = 0;
        proof {
            assert(source@.skip(0) =~= source@);
            let rec = window_spec(
                mode,
                blksize,
                host,
                source@,
                blocknum_req,
                pos as int,
                lastch,
                rollover as int,
                windowsize as nat,
            );
            assert(packets_view(packets@) + rec.packets =~= rec.packets);
            assert(blocks@ + rec.blocks =~= rec.blocks);
        }
        while count < windowsize
            invariant_except_break
                count <= windowsize,
                offset <= source@.len(),
                pos == reader_pos + offset,
                reader_pos + source@.len() <= u64::MAX,
                blksize <= u16::MAX,
                mode == self@.mode,
                host == self@.host,
                base < u32::MAX,
                blocknum_req == (blocknum_start + count) % 65536,
                rollover == base + if blocknum_start + count >= 65536 {
                    1int
                } else {
                    0int
                },
                blocks_fit(blocks@),
                goal == ({
                    let rec = window_spec(
                        mode,
                        blksize,
                        host,
                        source@.skip(offset as int),
                        blocknum_req,
                        pos as int,
                        lastch,
                        rollover as int,
                        (windowsize - count) as nat,
                    );
                    WindowView {
                        packets: packets_view(packets@) + rec.packets,
                        blocks: blocks@ + rec.blocks,
                        rollover: rec.rollover,
                        lastch: rec.lastch,
                    }
                }),
            ensures
                blocks_fit(blocks@),
                goal == (WindowView {
                    packets: packets_view(packets@),
                    blocks: blocks@,
                    rollover: rollover as int,
                    lastch,
                }),
            decreases windowsize - count,
        {
            let ghost rest = source@.skip(offset as int);
            let ghost old_packets = packets_view(packets@);
            let ghost old_blocks = blocks@;
            let ghost rec = window_spec(
                mode,
                blksize,
                host,
                rest,
                blocknum_req,
                pos as int,
                lastch,
                rollover as int,
                (windowsize - count) as nat,
            );
            let wrapped = blocknum_req == u16::MAX;
            blocknum_req = blocknum_req.wrapping_add(1);
            if wrapped {
                rollover += 1;
            }
            let (consumed, payload, ch) = file::read(
                slice_subrange(source, offset, source.len()),
                blksize,
                self.mode.as_str(),
                lastch,
                host,
            );
            proof {
                assert(source@.subrange(offset as int, source@.len() as int) =~= rest);
            }
            let packet = packet::data(blocknum_req, payload.as_slice());
            let block = FileBlock {
                blocknum: blocknum_req,
                reader_pos: pos,
                lastch,
                data_len: payload.len() + HEADER_LEN,
                reader_pos_len: consumed,
            };
            blocks.push(block);
            packets.push(packet);
            pos += consumed as u64;
            offset += consumed;
            lastch = ch;
            count += 1;
            proof {
                assert(rest.skip(consumed as int) =~= source@.skip(offset as int));
                assert(packets_view(packets@) =~= old_packets.push(
                    data_bytes(blocknum_req, payload@),
                ));
                let tail = if payload@.len() < blksize {
                    WindowView {
                        packets: Seq::empty(),
                        blocks: Seq::empty(),
                        rollover: rollover as int,
                        lastch,
                    }
                } else {
                    window_spec(
                        mode,
                        blksize,
                        host,
                        source@.skip(offset as int),
                        blocknum_req,
                        pos as int,
                        lastch,
                        rollover as int,
                        (windowsize - count) as nat,
                    )
                };
                assert(old_packets + (seq![data_bytes(blocknum_req, payload@)] + tail.packets)
                    =~= packets_view(packets@) + tail.packets);
                assert(old_blocks + (seq![block] + tail.blocks) =~= blocks@ + tail.blocks);
                assert(packets_view(packets@) + Seq::<Seq<u8>>::empty() =~= packets_view(
                    packets@,
                ));
                assert(blocks@ + Seq::<FileBlock>::empty() =~= blocks@);
            }
            if payload.len() < blksize {
                break;
            }
        }
        proof {
            if count >= windowsize {
                assert(packets_view(packets@) + Seq::<Seq<u8>>::empty() =~= packets_view(
                    packets@,
                ));
                assert(blocks@ + Seq::<FileBlock>::empty() =~= blocks@);
            }
        }
        (packets, blocks, rollover, lastch)
    }

    /// Sends the window behind the block `blocknum_start`: builds its
    /// packets and takes their records, the count of wraps and the carry
    /// into the session. `source` holds the file from the position that
    /// `window_start` gives for this window. The packets are to be sent in
    /// their order, and sent again whenever the wait for an answer runs out.
    pub fn send_data_recv_ack(&mut self, blocknum_start: u16, source: &[u8]) -> (packets: Vec<
        Bytes,
    >)
        requires
            old(self)@.window_start(blocknum_start).0 + source@.len() <= u64::MAX,
            old(self)@.rollover < u32::MAX,
        ensures
            final(self)@ == old(self)@.after_window(blocknum_start, source@),
            packets_view(packets@) == old(self)@.window(
                blocknum_start,
                old(self)@.window_start(blocknum_start).0,
                old(self)@.window_start(blocknum_start).1,
                source@,
            ).packets,
    {
        let (reader_pos, lastch) = self.window_start(blocknum_start);
        let (packets, blocks, rollover, lastch) = self.send_multi_data(
            blocknum_start,
            reader_pos,
            lastch,
            source,
        );
        self.blocknum_blocks = blocks;
        self.rollover = rollover;
        self.lastch = lastch;
        packets
    }

    /// Where in the file, and with which carry, the window behind the block
    /// `blocknum_start` begins.
    pub fn window_start(&self, blocknum_start: u16) -> (r: (u64, Option<u8>))
        ensures
            r == self@.window_start(blocknum_start),
    {
        proof {
            use_type_invariant(self);
        }
        let blocknum_req = blocknum_start.wrapping_add(1);
        let n = self.blocknum_blocks.len();
        let mut i: usize = 0;
        while i < n
            invariant
                i <= n,
                n == self.blocknum_blocks@.len(),
                blocknum_req == blocknum_add(blocknum_start, 1),
                find_block(self.blocknum_blocks@, blocknum_req, 0) == find_block(
                    self.blocknum_blocks@,
                    blocknum_req,
                    i as int,
                ),
            decreases n - i,
        {
            if self.blocknum_blocks[i].blocknum == blocknum_req {
                return (self.blocknum_blocks[i].reader_pos, self.blocknum_blocks[i].lastch);
            }
            i += 1;
        }
        if n > 0 {
            let last = &self.blocknum_blocks[n - 1];
            (last.reader_pos + (last.reader_pos_len as u64), self.lastch)
        } else {
            (0, None)
        }
    }
}

} // verus!
