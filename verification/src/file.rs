//! The translator between the bytes of a local file and the bytes of a
//! transfer: transparent in `octet` mode, line endings and carriage
//! returns rewritten in `netascii` mode.
//!
//! The translator never touches a file. A reader is handed the bytes of
//! the file from the position it reads at; a writer hands back what is to
//! be put at the end of the file. One byte of carry, `lastch`, is threaded
//! through the calls, so that a transfer can stop in the middle of a line
//! ending and go on from there.

use crate::text::str_eq;
use vstd::prelude::*;

verus! {

pub const NULL: u8 = 0;

pub const CR: u8 = 13;

pub const LF: u8 = 10;

/// The family of the host, which decides how it ends a line on disk.
#[derive(Clone, Copy, Debug, PartialEq, Eq, Structural)]
pub enum Host {
    Unix,
    Windows,
}

/// What one read gives: how many bytes of the file it used up, the bytes
/// for the wire, and the carry for the next read.
pub struct ReadView {
    pub consumed: nat,
    pub data: Seq<u8>,
    pub lastch: Option<u8>,
}

/// What one write comes to: whether the last byte of the file is dropped
/// first, the bytes that are put at its end, how many bytes went to the
/// writer, and the carry for the next write.
pub struct WriteView {
    pub rewind: bool,
    pub bytes: Seq<u8>,
    pub size: nat,
    pub lastch: Option<u8>,
}

/// What is to be done to the local file: step back over its last byte if
/// `rewind` is set, then put `bytes` at its end.
pub struct FileWrite {
    pub rewind: bool,
    pub bytes: Vec<u8>,
}

/// What a `FileWrite` holds.
pub struct FileWriteView {
    pub rewind: bool,
    pub bytes: Seq<u8>,
}

impl View for FileWrite {
    type V = FileWriteView;

    open spec fn view(&self) -> FileWriteView {
        FileWriteView { rewind: self.rewind, bytes: self.bytes@ }
    }
}

impl WriteView {
    /// The change to the file that this write comes to.
    pub open spec fn change(self) -> FileWriteView {
        FileWriteView { rewind: self.rewind, bytes: self.bytes }
    }
}

/// On a host that ends lines with a line feed: the wire byte that a file
/// byte begins with.
pub open spec fn unix_first(ch: u8) -> u8 {
    if ch == LF {
        CR
    } else {
        ch
    }
}

/// On a host that ends lines with a line feed: the wire byte that is owed
/// after the first one. A line feed goes out as CR LF, a carriage return
/// as CR NUL.
pub open spec fn unix_carry(ch: u8) -> Option<u8> {
    if ch == LF {
        Some(LF)
    } else if ch == CR {
        Some(NULL)
    } else {
        None
    }
}

/// On a host that ends lines with CR LF: the carry after a file byte. A
/// carriage return owes a NUL, which goes out unless a line feed follows
/// it.
pub open spec fn windows_carry(ch: u8) -> Option<u8> {
    if ch == CR {
        Some(NULL)
    } else {
        None
    }
}

/// One netascii read: translates `source`, the file from the reading
/// position on, into at most `room` wire bytes, beginning with the carry.
pub open spec fn read_netascii_spec(
    source: Seq<u8>,
    lastch: Option<u8>,
    room: nat,
    host: Host,
) -> ReadView
    decreases room,
{
    if room == 0 {
        ReadView { consumed: 0, data: Seq::empty(), lastch }
    } else if host == Host::Unix {
        match lastch {
            Some(owed) => {
                let r = read_netascii_spec(source, None, (room - 1) as nat, host);
                ReadView { consumed: r.consumed, data: seq![owed] + r.data, lastch: r.lastch }
            },
            None => if source.len() == 0 {
                ReadView { consumed: 0, data: Seq::empty(), lastch: None }
            } else {
                let r = read_netascii_spec(
                    source.skip(1),
                    unix_carry(source[0]),
                    (room - 1) as nat,
                    host,
                );
                ReadView {
                    consumed: r.consumed + 1,
                    data: seq![unix_first(source[0])] + r.data,
                    lastch: r.lastch,
                }
            },
        }
    } else if lastch is Some && (source.len() == 0 || source[0] != LF) {
        let r = read_netascii_spec(source, None, (room - 1) as nat, host);
        ReadView { consumed: r.consumed, data: seq![lastch->0] + r.data, lastch: r.lastch }
    } else if source.len() == 0 {
        ReadView { consumed: 0, data: Seq::empty(), lastch }
    } else {
        let r = read_netascii_spec(
            source.skip(1),
            windows_carry(source[0]),
            (room - 1) as nat,
            host,
        );
        ReadView { consumed: r.consumed + 1, data: seq![source[0]] + r.data, lastch: r.lastch }
    }
}

/// One octet read: the first `room` bytes of the file from the reading
/// position on, or all that are left.
pub open spec fn read_octet_spec(source: Seq<u8>, room: nat) -> ReadView {
    let n = if room <= source.len() {
        room
    } else {
        source.len()
    };
    ReadView { consumed: n, data: source.take(n as int), lastch: None }
}

/// One read in the mode of the transfer.
pub open spec fn read_spec(
    source: Seq<u8>,
    room: nat,
    mode: Seq<char>,
    lastch: Option<u8>,
    host: Host,
) -> ReadView {
    if mode == "octet"@ {
        read_octet_spec(source, room)
    } else {
        read_netascii_spec(source, lastch, room, host)
    }
}

/// A write that has done nothing yet.
pub open spec fn write_start(lastch: Option<u8>) -> WriteView {
    WriteView { rewind: false, bytes: Seq::empty(), size: 0, lastch }
}

/// A netascii write after one more wire byte: a NUL behind a carriage
/// return is dropped; a line feed behind a carriage return takes the
/// carriage return's place where the host ends lines with a line feed;
/// every other byte is written as it is.
pub open spec fn write_step(w: WriteView, ch: u8, host: Host) -> WriteView {
    if ch == NULL && w.lastch is Some {
        WriteView { lastch: None, ..w }
    } else if ch == CR {
        WriteView { bytes: w.bytes.push(ch), size: w.size + 1, lastch: Some(ch), ..w }
    } else if ch == LF && w.lastch is Some && host == Host::Unix {
        if w.bytes.len() > 0 {
            WriteView {
                bytes: w.bytes.drop_last().push(ch),
                size: w.size + 1,
                lastch: None,
                ..w
            }
        } else {
            WriteView { rewind: true, bytes: seq![ch], size: w.size + 1, lastch: None }
        }
    } else {
        WriteView { bytes: w.bytes.push(ch), size: w.size + 1, lastch: None, ..w }
    }
}

/// A netascii write after all the wire bytes of `data`, one by one.
pub open spec fn write_from(w: WriteView, data: Seq<u8>, host: Host) -> WriteView
    decreases data.len(),
{
    if data.len() == 0 {
        w
    } else {
        write_from(write_step(w, data[0], host), data.skip(1), host)
    }
}

/// One netascii write.
pub open spec fn write_netascii_spec(lastch: Option<u8>, data: Seq<u8>, host: Host) -> WriteView {
    write_from(write_start(lastch), data, host)
}

/// One octet write: the bytes as they are.
pub open spec fn write_octet_spec(data: Seq<u8>) -> WriteView {
    WriteView { rewind: false, bytes: data, size: data.len(), lastch: None }
}

/// One write in the mode of the transfer.
pub open spec fn write_spec(
    data: Seq<u8>,
    mode: Seq<char>,
    lastch: Option<u8>,
    host: Host,
) -> WriteView {
    if mode == "octet"@ {
        write_octet_spec(data)
    } else {
        write_netascii_spec(lastch, data, host)
    }
}

/// The file after a write was carried out on it.
pub open spec fn apply_write(file: Seq<u8>, w: WriteView) -> Seq<u8> {
    (if w.rewind {
        file.drop_last()
    } else {
        file
    }) + w.bytes
}

/// How much wire is left in a file and a carry, at most: two bytes for
/// each byte of the file, one for the carry.
pub open spec fn wire_bound(source: Seq<u8>, lastch: Option<u8>) -> nat {
    2 * source.len() + if lastch is Some {
        1nat
    } else {
        0nat
    }
}

/// A read uses up no more of the file than there is, gives no more than
/// was asked for, and each byte it gives comes off the bound on what is
/// left.
pub proof fn lemma_read_bounds(source: Seq<u8>, lastch: Option<u8>, room: nat, host: Host)
    ensures
        read_netascii_spec(source, lastch, room, host).consumed <= source.len(),
        read_netascii_spec(source, lastch, room, host).data.len() <= room,
        wire_bound(
            source.skip(read_netascii_spec(source, lastch, room, host).consumed as int),
            read_netascii_spec(source, lastch, room, host).lastch,
        ) + read_netascii_spec(source, lastch, room, host).data.len() <= wire_bound(
            source,
            lastch,
        ),
    decreases room,
{
    if room == 0 {
        assert(source.skip(0) =~= source);
    } else if host == Host::Unix {
        match lastch {
            Some(owed) => {
                lemma_read_bounds(source, None, (room - 1) as nat, host);
            },
            None => {
                if source.len() == 0 {
                    assert(source.skip(0) =~= source);
                } else {
                    let r = read_netascii_spec(
                        source.skip(1),
                        unix_carry(source[0]),
                        (room - 1) as nat,
                        host,
                    );
                    lemma_read_bounds(source.skip(1), unix_carry(source[0]), (room - 1) as nat, host);
                    assert(source.skip(1).skip(r.consumed as int) =~= source.skip(r.consumed as int + 1));
                }
            },
        }
    } else if lastch is Some && (source.len() == 0 || source[0] != LF) {
        lemma_read_bounds(source, None, (room - 1) as nat, host);
    } else if source.len() == 0 {
        assert(source.skip(0) =~= source);
    } else {
        let r = read_netascii_spec(
            source.skip(1),
            windows_carry(source[0]),
            (room - 1) as nat,
            host,
        );
        lemma_read_bounds(source.skip(1), windows_carry(source[0]), (room - 1) as nat, host);
        assert(source.skip(1).skip(r.consumed as int) =~= source.skip(r.consumed as int + 1));
    }
}

/// A netascii read uses up no more bytes of the file than it gives to the
/// wire.
pub proof fn lemma_read_consumed(source: Seq<u8>, lastch: Option<u8>, room: nat, host: Host)
    ensures
        read_netascii_spec(source, lastch, room, host).consumed <= read_netascii_spec(
            source,
            lastch,
            room,
            host,
        ).data.len(),
    decreases room,
{
    if room > 0 {
        if lastch is Some && (host == Host::Unix || source.len() == 0 || source[0] != LF) {
            lemma_read_consumed(source, None, (room - 1) as nat, host);
        } else if source.len() > 0 {
            let carry = if host == Host::Unix {
                unix_carry(source[0])
            } else {
                windows_carry(source[0])
            };
            lemma_read_consumed(source.skip(1), carry, (room - 1) as nat, host);
        }
    }
}

/// A netascii read looks at no more bytes of the file than it has room
/// for: the first `len` bytes of the file, where they are at least as many
/// as the room, give the same block as the whole file.
pub proof fn lemma_read_netascii_prefix(
    source: Seq<u8>,
    lastch: Option<u8>,
    room: nat,
    host: Host,
    len: int,
)
    requires
        room <= len <= source.len(),
    ensures
        read_netascii_spec(source.take(len), lastch, room, host) == read_netascii_spec(
            source,
            lastch,
            room,
            host,
        ),
    decreases room,
{
    let head = source.take(len);
    if room > 0 {
        assert(head[0] == source[0]);
        if lastch is Some && (host == Host::Unix || source[0] != LF) {
            lemma_read_netascii_prefix(source, None, (room - 1) as nat, host, len);
        } else {
            let carry = if host == Host::Unix {
                unix_carry(source[0])
            } else {
                windows_carry(source[0])
            };
            assert(head.skip(1) =~= source.skip(1).take(len - 1));
            lemma_read_netascii_prefix(source.skip(1), carry, (room - 1) as nat, host, len - 1);
        }
    }
}

/// A read in either mode looks at no more bytes of the file than it has
/// room for, and uses up no more than it gives.
pub proof fn lemma_read_prefix(
    source: Seq<u8>,
    room: nat,
    mode: Seq<char>,
    lastch: Option<u8>,
    host: Host,
    len: int,
)
    requires
        room <= len <= source.len(),
    ensures
        read_spec(source.take(len), room, mode, lastch, host) == read_spec(
            source,
            room,
            mode,
            lastch,
            host,
        ),
        read_spec(source, room, mode, lastch, host).consumed <= read_spec(
            source,
            room,
            mode,
            lastch,
            host,
        ).data.len() <= room,
{
    if mode == "octet"@ {
        assert(source.take(len).take(room as int) =~= source.take(room as int));
    } else {
        lemma_read_netascii_prefix(source, lastch, room, host, len);
        lemma_read_consumed(source, lastch, room, host);
        lemma_read_bounds(source, lastch, room, host);
    }
}

/// The blocks of a whole netascii transfer: blocks of `size` bytes are read
/// one after the other, each from where the one before it stopped, until
/// one comes out short.
pub open spec fn read_blocks(
    source: Seq<u8>,
    lastch: Option<u8>,
    size: nat,
    host: Host,
) -> Seq<Seq<u8>>
    decreases wire_bound(source, lastch),
    via read_blocks_decreases
{
    let r = read_netascii_spec(source, lastch, size, host);
    if size == 0 || r.data.len() < size {
        seq![r.data]
    } else {
        seq![r.data] + read_blocks(source.skip(r.consumed as int), r.lastch, size, host)
    }
}

#[via_fn]
proof fn read_blocks_decreases(source: Seq<u8>, lastch: Option<u8>, size: nat, host: Host) {
    lemma_read_bounds(source, lastch, size, host);
}

/// The file and the carry after the blocks of a netascii transfer were
/// written, one after the other.
pub open spec fn write_blocks(
    file: Seq<u8>,
    lastch: Option<u8>,
    blocks: Seq<Seq<u8>>,
    host: Host,
) -> (Seq<u8>, Option<u8>)
    decreases blocks.len(),
{
    if blocks.len() == 0 {
        (file, lastch)
    } else {
        let w = write_netascii_spec(lastch, blocks[0], host);
        write_blocks(apply_write(file, w), w.lastch, blocks.skip(1), host)
    }
}

/// How a reader and a writer stand to each other in the middle of a
/// transfer of the file `whole`. The reader has used up `done` bytes and
/// owes `owed`; the writer has `file` on disk and the carry `seen`. What
/// is on disk is what was read, but for a line feed whose carriage return
/// has gone out and whose own byte has not.
pub open spec fn in_step(
    whole: Seq<u8>,
    done: int,
    owed: Option<u8>,
    file: Seq<u8>,
    seen: Option<u8>,
    host: Host,
) -> bool {
    &&& 0 <= done <= whole.len()
    &&& match owed {
        None => file == whole.take(done) && seen is None,
        Some(c) => {
            &&& seen is Some
            &&& done >= 1
            &&& if c == NULL {
                whole[done - 1] == CR && file == whole.take(done)
            } else {
                c == LF && host == Host::Unix && whole[done - 1] == LF && file == whole.take(
                    done - 1,
                ).push(CR)
            }
        },
    }
}

/// A write under way does not step back behind bytes of its own.
pub open spec fn write_sound(file: Seq<u8>, w: WriteView) -> bool {
    w.rewind ==> w.bytes.len() > 0 && file.len() > 0
}

/// Reader and writer stay in step over one wire byte.
proof fn lemma_step(
    whole: Seq<u8>,
    done: int,
    owed: Option<u8>,
    file: Seq<u8>,
    w: WriteView,
    host: Host,
)
    requires
        in_step(whole, done, owed, apply_write(file, w), w.lastch, host),
        write_sound(file, w),
        owed is Some || done < whole.len(),
    ensures
        ({
            let pending = owed is Some && (host == Host::Unix || done >= whole.len()
                || whole[done] != LF);
            let eof = !pending && done >= whole.len();
            let ch = whole[done];
            let out = if pending {
                owed->0
            } else if host == Host::Unix {
                unix_first(ch)
            } else {
                ch
            };
            let next_done = if pending {
                done
            } else {
                done + 1
            };
            let next_owed = if pending {
                None
            } else if host == Host::Unix {
                unix_carry(ch)
            } else {
                windows_carry(ch)
            };
            let next = write_step(w, out, host);
            !eof ==> in_step(whole, next_done, next_owed, apply_write(file, next), next.lastch, host)
                && write_sound(file, next)
        }),
{
    let pending = owed is Some && (host == Host::Unix || done >= whole.len() || whole[done]
        != LF);
    let eof = !pending && done >= whole.len();
    if !eof {
        let ch = whole[done];
        let out = if pending {
            owed->0
        } else if host == Host::Unix {
            unix_first(ch)
        } else {
            ch
        };
        let next = write_step(w, out, host);
        let before = apply_write(file, w);
        let after = apply_write(file, next);
        if pending {
            if owed->0 == NULL {
                assert(after =~= before);
            } else {
                assert(before == whole.take(done - 1).push(CR));
                if w.bytes.len() > 0 {
                    assert(after =~= before.drop_last().push(LF));
                } else {
                    assert(before =~= file);
                    assert(after =~= before.drop_last().push(LF));
                }
                assert(before.drop_last() =~= whole.take(done - 1));
                assert(whole.take(done - 1).push(LF) =~= whole.take(done));
            }
        } else {
            assert(whole.take(done).push(ch) =~= whole.take(done + 1));
            assert(whole.take(done + 1 - 1) =~= whole.take(done));
            assert(after =~= before.push(out));
        }
    }
}

/// Reader and writer stay in step over one block, and a block that comes
/// out short has used up the file.
proof fn lemma_block(
    whole: Seq<u8>,
    done: int,
    owed: Option<u8>,
    file: Seq<u8>,
    w: WriteView,
    room: nat,
    host: Host,
)
    requires
        in_step(whole, done, owed, apply_write(file, w), w.lastch, host),
        write_sound(file, w),
    ensures
        ({
            let r = read_netascii_spec(whole.skip(done), owed, room, host);
            let after = write_from(w, r.data, host);
            &&& in_step(
                whole,
                done + r.consumed,
                r.lastch,
                apply_write(file, after),
                after.lastch,
                host,
            )
            &&& write_sound(file, after)
            &&& r.data.len() < room ==> done + r.consumed == whole.len()
        }),
    decreases room,
{
    let source = whole.skip(done);
    let r = read_netascii_spec(source, owed, room, host);
    if room == 0 {
    } else {
        let pending = owed is Some && (host == Host::Unix || done >= whole.len() || whole[done]
            != LF);
        let eof = !pending && done >= whole.len();
        if eof {
            assert(source.len() == 0);
        } else {
            if done < whole.len() {
                assert(source[0] == whole[done]);
                assert(source.skip(1) =~= whole.skip(done + 1));
            }
            lemma_step(whole, done, owed, file, w, host);
            let ch = whole[done];
            let out = if pending {
                owed->0
            } else if host == Host::Unix {
                unix_first(ch)
            } else {
                ch
            };
            let next_done = if pending {
                done
            } else {
                done + 1
            };
            let next_owed = if pending {
                None
            } else if host == Host::Unix {
                unix_carry(ch)
            } else {
                windows_carry(ch)
            };
            let next = write_step(w, out, host);
            let r2 = read_netascii_spec(whole.skip(next_done), next_owed, (room - 1) as nat, host);
            assert(r.data =~= seq![out] + r2.data);
            assert(r.data[0] == out);
            assert(r.data.skip(1) =~= r2.data);
            lemma_block(whole, next_done, next_owed, file, next, (room - 1) as nat, host);
        }
    }
}

/// Reader and writer stay in step over all the blocks of a transfer, and
/// at its end the file on disk is the file that was read.
proof fn lemma_blocks(
    whole: Seq<u8>,
    done: int,
    owed: Option<u8>,
    file: Seq<u8>,
    seen: Option<u8>,
    size: nat,
    host: Host,
)
    requires
        in_step(whole, done, owed, file, seen, host),
        size >= 1,
    ensures
        write_blocks(file, seen, read_blocks(whole.skip(done), owed, size, host), host).0
            == whole,
    decreases wire_bound(whole.skip(done), owed),
{
    let source = whole.skip(done);
    let r = read_netascii_spec(source, owed, size, host);
    let start = write_start(seen);
    assert(apply_write(file, start) =~= file);
    lemma_block(whole, done, owed, file, start, size, host);
    lemma_read_bounds(source, owed, size, host);
    let w = write_netascii_spec(seen, r.data, host);
    let blocks = read_blocks(source, owed, size, host);
    assert(blocks[0] == r.data);
    let written = apply_write(file, w);
    assert(write_blocks(file, seen, blocks, host) == write_blocks(
        written,
        w.lastch,
        blocks.skip(1),
        host,
    ));
    if r.data.len() < size {
        assert(blocks.skip(1) =~= Seq::<Seq<u8>>::empty());
        assert(write_blocks(written, w.lastch, Seq::<Seq<u8>>::empty(), host).0 == written);
        assert(whole.take(whole.len() as int) =~= whole);
        lemma_short_block(source, owed, size, host);
        assert(written == whole);
    } else {
        let tail = read_blocks(source.skip(r.consumed as int), r.lastch, size, host);
        assert(blocks.skip(1) =~= tail);
        assert(source.skip(r.consumed as int) =~= whole.skip(done + r.consumed));
        lemma_blocks(whole, done + r.consumed, r.lastch, apply_write(file, w), w.lastch, size, host);
    }
}

/// A block that comes out short owes nothing.
pub proof fn lemma_short_block(source: Seq<u8>, lastch: Option<u8>, room: nat, host: Host)
    requires
        read_netascii_spec(source, lastch, room, host).data.len() < room,
    ensures
        read_netascii_spec(source, lastch, room, host).lastch is None,
    decreases room,
{
    if room > 0 {
        if lastch is Some && (host == Host::Unix || source.len() == 0 || source[0] != LF) {
            lemma_short_block(source, None, (room - 1) as nat, host);
        } else if source.len() > 0 {
            let carry = if host == Host::Unix {
                unix_carry(source[0])
            } else {
                windows_carry(source[0])
            };
            lemma_short_block(source.skip(1), carry, (room - 1) as nat, host);
        }
    }
}

/// Translator round trip: a file that is sent in netascii, in blocks of
/// any one size, and written by a host of the same family as the sender's,
/// arrives as it was.
pub proof fn lemma_translator_round_trip(file: Seq<u8>, size: nat, host: Host)
    requires
        size >= 1,
    ensures
        write_blocks(Seq::empty(), None, read_blocks(file, None, size, host), host).0 == file,
{
    assert(file.skip(0) =~= file);
    assert(file.take(0) =~= Seq::<u8>::empty());
    lemma_blocks(file, 0, None, Seq::empty(), None, size, host);
}

/// Reads the next block of a file. `source` holds the file from the
/// reading position on: `size` bytes of it, or all that are left. The
/// result is the number of file bytes used up, the block, and the carry.
pub fn read(source: &[u8], size: usize, mode: &str, lastch: Option<u8>, host: Host) -> (r: (
    usize,
    Vec<u8>,
    Option<u8>,
))
    ensures
        r.0 == read_spec(source@, size as nat, mode@, lastch, host).consumed,
        r.1@ == read_spec(source@, size as nat, mode@, lastch, host).data,
        r.2 == read_spec(source@, size as nat, mode@, lastch, host).lastch,
        r.0 <= source@.len(),
        r.1@.len() <= size,
{
    if str_eq(mode, "octet") {
        read_octet(source, lastch, size)
    } else {
        read_netascii(source, lastch, size, host)
    }
}

/// Reads the next block of a text file and puts it in netascii.
pub fn read_netascii(source: &[u8], lastch: Option<u8>, size: usize, host: Host) -> (r: (
    usize,
    Vec<u8>,
    Option<u8>,
))
    ensures
        r.0 == read_netascii_spec(source@, lastch, size as nat, host).consumed,
        r.1@ == read_netascii_spec(source@, lastch, size as nat, host).data,
        r.2 == read_netascii_spec(source@, lastch, size as nat, host).lastch,
        r.0 <= source@.len(),
        r.1@.len() <= size,
{
    let ghost goal = read_netascii_spec(source@, lastch, size as nat, host);
    let mut out: Vec<u8> = Vec::new();
    let mut consumed: usize = 0;
    let mut lastch = lastch;
    assert(source@.skip(0) =~= source@);
    assert(out@ + goal.data =~= goal.data);
    while out.len() < size
        invariant_except_break
            consumed <= source@.len(),
            out@.len() <= size,
            goal == ({
                let r = read_netascii_spec(
                    source@.skip(consumed as int),
                    lastch,
                    (size - out@.len()) as nat,
                    host,
                );
                ReadView {
                    consumed: (consumed + r.consumed) as nat,
                    data: out@ + r.data,
                    lastch: r.lastch,
                }
            }),
        ensures
            consumed <= source@.len(),
            out@.len() <= size,
            goal == (ReadView { consumed: consumed as nat, data: out@, lastch }),
        decreases size - out.len(),
    {
        let ghost rest = source@.skip(consumed as int);
        let ghost room = (size - out@.len()) as nat;
        let ghost before = out@;
        let pending = match host {
            Host::Unix => lastch.is_some(),
            Host::Windows => lastch.is_some() && (consumed >= source.len() || source[consumed]
                != LF),
        };
        if pending {
            let owed = lastch.unwrap();
            out.push(owed);
            lastch = None;
            proof {
                let r = read_netascii_spec(rest, None, (room - 1) as nat, host);
                assert(before + (seq![owed] + r.data) =~= out@ + r.data);
            }
        } else if consumed >= source.len() {
            proof {
                assert(rest.len() == 0);
                assert(before + Seq::<u8>::empty() =~= before);
            }
            break;
        } else {
            let ch = source[consumed];
            consumed += 1;
            let first = match host {
                Host::Unix => if ch == LF {
                    CR
                } else {
                    ch
                },
                Host::Windows => ch,
            };
            out.push(first);
            lastch = match host {
                Host::Unix => if ch == LF {
                    Some(LF)
                } else if ch == CR {
                    Some(NULL)
                } else {
                    None
                },
                Host::Windows => if ch == CR {
                    Some(NULL)
                } else {
                    None
                },
            };
            proof {
                assert(rest[0] == ch);
                assert(rest.skip(1) =~= source@.skip(consumed as int));
                let r = read_netascii_spec(rest.skip(1), lastch, (room - 1) as nat, host);
                assert(before + (seq![first] + r.data) =~= out@ + r.data);
            }
        }
    }
    proof {
        if out@.len() >= size {
            assert(out@ + Seq::<u8>::empty() =~= out@);
        }
    }
    (consumed, out, lastch)
}

/// Reads the next block of a file as it is.
pub fn read_octet(source: &[u8], lastch: Option<u8>, size: usize) -> (r: (
    usize,
    Vec<u8>,
    Option<u8>,
))
    ensures
        r.0 == read_octet_spec(source@, size as nat).consumed,
        r.1@ == read_octet_spec(source@, size as nat).data,
        r.2 == read_octet_spec(source@, size as nat).lastch,
        r.0 <= source@.len(),
        r.1@.len() <= size,
{
    let n = if size <= source.len() {
        size
    } else {
        source.len()
    };
    let mut out: Vec<u8> = Vec::new();
    let mut i: usize = 0;
    while i < n
        invariant
            i <= n <= source@.len(),
            out@ == source@.take(i as int),
        decreases n - i,
    {
        out.push(source[i]);
        i += 1;
        assert(out@ =~= source@.take(i as int));
    }
    (n, out, None)
}

/// Turns a block off the wire into what is to be put on the local file.
/// The result is the change to the file, the number of bytes that went to
/// the writer, and the carry.
pub fn write(buf: &[u8], mode: &str, lastch: Option<u8>, host: Host) -> (r: (
    FileWrite,
    usize,
    Option<u8>,
))
    ensures
        r.0.rewind == write_spec(buf@, mode@, lastch, host).rewind,
        r.0.bytes@ == write_spec(buf@, mode@, lastch, host).bytes,
        r.1 == write_spec(buf@, mode@, lastch, host).size,
        r.2 == write_spec(buf@, mode@, lastch, host).lastch,
{
    if str_eq(mode, "octet") {
        write_octet(lastch, buf)
    } else {
        write_netascii(lastch, buf, host)
    }
}

/// Turns a block of netascii into the text that the host keeps on disk.
pub fn write_netascii(lastch: Option<u8>, buf: &[u8], host: Host) -> (r: (
    FileWrite,
    usize,
    Option<u8>,
))
    ensures
        r.0.rewind == write_netascii_spec(lastch, buf@, host).rewind,
        r.0.bytes@ == write_netascii_spec(lastch, buf@, host).bytes,
        r.1 == write_netascii_spec(lastch, buf@, host).size,
        r.2 == write_netascii_spec(lastch, buf@, host).lastch,
{
    let ghost goal = write_netascii_spec(lastch, buf@, host);
    let mut rewind = false;
    let mut bytes: Vec<u8> = Vec::new();
    let mut size: usize = 0;
    let mut lastch = lastch;
    let mut i: usize = 0;
    assert(buf@.skip(0) =~= buf@);
    while i < buf.len()
        invariant
            i <= buf@.len(),
            size <= i,
            goal == write_from(
                WriteView { rewind, bytes: bytes@, size: size as nat, lastch },
                buf@.skip(i as int),
                host,
            ),
        decreases buf@.len() - i,
    {
        let ch = buf[i];
        let ghost before = WriteView { rewind, bytes: bytes@, size: size as nat, lastch };
        proof {
            assert(buf@.skip(i as int)[0] == ch);
            assert(buf@.skip(i as int).skip(1) =~= buf@.skip(i + 1));
        }
        if ch == NULL && lastch.is_some() {
            lastch = None;
        } else if ch == CR {
            bytes.push(ch);
            size += 1;
            lastch = Some(ch);
        } else if ch == LF && lastch.is_some() && host == Host::Unix {
            if bytes.len() > 0 {
                bytes.pop();
                bytes.push(ch);
            } else {
                rewind = true;
                bytes.push(ch);
            }
            size += 1;
            lastch = None;
        } else {
            bytes.push(ch);
            size += 1;
            lastch = None;
        }
        i += 1;
        proof {
            let after = write_step(before, ch, host);
            assert(bytes@ =~= after.bytes);
            assert(after == WriteView { rewind, bytes: bytes@, size: size as nat, lastch });
        }
    }
    (FileWrite { rewind, bytes }, size, lastch)
}

/// Takes a block as it is.
pub fn write_octet(lastch: Option<u8>, buf: &[u8]) -> (r: (FileWrite, usize, Option<u8>))
    ensures
        r.0.rewind == write_octet_spec(buf@).rewind,
        r.0.bytes@ == write_octet_spec(buf@).bytes,
        r.1 == write_octet_spec(buf@).size,
        r.2 == write_octet_spec(buf@).lastch,
{
    let mut bytes: Vec<u8> = Vec::new();
    let mut i: usize = 0;
    while i < buf.len()
        invariant
            i <= buf@.len(),
            bytes@ == buf@.take(i as int),
        decreases buf@.len() - i,
    {
        bytes.push(buf[i]);
        i += 1;
        assert(bytes@ =~= buf@.take(i as int));
    }
    assert(buf@.take(buf@.len() as int) =~= buf@);
    (FileWrite { rewind: false, bytes }, buf.len(), None)
}

} // verus!
