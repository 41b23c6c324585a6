//! Whole transfers: what a sender and a receiver do from the first block
//! of a file to its last, when no packet is lost.

use crate::file::Host;
use crate::options::OptionsView;
use crate::packet::ack_bytes;
use crate::session::{
    blocknum_add, find_block, in_window, lemma_expect_window, window_spec, FileBlock,
    SessionView,
};
use crate::transfer::{ack_outcome, data_outcome};
use crate::HEADER_LEN;
use vstd::arithmetic::div_mod::{
    lemma_fundamental_div_mod, lemma_fundamental_div_mod_converse, lemma_mod_bound,
};
use vstd::prelude::*;

verus! {

/// The lesser of two numbers.
pub open spec fn least(a: int, b: int) -> int {
    if a <= b {
        a
    } else {
        b
    }
}

/// Fewer bytes than a block holds make no full block.
pub proof fn lemma_div_small(n: int, size: int)
    requires
        0 <= n < size,
    ensures
        n / size == 0,
{
    lemma_fundamental_div_mod_converse(n, size, 0, n);
}

/// Taking `count` full blocks off a file leaves that many full blocks less.
pub proof fn lemma_div_many(n: int, size: int, count: int)
    requires
        1 <= size,
        0 <= n,
        0 <= count <= n / size,
    ensures
        count * size <= n,
        (n - count * size) / size == n / size - count,
{
    lemma_fundamental_div_mod(n, size);
    lemma_mod_bound(n, size);
    let q = n / size;
    let r = n % size;
    assert(n - count * size == (q - count) * size + r) by (nonlinear_arith)
        requires
            n == size * q + r,
    ;
    assert(count * size <= q * size) by (nonlinear_arith)
        requires
            count <= q,
            size >= 1,
    ;
    assert(q * size == size * q) by (nonlinear_arith);
    lemma_fundamental_div_mod_converse(n - count * size, size, q - count, r);
}

/// A file of at least one block holds at least one full block.
pub proof fn lemma_div_one(n: int, size: int)
    requires
        1 <= size <= n,
    ensures
        n / size >= 1,
        size <= n,
        (n - size) / size == n / size - 1,
{
    lemma_fundamental_div_mod(n, size);
    lemma_mod_bound(n, size);
    let q = n / size;
    if q <= 0 {
        assert(size * q <= 0) by (nonlinear_arith)
            requires
                q <= 0,
                size >= 1,
        ;
    }
    lemma_div_many(n, size, 1);
}

/// One window of a transfer in `octet` mode: as many DATA packets as the
/// window allows, or as the rest of the file fills and one more; numbered
/// on from the block before; the last of them short exactly when the
/// window reaches the end of the file.
pub proof fn lemma_octet_window(
    blksize: usize,
    host: Host,
    source: Seq<u8>,
    blocknum: u16,
    reader_pos: int,
    lastch: Option<u8>,
    rollover: int,
    left: nat,
)
    requires
        1 <= blksize <= u16::MAX,
        1 <= left <= u16::MAX,
        0 <= reader_pos,
        reader_pos + source.len() <= u64::MAX,
    ensures
        ({
            let w = window_spec(
                "octet"@,
                blksize,
                host,
                source,
                blocknum,
                reader_pos,
                lastch,
                rollover,
                left,
            );
            let k = least(left as int, source.len() as int / blksize as int + 1);
            &&& k >= 1
            &&& w.blocks.len() == k
            &&& w.packets.len() == k
            &&& forall|j: int|
                0 <= j < k ==> (#[trigger] w.blocks[j]).blocknum == (blocknum + j + 1) % 65536
            &&& w.blocks[k - 1].reader_pos + w.blocks[k - 1].reader_pos_len == reader_pos + least(
                source.len() as int,
                k * blksize,
            )
            &&& (w.blocks[k - 1].data_len < blksize + HEADER_LEN <==> k == source.len() as int
                / blksize as int + 1)
            &&& w.rollover == rollover + if blocknum + k >= 65536 {
                1int
            } else {
                0int
            }
            &&& w.lastch is None
        }),
    decreases left,
{
    let n = source.len() as int;
    let size = blksize as int;
    let w = window_spec(
        "octet"@,
        blksize,
        host,
        source,
        blocknum,
        reader_pos,
        lastch,
        rollover,
        left,
    );
    let num = blocknum_add(blocknum, 1);
    let wraps = if blocknum == u16::MAX {
        rollover + 1
    } else {
        rollover
    };
    if n < size {
        lemma_div_small(n, size);
        assert(least(n, 1 * size) == n) by (nonlinear_arith)
            requires
                n < size,
        ;
    } else {
        lemma_div_one(n, size);
        let rest = source.skip(size);
        if left == 1 {
            assert(least(n, 1 * size) == size) by (nonlinear_arith)
                requires
                    size <= n,
            ;
        } else {
            lemma_octet_window(
                blksize,
                host,
                rest,
                num,
                reader_pos + size,
                None,
                wraps,
                (left - 1) as nat,
            );
            let tail = window_spec(
                "octet"@,
                blksize,
                host,
                rest,
                num,
                reader_pos + size,
                None,
                wraps,
                (left - 1) as nat,
            );
            let inner = least(left - 1, (n - size) / size + 1);
            let k = inner + 1;
            assert(k == least(left as int, n / size + 1));
            assert(w.blocks.len() == k);
            assert forall|j: int| 0 <= j < k implies (#[trigger] w.blocks[j]).blocknum == (
            blocknum + j + 1) % 65536 by {
                if j >= 1 {
                    assert(w.blocks[j] == tail.blocks[j - 1]);
                }
            }
            assert(w.blocks[k - 1] == tail.blocks[inner - 1]);
            assert(k * size == inner * size + size) by (nonlinear_arith)
                requires
                    k == inner + 1,
            ;
        }
    }
}

/// No record on file has the number that is looked for.
pub proof fn lemma_not_found(blocks: Seq<FileBlock>, num: u16, from: int)
    requires
        0 <= from,
        forall|j: int| from <= j < blocks.len() ==> (#[trigger] blocks[j]).blocknum != num,
    ensures
        find_block(blocks, num, from) is None,
    decreases blocks.len() - from,
{
    if from < blocks.len() {
        lemma_not_found(blocks, num, from + 1);
    }
}

/// The DATA packets that a sender emits over a whole file when the last
/// packet of every window is acknowledged: window after window, from the
/// window behind the block `start`, until an ACK completes the transfer.
/// `fuel` bounds the number of windows.
pub open spec fn sender_run(s: SessionView, file: Seq<u8>, start: u16, fuel: nat) -> nat
    decreases fuel,
{
    if fuel == 0 {
        0
    } else {
        let pos = s.window_start(start).0;
        let sent = s.after_window(start, file.skip(pos as int));
        let last = sent.blocks.last().blocknum;
        let acked = ack_outcome(sent, last);
        sent.blocks.len() + if acked.step.next is Read {
            sender_run(acked.session, file, last, (fuel - 1) as nat)
        } else {
            0
        }
    }
}

/// One window of a sender in `octet` mode and the ACK of its last packet:
/// the window holds as many DATA packets as it allows, or as the rest of
/// the file fills and one more; the ACK completes the transfer if the
/// window reached the end of the file, and else calls for the next window,
/// which begins where this one ended.
pub proof fn lemma_sender_step(s: SessionView, file: Seq<u8>, start: u16)
    requires
        s.mode == "octet"@,
        s.options.blksize() >= 1,
        s.options.windowsize() >= 1,
        s.blocknum_ack == start,
        s.window_start(start).0 <= file.len() <= u64::MAX,
        s.rollover + (file.len() - s.window_start(start).0) + 1 < u32::MAX,
    ensures
        ({
            let size = s.options.blksize() as int;
            let window = s.options.windowsize() as int;
            let pos = s.window_start(start).0;
            let n = file.len() - pos;
            let sent = s.after_window(start, file.skip(pos as int));
            let last = sent.blocks.last().blocknum;
            let acked = ack_outcome(sent, last);
            &&& sent.blocks.len() == least(window, n / size + 1)
            &&& window >= n / size + 1 ==> !(acked.step.next is Read)
            &&& window < n / size + 1 ==> {
                &&& acked.step.next is Read
                &&& acked.session.mode == s.mode
                &&& acked.session.options == s.options
                &&& acked.session.blocknum_ack == last
                &&& acked.session.window_start(last).0 == pos + window * size
                &&& acked.session.rollover <= s.rollover + 1
            }
        }),
{
    let size = s.options.blksize() as int;
    let window = s.options.windowsize() as int;
    let pos = s.window_start(start).0;
    let lastch = s.window_start(start).1;
    let source = file.skip(pos as int);
    let n = source.len() as int;
    assert(n == file.len() - pos);
    let w = s.window(start, pos, lastch, source);
    lemma_octet_window(
        s.options.blksize(),
        s.host,
        source,
        start,
        pos as int,
        lastch,
        s.rollover as int,
        s.options.windowsize() as nat,
    );
    let k = least(window, n / size + 1);
    let sent = s.after_window(start, source);
    assert(sent.blocks == w.blocks);
    assert(sent.blocks.last() == w.blocks[k - 1]);
    let last = sent.blocks.last().blocknum;
    assert(last == (start + k) % 65536);
    assert(sent.rollover == w.rollover);
    assert(last != 0 || sent.rollover != 0);
    assert(in_window(start, s.options.windowsize(), last)) by {
        lemma_expect_window(start, s.options.windowsize(), last);
        assert(last == blocknum_add(start, k as u16));
    }
    let taken = SessionView { blocknum_ack: last, ..sent };
    let acked = ack_outcome(sent, last);
    assert(taken.sent_completed() <==> k == n / size + 1);
    if window < n / size + 1 {
        assert(acked.session == taken);
        lemma_div_many(n, size, window);
        assert forall|j: int| 0 <= j < w.blocks.len() implies (#[trigger] w.blocks[j]).blocknum
            != blocknum_add(last, 1) by {
            assert(w.blocks[j].blocknum == (start + j + 1) % 65536);
        }
        lemma_not_found(w.blocks, blocknum_add(last, 1), 0);
        assert(least(n, window * size) == window * size);
        assert(taken.blocks.last().reader_pos + taken.blocks.last().reader_pos_len == pos
            + window * size);
    }
}

/// From any window on, a sender in `octet` mode emits one DATA packet for
/// each full block that is left of the file, and one more.
pub proof fn lemma_sender_run(s: SessionView, file: Seq<u8>, start: u16, fuel: nat)
    requires
        s.mode == "octet"@,
        s.options.blksize() >= 1,
        s.options.windowsize() >= 1,
        s.blocknum_ack == start,
        s.window_start(start).0 <= file.len() <= u64::MAX,
        s.rollover + (file.len() - s.window_start(start).0) + 1 < u32::MAX,
        fuel > (file.len() - s.window_start(start).0) / s.options.blksize() as int,
    ensures
        sender_run(s, file, start, fuel) == (file.len() - s.window_start(start).0)
            / s.options.blksize() as int + 1,
    decreases fuel,
{
    let size = s.options.blksize() as int;
    let window = s.options.windowsize() as int;
    let pos = s.window_start(start).0;
    let n = file.len() - pos;
    let sent = s.after_window(start, file.skip(pos as int));
    let last = sent.blocks.last().blocknum;
    let acked = ack_outcome(sent, last);
    lemma_sender_step(s, file, start);
    if window < n / size + 1 {
        lemma_div_many(n, size, window);
        assert(window * size >= 1) by (nonlinear_arith)
            requires
                window >= 1,
                size >= 1,
        ;
        lemma_sender_run(acked.session, file, last, (fuel - 1) as nat);
    }
}

/// Sliding window: where every ACK arrives, a sender in `octet` mode emits
/// over a whole file one DATA packet for each full block of it and one
/// more; for a file that is no whole number of blocks that is the size of
/// the file divided by the block size, rounded up.
pub proof fn lemma_sliding_window(file: Seq<u8>, options: OptionsView, host: Host, fuel: nat)
    requires
        options.blksize() >= 1,
        options.windowsize() >= 1,
        file.len() + 1 < u32::MAX,
        fuel > file.len() / options.blksize() as nat,
    ensures
        sender_run(
            SessionView { mode: "octet"@, options, ..SessionView::start(host) },
            file,
            0,
            fuel,
        ) == file.len() / options.blksize() as nat + 1,
        file.len() % options.blksize() as nat != 0 ==> sender_run(
            SessionView { mode: "octet"@, options, ..SessionView::start(host) },
            file,
            0,
            fuel,
        ) == (file.len() + options.blksize() - 1) / options.blksize() as int,
{
    let s = SessionView { mode: "octet"@, options, ..SessionView::start(host) };
    assert(s.window_start(0) == (0u64, None::<u8>));
    lemma_sender_run(s, file, 0, fuel);
    let n = file.len() as int;
    let size = options.blksize() as int;
    if n % size != 0 {
        lemma_fundamental_div_mod(n, size);
        lemma_mod_bound(n, size);
        let q = n / size;
        let r = n % size;
        assert(n + size - 1 == (q + 1) * size + (r - 1)) by (nonlinear_arith)
            requires
                n == size * q + r,
        ;
        lemma_fundamental_div_mod_converse(n + size - 1, size, q + 1, r - 1);
    }
}

/// The session of a receiver after the first `count` of the payloads have
/// come in, each in a DATA packet with the number that follows the last
/// block taken.
pub open spec fn received(s: SessionView, payloads: Seq<Seq<u8>>, count: nat) -> SessionView
    decreases count,
{
    if count == 0 {
        s
    } else {
        let before = received(s, payloads, (count - 1) as nat);
        data_outcome(
            before,
            blocknum_add(before.blocknum_ack, 1),
            payloads[count - 1],
        ).session
    }
}

/// The blocks of a file as they come in: every one full but the last,
/// which is short.
pub open spec fn blocks_of_a_file(payloads: Seq<Seq<u8>>, blksize: usize) -> bool {
    &&& payloads.len() >= 1
    &&& forall|i: int| 0 <= i < payloads.len() - 1 ==> (#[trigger] payloads[i]).len() >= blksize
    &&& payloads.last().len() < blksize
}

/// One more block in a window: the count goes up by one, and back to
/// nothing when the window is full.
pub proof fn lemma_mod_next(count: int, window: int)
    requires
        0 <= count,
        1 <= window,
    ensures
        (count + 1) % window == if count % window + 1 == window {
            0
        } else {
            count % window + 1
        },
{
    lemma_fundamental_div_mod(count, window);
    lemma_mod_bound(count, window);
    let q = count / window;
    let r = count % window;
    if r + 1 == window {
        assert(count + 1 == (q + 1) * window + 0) by (nonlinear_arith)
            requires
                count == window * q + r,
                r + 1 == window,
        ;
        lemma_fundamental_div_mod_converse(count + 1, window, q + 1, 0);
    } else {
        assert(count + 1 == q * window + (r + 1)) by (nonlinear_arith)
            requires
                count == window * q + r,
        ;
        lemma_fundamental_div_mod_converse(count + 1, window, q, r + 1);
    }
}

/// While the blocks of a file come in, the receiver counts them window by
/// window and keeps its options and its mode.
pub proof fn lemma_received(s: SessionView, payloads: Seq<Seq<u8>>, count: nat)
    requires
        s.received_data == 0,
        s.options.windowsize() >= 1,
        blocks_of_a_file(payloads, s.options.blksize()),
        count < payloads.len(),
    ensures
        received(s, payloads, count).received_data == count % s.options.windowsize() as nat,
        received(s, payloads, count).options == s.options,
        received(s, payloads, count).mode == s.mode,
        received(s, payloads, count).host == s.host,
    decreases count,
{
    if count > 0 {
        lemma_received(s, payloads, (count - 1) as nat);
        lemma_mod_next(count - 1, s.options.windowsize() as int);
        lemma_mod_bound(count - 1, s.options.windowsize() as int);
    } else {
        lemma_div_small(0, s.options.windowsize() as int);
        lemma_fundamental_div_mod(0, s.options.windowsize() as int);
    }
}

/// Sliding window, the receiver's side: while the blocks of a file come
/// in, every one is written; an ACK goes out exactly after the last block
/// of each window and after the short block that ends the file, and it is
/// the ACK of that block; the transfer is complete exactly at the short
/// block.
pub proof fn lemma_receiver_acks(s: SessionView, payloads: Seq<Seq<u8>>, count: nat)
    requires
        s.received_data == 0,
        s.options.windowsize() >= 1,
        blocks_of_a_file(payloads, s.options.blksize()),
        count < payloads.len(),
    ensures
        ({
            let before = received(s, payloads, count);
            let blocknum = blocknum_add(before.blocknum_ack, 1);
            let step = data_outcome(before, blocknum, payloads[count as int]).step;
            &&& step.write is Some
            &&& step.send is Some <==> ((count + 1) % s.options.windowsize() as nat == 0 || count
                == payloads.len() - 1)
            &&& step.send matches Some(packet) ==> packet == ack_bytes(blocknum)
            &&& step.next is Complete <==> count == payloads.len() - 1
            &&& step.next is Complete || step.next is Receive
        }),
{
    lemma_received(s, payloads, count);
    lemma_mod_next(count as int, s.options.windowsize() as int);
    lemma_mod_bound(count as int, s.options.windowsize() as int);
}

} // verus!
