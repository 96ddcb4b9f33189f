//! Reading and writing datagrams: what is counted and reported, and what is done next.
use crate::address::{ipv6_loopback, is_ipv6_loopback, IpAddress};
use crate::nsresult::NsResult;
use vstd::prelude::*;

verus! {

/// How often the socket was not ready.
#[derive(Debug)]
pub struct WouldBlockCounter {
    rx: usize,
    tx: usize,
}

impl WouldBlockCounter {
    /// How often the socket was not ready to be read.
    pub closed spec fn rx(&self) -> usize {
        self.rx
    }

    /// How often the socket was not ready to be written to.
    pub closed spec fn tx(&self) -> usize {
        self.tx
    }

    /// Both numbers.
    pub open spec fn counts(&self) -> BlockCounts {
        BlockCounts { rx: self.rx() as nat, tx: self.tx() as nat }
    }

    pub fn new() -> (counter: Self)
        ensures
            counter.rx() == 0,
            counter.tx() == 0,
            counter.counts() == counts_after(Seq::empty()),
    {
        WouldBlockCounter { rx: 0, tx: 0 }
    }

    pub fn increment_rx(&mut self)
        requires
            old(self).rx() < usize::MAX,
        ensures
            final(self).rx() == old(self).rx() + 1,
            final(self).tx() == old(self).tx(),
    {
        self.rx += 1;
    }

    pub fn increment_tx(&mut self)
        requires
            old(self).tx() < usize::MAX,
        ensures
            final(self).tx() == old(self).tx() + 1,
            final(self).rx() == old(self).rx(),
    {
        self.tx += 1;
    }

    pub fn rx_count(&self) -> (count: usize)
        ensures
            count == self.rx(),
    {
        self.rx
    }

    pub fn tx_count(&self) -> (count: usize)
        ensures
            count == self.tx(),
    {
        self.tx
    }
}

/// The kinds of input and output errors that are told apart.
#[derive(Clone, Copy, Debug, PartialEq, Eq, Structural)]
pub enum IoErrorKind {
    ConnectionRefused,
    ConnectionReset,
    AddrNotAvailable,
    ConnectionAborted,
    NotConnected,
    AddrInUse,
    AlreadyExists,
    WouldBlock,
    TimedOut,
    Interrupted,
    UnexpectedEof,
    OutOfMemory,
    Other,
}

/// Something that happens at the socket.
pub enum SocketEvent {
    /// It was read, with this error if any.
    Read(Option<IoErrorKind>),
    /// A batch was written.
    Written(SendOutcome),
}

/// Whether the socket was not ready to be read.
pub open spec fn read_blocks(event: SocketEvent) -> bool {
    event == SocketEvent::Read(Some(IoErrorKind::WouldBlock))
}

/// Whether the socket was not ready to be written to.
pub open spec fn write_blocks(event: SocketEvent) -> bool {
    event matches SocketEvent::Written(outcome) && outcome.blocks()
}

/// How often the socket was not ready to be read, and to be written to.
pub struct BlockCounts {
    pub rx: nat,
    pub tx: nat,
}

/// What is counted once an event happened.
pub open spec fn counted(counts: BlockCounts, event: SocketEvent) -> BlockCounts {
    BlockCounts {
        rx: if read_blocks(event) {
            counts.rx + 1
        } else {
            counts.rx
        },
        tx: if write_blocks(event) {
            counts.tx + 1
        } else {
            counts.tx
        },
    }
}

/// What is counted from the start on, over a list of events.
pub open spec fn counts_after(events: Seq<SocketEvent>) -> BlockCounts
    decreases events.len(),
{
    if events.len() == 0 {
        BlockCounts { rx: 0, tx: 0 }
    } else {
        counted(counts_after(events.drop_last()), events.last())
    }
}

/// The counts are the numbers of times that the socket was not ready, since the start.
pub proof fn law_would_blocks_are_counted(events: Seq<SocketEvent>)
    ensures
        counts_after(events).rx == events.filter(|e: SocketEvent| read_blocks(e)).len(),
        counts_after(events).tx == events.filter(|e: SocketEvent| write_blocks(e)).len(),
    decreases events.len(),
{
    reveal(Seq::filter);
    if events.len() > 0 {
        law_would_blocks_are_counted(events.drop_last());
    }
}

/// What the embedder is told of an input or output error. A reset stands for every error after
/// which the embedder may try again.
pub open spec fn io_result(kind: IoErrorKind) -> NsResult {
    match kind {
        IoErrorKind::ConnectionRefused => NsResult::NS_ERROR_CONNECTION_REFUSED,
        IoErrorKind::ConnectionReset => NsResult::NS_ERROR_NET_RESET,
        IoErrorKind::AddrNotAvailable => NsResult::NS_ERROR_CONNECTION_REFUSED,
        IoErrorKind::ConnectionAborted => NsResult::NS_ERROR_NET_RESET,
        IoErrorKind::NotConnected => NsResult::NS_ERROR_NOT_CONNECTED,
        IoErrorKind::AddrInUse => NsResult::NS_ERROR_SOCKET_ADDRESS_IN_USE,
        IoErrorKind::AlreadyExists => NsResult::NS_ERROR_FILE_ALREADY_EXISTS,
        IoErrorKind::WouldBlock => NsResult::NS_BASE_STREAM_WOULD_BLOCK,
        IoErrorKind::TimedOut => NsResult::NS_ERROR_NET_TIMEOUT,
        IoErrorKind::Interrupted => NsResult::NS_ERROR_NET_INTERRUPT,
        IoErrorKind::UnexpectedEof => NsResult::NS_ERROR_NET_INTERRUPT,
        IoErrorKind::OutOfMemory => NsResult::NS_ERROR_OUT_OF_MEMORY,
        IoErrorKind::Other => NsResult::NS_ERROR_NET_RESET,
    }
}

/// What the embedder is told of an input or output error.
pub fn into_nsresult(kind: IoErrorKind) -> (result: NsResult)
    ensures
        result == io_result(kind),
{
    match kind {
        IoErrorKind::ConnectionRefused => NsResult::NS_ERROR_CONNECTION_REFUSED,
        IoErrorKind::ConnectionReset => NsResult::NS_ERROR_NET_RESET,
        IoErrorKind::AddrNotAvailable => NsResult::NS_ERROR_CONNECTION_REFUSED,
        IoErrorKind::ConnectionAborted => NsResult::NS_ERROR_NET_RESET,
        IoErrorKind::NotConnected => NsResult::NS_ERROR_NOT_CONNECTED,
        IoErrorKind::AddrInUse => NsResult::NS_ERROR_SOCKET_ADDRESS_IN_USE,
        IoErrorKind::AlreadyExists => NsResult::NS_ERROR_FILE_ALREADY_EXISTS,
        IoErrorKind::WouldBlock => NsResult::NS_BASE_STREAM_WOULD_BLOCK,
        IoErrorKind::TimedOut => NsResult::NS_ERROR_NET_TIMEOUT,
        IoErrorKind::Interrupted => NsResult::NS_ERROR_NET_INTERRUPT,
        IoErrorKind::UnexpectedEof => NsResult::NS_ERROR_NET_INTERRUPT,
        IoErrorKind::OutOfMemory => NsResult::NS_ERROR_OUT_OF_MEMORY,
        IoErrorKind::Other => NsResult::NS_ERROR_NET_RESET,
    }
}

/// An input or output error is never told as a success.
pub proof fn law_io_errors_are_errors(kind: IoErrorKind)
    ensures
        io_result(kind) != NsResult::NS_OK,
{
}

/// A number of bytes, cut off where `u32` ends.
pub open spec fn capped(n: nat) -> u32 {
    if n <= u32::MAX {
        n as u32
    } else {
        u32::MAX
    }
}

pub fn cap(n: usize) -> (m: u32)
    ensures
        m == capped(n as nat),
{
    if n as u64 <= u32::MAX as u64 {
        n as u32
    } else {
        u32::MAX
    }
}

/// What the embedder is told once all that could be read was read.
#[derive(Clone, Copy, Debug, PartialEq, Eq, Structural)]
pub struct ProcessInputResult {
    pub result: NsResult,
    pub bytes_read: u32,
}

/// The total of a list of sizes.
pub open spec fn total(sizes: Seq<usize>) -> nat
    decreases sizes.len(),
{
    if sizes.len() == 0 {
        0
    } else {
        total(sizes.drop_last()) + sizes.last() as nat
    }
}

pub proof fn lemma_total_grows(sizes: Seq<usize>, k: int)
    requires
        0 <= k <= sizes.len(),
    ensures
        total(sizes.take(k)) <= total(sizes),
    decreases sizes.len(),
{
    if k < sizes.len() {
        assert(sizes.drop_last().take(k) =~= sizes.take(k));
        lemma_total_grows(sizes.drop_last(), k);
    } else {
        assert(sizes.take(k) =~= sizes);
    }
}

/// What a step of reading leads to.
#[derive(Debug)]
pub enum InputStep {
    /// The datagrams are for the connection, with their marks where they are reported; then more
    /// is to be read. The numbers are recorded: the size of each datagram, the size of all, and
    /// how many there are.
    Process { keep_marks: bool, segment_sizes: Vec<u64>, size: u64, segments: u64 },
    /// Reading is over.
    Finished(ProcessInputResult),
}

/// Reading, and how many bytes were read.
#[derive(Debug)]
pub struct InputLoop {
    bytes_read: usize,
}

impl InputLoop {
    /// How many bytes were read.
    pub closed spec fn bytes_read(&self) -> usize {
        self.bytes_read
    }

    pub fn new() -> (input: Self)
        ensures
            input.bytes_read() == 0,
    {
        InputLoop { bytes_read: 0 }
    }

    /// Whether datagrams of these sizes can be counted.
    pub fn can_count(&self, sizes: &Vec<usize>) -> (can: bool)
        ensures
            can == (self.bytes_read() + total(sizes@) <= usize::MAX),
    {
        let mut sum: usize = self.bytes_read;
        let mut i: usize = 0;
        assert(sizes@.take(0) =~= Seq::<usize>::empty());
        while i < sizes.len()
            invariant
                i <= sizes@.len(),
                sum == self.bytes_read() + total(sizes@.take(i as int)),
            decreases sizes@.len() - i,
        {
            proof {
                assert(sizes@.take(i + 1).drop_last() =~= sizes@.take(i as int));
                lemma_total_grows(sizes@, i + 1);
            }
            match sum.checked_add(sizes[i]) {
                Some(more) => {
                    sum = more;
                },
                None => {
                    return false;
                },
            }
            i += 1;
        }
        assert(sizes@.take(i as int) =~= sizes@);
        true
    }

    /// Takes in what the socket gave: the sizes of datagrams, or an error. Where the socket is
    /// not ready, reading is over.
    pub fn received(
        &mut self,
        received: Result<Vec<usize>, IoErrorKind>,
        ecn_enabled: bool,
        counter: &mut WouldBlockCounter,
    ) -> (step: InputStep)
        requires
            received matches Ok(sizes) ==> old(self).bytes_read() + total(sizes@) <= usize::MAX,
            received == Err::<Vec<usize>, IoErrorKind>(IoErrorKind::WouldBlock) ==> old(
                counter,
            ).rx() < usize::MAX,
        ensures
            final(counter).counts() == counted(
                old(counter).counts(),
                SocketEvent::Read(
                    match received {
                        Ok(_) => None,
                        Err(kind) => Some(kind),
                    },
                ),
            ),
            match received {
                Ok(sizes) => {
                    &&& final(self).bytes_read() == old(self).bytes_read() + total(sizes@)
                    &&& step matches InputStep::Process {
                        keep_marks,
                        segment_sizes,
                        size,
                        segments,
                    } && keep_marks == ecn_enabled && segment_sizes@ == sizes@.map_values(
                        |n: usize| n as u64,
                    ) && size == total(sizes@) && segments == sizes@.len()
                },
                Err(kind) => {
                    &&& final(self).bytes_read() == old(self).bytes_read()
                    &&& step == InputStep::Finished(
                        if kind == IoErrorKind::WouldBlock {
                            ProcessInputResult {
                                result: NsResult::NS_OK,
                                bytes_read: capped(old(self).bytes_read() as nat),
                            }
                        } else {
                            ProcessInputResult { result: io_result(kind), bytes_read: 0 }
                        },
                    )
                },
            },
    {
        match received {
            Ok(sizes) => {
                let mut segment_sizes: Vec<u64> = Vec::new();
                let mut sum: usize = 0;
                let mut i: usize = 0;
                proof {
                    assert(sizes@.take(0) =~= Seq::<usize>::empty());
                    assert(segment_sizes@ =~= sizes@.take(0).map_values(|n: usize| n as u64));
                }
                while i < sizes.len()
                    invariant
                        i <= sizes@.len(),
                        sum == total(sizes@.take(i as int)),
                        total(sizes@) <= usize::MAX,
                        segment_sizes@ == sizes@.take(i as int).map_values(|n: usize| n as u64),
                    decreases sizes@.len() - i,
                {
                    proof {
                        assert(sizes@.take(i + 1).drop_last() =~= sizes@.take(i as int));
                        lemma_total_grows(sizes@, i + 1);
                    }
                    let n: usize = sizes[i];
                    sum = sum + n;
                    segment_sizes.push(n as u64);
                    assert(segment_sizes@ =~= sizes@.take(i + 1).map_values(|n: usize| n as u64));
                    i += 1;
                }
                assert(sizes@.take(i as int) =~= sizes@);
                self.bytes_read = self.bytes_read + sum;
                InputStep::Process {
                    keep_marks: ecn_enabled,
                    segment_sizes,
                    size: sum as u64,
                    segments: sizes.len() as u64,
                }
            },
            Err(kind) => {
                if kind == IoErrorKind::WouldBlock {
                    counter.increment_rx();
                    InputStep::Finished(
                        ProcessInputResult {
                            result: NsResult::NS_OK,
                            bytes_read: cap(self.bytes_read),
                        },
                    )
                } else {
                    InputStep::Finished(
                        ProcessInputResult { result: into_nsresult(kind), bytes_read: 0 },
                    )
                }
            },
        }
    }
}

/// What the embedder is told once all that could be written was written.
#[derive(Clone, Copy, Debug, PartialEq, Eq, Structural)]
pub struct ProcessOutputAndSendResult {
    pub result: NsResult,
    pub bytes_written: u32,
}

/// The preferences on which writing depends.
#[derive(Clone, Copy, Debug, PartialEq, Eq, Structural)]
pub struct OutputPreferences {
    pub max_gso_segments: u32,
    pub ecn_mark: bool,
    pub block_loopback_ipv6_addr: bool,
    pub pr_poll_write: bool,
}

/// How many segments a batch may hold: what the preference and the socket both allow. Zero is
/// no such number.
pub fn gso_segments(preference: u32, socket: usize) -> (segments: Result<
    usize,
    ProcessOutputAndSendResult,
>)
    ensures
        ({
            let least: int = if (preference as int) < socket {
                preference as int
            } else {
                socket as int
            };
            if least == 0 {
                segments == Err::<usize, ProcessOutputAndSendResult>(
                    ProcessOutputAndSendResult {
                        result: NsResult::NS_ERROR_UNEXPECTED,
                        bytes_written: 0,
                    },
                )
            } else {
                segments == Ok::<usize, ProcessOutputAndSendResult>(least as usize)
            }
        }),
{
    let least: usize = if (preference as usize) < socket {
        preference as usize
    } else {
        socket
    };
    if least == 0 {
        Err(
            ProcessOutputAndSendResult {
                result: NsResult::NS_ERROR_UNEXPECTED,
                bytes_written: 0,
            },
        )
    } else {
        Ok(least)
    }
}

/// The number of milliseconds after which the connection is to be looked at again. A time of
/// zero is rounded up to a millisecond.
pub open spec fn timer_millis(nanos: u128) -> Option<u64> {
    let millis: int = if nanos == 0 {
        1
    } else {
        (nanos / 1_000_000) as int
    };
    if millis <= u64::MAX {
        Some(millis as u64)
    } else {
        None
    }
}

/// The number of milliseconds after which the connection is to be looked at again.
pub fn callback_timeout(nanos: u128) -> (millis: Option<u64>)
    ensures
        millis == timer_millis(nanos),
{
    let millis: u128 = if nanos == 0 {
        1
    } else {
        nanos / 1_000_000
    };
    if millis <= u64::MAX as u128 {
        Some(millis as u64)
    } else {
        None
    }
}

/// A batch of datagrams of one size, but for the last, to one destination.
#[derive(Clone, Copy, Debug)]
pub struct Batch {
    pub destination: IpAddress,
    pub len: usize,
    pub datagram_size: usize,
    pub num_datagrams: usize,
}

impl Batch {
    /// A datagram has a size.
    pub open spec fn wf(&self) -> bool {
        self.datagram_size > 0
    }
}

/// What happened when a batch was sent.
#[derive(Clone, Copy, Debug, PartialEq, Eq, Structural)]
pub enum SendOutcome {
    Sent,
    /// The socket failed; `eio` tells whether the system reported a general input/output error.
    Failed { kind: IoErrorKind, eio: bool },
}

impl SendOutcome {
    /// Whether the socket was not ready.
    pub open spec fn blocks(self) -> bool {
        self matches SendOutcome::Failed { kind, .. } && kind == IoErrorKind::WouldBlock
    }
}

/// What is recorded of a batch that was sent.
#[derive(Debug)]
pub struct SentRecords {
    pub size: u64,
    pub segments: u64,
    pub segment_sizes: Vec<u64>,
}

/// The sizes of the segments that a batch is recorded with: one for each whole datagram, and
/// one for what is left, though it be zero.
pub open spec fn segment_sizes(len: usize, datagram_size: usize) -> Seq<u64> {
    Seq::new((len / datagram_size) as nat, |i: int| datagram_size as u64).push(
        (len % datagram_size) as u64,
    )
}

/// What a step of writing leads to.
#[derive(Debug)]
pub enum OutputStep {
    /// The batch counts as sent; more is to be written.
    Continue(SentRecords),
    /// The batch is to be kept and sent once the socket is ready, and writing is over.
    Keep(ProcessOutputAndSendResult),
    /// Writing is over.
    Finished(ProcessOutputAndSendResult),
    /// The timer is to be set, and writing is over.
    SetTimer(u64, ProcessOutputAndSendResult),
}

/// The contents of an [`OutputStep`].
#[verifier::ext_equal]
pub enum OutputStepView {
    Continue { size: u64, segments: u64, segment_sizes: Seq<u64> },
    Keep(ProcessOutputAndSendResult),
    Finished(ProcessOutputAndSendResult),
    SetTimer(u64, ProcessOutputAndSendResult),
}

impl View for OutputStep {
    type V = OutputStepView;

    open spec fn view(&self) -> OutputStepView {
        match *self {
            OutputStep::Continue(records) => OutputStepView::Continue {
                size: records.size,
                segments: records.segments,
                segment_sizes: records.segment_sizes@,
            },
            OutputStep::Keep(result) => OutputStepView::Keep(result),
            OutputStep::Finished(result) => OutputStepView::Finished(result),
            OutputStep::SetTimer(millis, result) => OutputStepView::SetTimer(millis, result),
        }
    }
}

/// Whether a batch counts as sent: it was, or the system refused a batch of several datagrams as
/// a whole, in which case the transport will send it again in smaller ones.
pub open spec fn counts_as_sent(batch: Batch, outcome: SendOutcome) -> bool {
    match outcome {
        SendOutcome::Sent => true,
        SendOutcome::Failed { kind, eio } => kind != IoErrorKind::WouldBlock && eio
            && batch.num_datagrams > 1,
    }
}

/// How many bytes were written, over a list of batches.
pub open spec fn bytes_after(sends: Seq<(Batch, SendOutcome)>) -> nat
    decreases sends.len(),
{
    if sends.len() == 0 {
        0
    } else {
        bytes_after(sends.drop_last()) + if counts_as_sent(sends.last().0, sends.last().1) {
            sends.last().0.len as nat
        } else {
            0
        }
    }
}

/// What is done after a batch, where `written` bytes were written before it. One for which the
/// socket was not ready is kept where the embedder waits for the socket, and given up otherwise.
pub open spec fn after_send(
    written: nat,
    batch: Batch,
    outcome: SendOutcome,
    prefs: OutputPreferences,
) -> OutputStepView {
    if counts_as_sent(batch, outcome) {
        OutputStepView::Continue {
            size: batch.len as u64,
            segments: batch.num_datagrams as u64,
            segment_sizes: segment_sizes(batch.len, batch.datagram_size),
        }
    } else if outcome.blocks() && prefs.pr_poll_write {
        OutputStepView::Keep(
            ProcessOutputAndSendResult {
                result: NsResult::NS_BASE_STREAM_WOULD_BLOCK,
                bytes_written: capped(written),
            },
        )
    } else if outcome.blocks() {
        OutputStepView::Finished(
            ProcessOutputAndSendResult { result: NsResult::NS_OK, bytes_written: capped(written) },
        )
    } else {
        OutputStepView::Finished(
            ProcessOutputAndSendResult {
                result: io_result(outcome->kind),
                bytes_written: 0,
            },
        )
    }
}

/// Where the next batch comes from.
#[derive(Debug)]
pub enum NextOutput<D> {
    /// This one was kept and is to be sent.
    Send(D),
    /// The connection is to be asked.
    Ask,
}

/// Where the next batch comes from: what was kept goes first.
pub open spec fn next_output<D>(kept: Option<D>) -> NextOutput<D> {
    match kept {
        Some(batch) => NextOutput::Send(batch),
        None => NextOutput::Ask,
    }
}

/// What is kept once a step was taken for a batch.
pub open spec fn kept_after<D>(kept: Option<D>, step: OutputStepView, batch: D) -> Option<D> {
    if step is Keep {
        Some(batch)
    } else {
        kept
    }
}

/// The batch for which the socket was not ready, if any, from one time of writing to the next.
#[derive(Debug)]
pub struct Outbox<D> {
    kept: Option<D>,
}

impl<D> Outbox<D> {
    pub closed spec fn kept(&self) -> Option<D> {
        self.kept
    }

    pub fn new() -> (outbox: Self)
        ensures
            outbox.kept() is None,
    {
        Outbox { kept: None }
    }

    /// Where the next batch comes from. What was kept is handed out, and not kept any more.
    pub fn next(&mut self) -> (next: NextOutput<D>)
        ensures
            next == next_output(old(self).kept()),
            final(self).kept() is None,
    {
        match self.kept.take() {
            Some(batch) => NextOutput::Send(batch),
            None => NextOutput::Ask,
        }
    }

    /// Keeps a batch where the step that was taken for it says so.
    pub fn settle(&mut self, step: &OutputStep, batch: D)
        ensures
            final(self).kept() == kept_after(old(self).kept(), step@, batch),
    {
        match step {
            OutputStep::Keep(_) => {
                self.kept = Some(batch);
            },
            _ => {},
        }
    }
}

/// Where the embedder waits for the socket, a batch for which the socket was not ready is not
/// lost. It is counted that the socket was not ready, the embedder is told so and how much was
/// written before, no timer is set, and when writing begins again the batch goes before anything
/// that the connection is asked for.
pub proof fn law_kept_batch_goes_first<D>(
    sends: Seq<(Batch, SendOutcome)>,
    counts: BlockCounts,
    batch: Batch,
    eio: bool,
    prefs: OutputPreferences,
    kept: Option<D>,
    data: D,
)
    requires
        prefs.pr_poll_write,
    ensures
        ({
            let blocked = SendOutcome::Failed { kind: IoErrorKind::WouldBlock, eio };
            let step = after_send(bytes_after(sends), batch, blocked, prefs);
            &&& step == OutputStepView::Keep(
                ProcessOutputAndSendResult {
                    result: NsResult::NS_BASE_STREAM_WOULD_BLOCK,
                    bytes_written: if bytes_after(sends) <= u32::MAX {
                        bytes_after(sends) as u32
                    } else {
                        u32::MAX
                    },
                },
            )
            &&& counted(counts, SocketEvent::Written(blocked)) == (BlockCounts {
                tx: counts.tx + 1,
                ..counts
            })
            &&& next_output(kept_after(kept, step, data)) == NextOutput::Send(data)
        }),
{
}

/// What the connection wants besides a batch.
#[derive(Clone, Copy, Debug, PartialEq, Eq, Structural)]
pub enum Pause {
    /// To be looked at again after this number of nanoseconds.
    Callback(u128),
    /// Nothing.
    Nothing,
}

/// Writing, and how many bytes were written.
#[derive(Debug)]
pub struct OutputLoop {
    bytes_written: usize,
}

impl OutputLoop {
    /// How many bytes were written.
    pub closed spec fn bytes_written(&self) -> usize {
        self.bytes_written
    }

    pub fn new() -> (output: Self)
        ensures
            output.bytes_written() == 0,
    {
        OutputLoop { bytes_written: 0 }
    }

    /// The result after everything was written.
    pub open spec fn success(&self) -> ProcessOutputAndSendResult {
        ProcessOutputAndSendResult {
            result: NsResult::NS_OK,
            bytes_written: capped(self.bytes_written() as nat),
        }
    }

    fn done(&self, result: NsResult) -> (done: ProcessOutputAndSendResult)
        ensures
            done == (ProcessOutputAndSendResult {
                result,
                bytes_written: capped(self.bytes_written() as nat),
            }),
    {
        ProcessOutputAndSendResult { result, bytes_written: cap(self.bytes_written) }
    }

    /// Whether a batch may be sent to its destination, and if so, whether with its marks. Where
    /// it may not, writing is over.
    pub fn prepare(&self, batch: &Batch, prefs: &OutputPreferences) -> (keep_marks: Result<
        bool,
        ProcessOutputAndSendResult,
    >)
        ensures
            keep_marks == (if prefs.block_loopback_ipv6_addr && is_ipv6_loopback(
                batch.destination,
            ) {
                Err::<bool, ProcessOutputAndSendResult>(
                    ProcessOutputAndSendResult {
                        result: NsResult::NS_ERROR_CONNECTION_REFUSED,
                        bytes_written: 0,
                    },
                )
            } else {
                Ok::<bool, ProcessOutputAndSendResult>(prefs.ecn_mark)
            }),
    {
        if prefs.block_loopback_ipv6_addr && ipv6_loopback(&batch.destination) {
            Err(
                ProcessOutputAndSendResult {
                    result: NsResult::NS_ERROR_CONNECTION_REFUSED,
                    bytes_written: 0,
                },
            )
        } else {
            Ok(prefs.ecn_mark)
        }
    }

    /// What is recorded of a batch.
    fn records(batch: &Batch) -> (records: SentRecords)
        requires
            batch.wf(),
        ensures
            records.size == batch.len,
            records.segments == batch.num_datagrams,
            records.segment_sizes@ == segment_sizes(batch.len, batch.datagram_size),
    {
        let whole: usize = batch.len / batch.datagram_size;
        let mut sizes: Vec<u64> = Vec::new();
        let mut i: usize = 0;
        while i < whole
            invariant
                i <= whole,
                sizes@ == Seq::new(i as nat, |j: int| batch.datagram_size as u64),
            decreases whole - i,
        {
            sizes.push(batch.datagram_size as u64);
            i += 1;
            assert(sizes@ =~= Seq::new(i as nat, |j: int| batch.datagram_size as u64));
        }
        sizes.push((batch.len % batch.datagram_size) as u64);
        SentRecords {
            size: batch.len as u64,
            segments: batch.num_datagrams as u64,
            segment_sizes: sizes,
        }
    }

    /// Whether a batch can be counted.
    pub fn can_count(&self, batch: &Batch) -> (can: bool)
        ensures
            can == (self.bytes_written() + batch.len <= usize::MAX),
    {
        self.bytes_written.checked_add(batch.len).is_some()
    }

    /// Takes in what happened to a batch.
    pub fn sent(
        &mut self,
        batch: &Batch,
        outcome: SendOutcome,
        prefs: &OutputPreferences,
        counter: &mut WouldBlockCounter,
    ) -> (step: OutputStep)
        requires
            batch.wf(),
            counts_as_sent(*batch, outcome) ==> old(self).bytes_written() + batch.len
                <= usize::MAX,
            outcome.blocks() ==> old(counter).tx() < usize::MAX,
        ensures
            final(counter).counts() == counted(
                old(counter).counts(),
                SocketEvent::Written(outcome),
            ),
            final(self).bytes_written() == old(self).bytes_written() + if counts_as_sent(
                *batch,
                outcome,
            ) {
                batch.len as int
            } else {
                0
            },
            step@ == after_send(old(self).bytes_written() as nat, *batch, outcome, *prefs),
    {
        match outcome {
            SendOutcome::Sent => {},
            SendOutcome::Failed { kind, eio } => {
                if kind == IoErrorKind::WouldBlock {
                    counter.increment_tx();
                    if prefs.pr_poll_write {
                        return OutputStep::Keep(self.done(NsResult::NS_BASE_STREAM_WOULD_BLOCK));
                    } else {
                        return OutputStep::Finished(self.done(NsResult::NS_OK));
                    }
                }
                if !(eio && batch.num_datagrams > 1) {
                    return OutputStep::Finished(
                        ProcessOutputAndSendResult {
                            result: into_nsresult(kind),
                            bytes_written: 0,
                        },
                    );
                }
            },
        }
        self.bytes_written = self.bytes_written + batch.len;
        OutputStep::Continue(Self::records(batch))
    }

    /// Takes in that the connection has no batch.
    pub fn paused(&self, pause: Pause) -> (step: OutputStep)
        ensures
            step == (match pause {
                Pause::Callback(nanos) => match timer_millis(nanos) {
                    Some(millis) => OutputStep::SetTimer(millis, self.success()),
                    None => OutputStep::Finished(
                        ProcessOutputAndSendResult {
                            result: NsResult::NS_ERROR_UNEXPECTED,
                            bytes_written: 0,
                        },
                    ),
                },
                Pause::Nothing => OutputStep::SetTimer(u64::MAX, self.success()),
            }),
    {
        match pause {
            Pause::Callback(nanos) => match callback_timeout(nanos) {
                Some(millis) => OutputStep::SetTimer(millis, self.done(NsResult::NS_OK)),
                None => OutputStep::Finished(
                    ProcessOutputAndSendResult {
                        result: NsResult::NS_ERROR_UNEXPECTED,
                        bytes_written: 0,
                    },
                ),
            },
            Pause::Nothing => OutputStep::SetTimer(u64::MAX, self.done(NsResult::NS_OK)),
        }
    }
}

/// The segments that a batch is recorded with have together the length of the batch.
pub proof fn law_segments_add_up(len: usize, datagram_size: usize)
    requires
        datagram_size > 0,
    ensures
        sum(segment_sizes(len, datagram_size)) == len,
{
    let whole = Seq::new((len / datagram_size) as nat, |i: int| datagram_size as u64);
    lemma_sum_repeated((len / datagram_size) as nat, datagram_size as u64);
    assert(segment_sizes(len, datagram_size).drop_last() =~= whole);
    assert(len == (len / datagram_size) * datagram_size + len % datagram_size)
        by (nonlinear_arith)
        requires
            datagram_size > 0,
    ;
}

/// The sum of a list of numbers.
pub open spec fn sum(values: Seq<u64>) -> nat
    decreases values.len(),
{
    if values.len() == 0 {
        0
    } else {
        sum(values.drop_last()) + values.last() as nat
    }
}

proof fn lemma_sum_repeated(n: nat, value: u64)
    ensures
        sum(Seq::new(n, |i: int| value)) == n * value,
    decreases n,
{
    if n > 0 {
        let m = (n - 1) as nat;
        lemma_sum_repeated(m, value);
        assert(Seq::new(n, |i: int| value).drop_last() =~= Seq::new(m, |i: int| value));
        assert(n * value == m * value + value) by (nonlinear_arith)
            requires
                n == m + 1,
        ;
    } else {
        assert(Seq::new(0, |i: int| value) =~= Seq::<u64>::empty());
    }
}

/// What a step of writing through the embedder's own sockets leads to.
#[derive(Clone, Copy, Debug, PartialEq, Eq, Structural)]
pub enum NsprStep {
    /// The datagram was sent; more is to be written.
    Continue,
    /// Writing is over.
    Finished(NsResult),
    /// The timer is to be set, and writing is over.
    SetTimer(u64),
}

/// The length of a datagram as the embedder's sockets take it.
pub fn nspr_len(len: usize) -> (n: Result<u32, NsResult>)
    ensures
        n == (if len <= u32::MAX {
            Ok::<u32, NsResult>(len as u32)
        } else {
            Err::<u32, NsResult>(NsResult::NS_ERROR_UNEXPECTED)
        }),
{
    if len as u64 <= u32::MAX as u64 {
        Ok(len as u32)
    } else {
        Err(NsResult::NS_ERROR_UNEXPECTED)
    }
}

/// Takes in what the embedder's socket said of a datagram.
pub fn nspr_sent(result: NsResult) -> (step: NsprStep)
    ensures
        step == (if result == NsResult::NS_OK {
            NsprStep::Continue
        } else {
            NsprStep::Finished(result)
        }),
{
    if result != NsResult::NS_OK {
        NsprStep::Finished(result)
    } else {
        NsprStep::Continue
    }
}

/// Takes in that the connection has no datagram.
pub fn nspr_paused(pause: Pause) -> (step: NsprStep)
    ensures
        step == (match pause {
            Pause::Callback(nanos) => match timer_millis(nanos) {
                Some(millis) => NsprStep::SetTimer(millis),
                None => NsprStep::Finished(NsResult::NS_ERROR_UNEXPECTED),
            },
            Pause::Nothing => NsprStep::SetTimer(u64::MAX),
        }),
{
    match pause {
        Pause::Callback(nanos) => match callback_timeout(nanos) {
            Some(millis) => NsprStep::SetTimer(millis),
            None => NsprStep::Finished(NsResult::NS_ERROR_UNEXPECTED),
        },
        Pause::Nothing => NsprStep::SetTimer(u64::MAX),
    }
}

/// What the embedder is told of each kind of error. A refusal stands also for an address that is
/// not available, an interruption for an end that came too early, and a reset for whatever has no
/// result of its own.
pub proof fn law_io_errors_are_told(kind: IoErrorKind, result: NsResult)
    requires
        call_ensures(into_nsresult, (kind,), result),
    ensures
        result == NsResult::NS_ERROR_CONNECTION_REFUSED <==> kind is ConnectionRefused || kind
            is AddrNotAvailable,
        result == NsResult::NS_ERROR_NET_RESET <==> kind is ConnectionReset || kind
            is ConnectionAborted || kind is Other,
        result == NsResult::NS_ERROR_NOT_CONNECTED <==> kind is NotConnected,
        result == NsResult::NS_ERROR_SOCKET_ADDRESS_IN_USE <==> kind is AddrInUse,
        result == NsResult::NS_ERROR_FILE_ALREADY_EXISTS <==> kind is AlreadyExists,
        result == NsResult::NS_BASE_STREAM_WOULD_BLOCK <==> kind is WouldBlock,
        result == NsResult::NS_ERROR_NET_TIMEOUT <==> kind is TimedOut,
        result == NsResult::NS_ERROR_NET_INTERRUPT <==> kind is Interrupted || kind
            is UnexpectedEof,
        result == NsResult::NS_ERROR_OUT_OF_MEMORY <==> kind is OutOfMemory,
{
}

/// The total of no sizes is nothing, and each further size adds to it.
pub proof fn law_total(sizes: Seq<usize>, size: usize)
    ensures
        total(Seq::empty()) == 0,
        total(sizes.push(size)) == total(sizes) + size,
{
    assert(sizes.push(size).drop_last() =~= sizes);
}

/// Datagrams that were read are for the connection, all of them and each with its size, and are
/// added to what was read. Where the socket is not ready, reading ends well with what was read in
/// all; any other error is told, and then nothing counts as read.
pub proof fn law_input(
    input: &mut InputLoop,
    received: Result<Vec<usize>, IoErrorKind>,
    ecn_enabled: bool,
    counter: &mut WouldBlockCounter,
    step: InputStep,
)
    requires
        received matches Ok(sizes) ==> old(input).bytes_read() + total(sizes@) <= usize::MAX,
        received == Err::<Vec<usize>, IoErrorKind>(IoErrorKind::WouldBlock) ==> old(counter).rx()
            < usize::MAX,
        call_ensures(InputLoop::received, (input, received, ecn_enabled, counter), step),
    ensures
        step is Process <==> received is Ok,
        received matches Ok(sizes) ==> {
            &&& step->keep_marks <==> ecn_enabled
            &&& step->segment_sizes@.len() == sizes@.len() && step->segments == sizes@.len()
            &&& forall|i: int|
                0 <= i < sizes@.len() ==> #[trigger] step->segment_sizes@[i] == sizes@[i]
            &&& step->size == total(sizes@)
            &&& final(input).bytes_read() == old(input).bytes_read() + total(sizes@)
            &&& final(counter).rx() == old(counter).rx()
        },
        received matches Err(kind) ==> {
            &&& final(input).bytes_read() == old(input).bytes_read()
            &&& kind is WouldBlock <==> step->Finished_0.result == NsResult::NS_OK
            &&& kind is WouldBlock ==> final(counter).rx() == old(counter).rx() + 1
                && step->Finished_0.bytes_read == (if old(input).bytes_read() <= 0xffff_ffff {
                old(input).bytes_read() as int
            } else {
                0xffff_ffff
            })
            &&& kind !is WouldBlock ==> final(counter).rx() == old(counter).rx()
                && step->Finished_0.result == io_result(kind) && step->Finished_0.bytes_read == 0
        },
        final(counter).tx() == old(counter).tx(),
{
}

/// Reading and writing begin with nothing read or written and nothing counted, and whether a
/// further amount can be counted is whether the sum fits.
pub proof fn law_loops_begin(
    input: InputLoop,
    output: OutputLoop,
    counter: WouldBlockCounter,
    sizes: Vec<usize>,
    batch: Batch,
    can_read: bool,
    can_write: bool,
    rx: usize,
    tx: usize,
    fresh_input: InputLoop,
    fresh_output: OutputLoop,
    fresh_counter: WouldBlockCounter,
)
    requires
        call_ensures(InputLoop::new, (), fresh_input),
        call_ensures(OutputLoop::new, (), fresh_output),
        call_ensures(WouldBlockCounter::new, (), fresh_counter),
        call_ensures(InputLoop::can_count, (&input, &sizes), can_read),
        call_ensures(OutputLoop::can_count, (&output, &batch), can_write),
        call_ensures(WouldBlockCounter::rx_count, (&counter,), rx),
        call_ensures(WouldBlockCounter::tx_count, (&counter,), tx),
    ensures
        fresh_input.bytes_read() == 0 && fresh_output.bytes_written() == 0,
        fresh_counter.rx() == 0 && fresh_counter.tx() == 0,
        can_read <==> input.bytes_read() + total(sizes@) <= usize::MAX,
        can_write <==> output.bytes_written() + batch.len <= usize::MAX,
        rx == counter.rx() && tx == counter.tx(),
{
}

/// A batch holds as many segments as both the preference and the socket allow, and at least one.
pub proof fn law_segments_of_a_batch(
    preference: u32,
    socket: usize,
    segments: Result<usize, ProcessOutputAndSendResult>,
)
    requires
        call_ensures(gso_segments, (preference, socket), segments),
    ensures
        segments is Err <==> preference == 0 || socket == 0,
        segments matches Ok(n) ==> 0 < n && n <= preference && n <= socket && (n == preference || n
            == socket),
        segments matches Err(r) ==> r.result == NsResult::NS_ERROR_UNEXPECTED && r.bytes_written
            == 0,
{
}

/// A time is told in whole milliseconds, rounded down, but one at once is a millisecond ahead.
pub proof fn law_timer(nanos: u128, millis: Option<u64>)
    requires
        call_ensures(callback_timeout, (nanos,), millis),
    ensures
        nanos == 0 ==> millis == Some(1u64),
        nanos > 0 ==> (millis matches Some(ms) ==> ms * 1_000_000 <= nanos < (ms + 1) * 1_000_000),
        millis is None <==> nanos >= 0x1_0000_0000_0000_0000 * 1_000_000,
{
}

/// A batch is sent with its marks where these are wanted, but not to the loopback address of IPv6
/// where that is blocked.
pub proof fn law_destinations(
    output: OutputLoop,
    batch: Batch,
    prefs: OutputPreferences,
    keep_marks: Result<bool, ProcessOutputAndSendResult>,
)
    requires
        call_ensures(OutputLoop::prepare, (&output, &batch, &prefs), keep_marks),
    ensures
        keep_marks is Err <==> prefs.block_loopback_ipv6_addr && is_ipv6_loopback(
            batch.destination,
        ),
        keep_marks matches Ok(keep) ==> (keep <==> prefs.ecn_mark),
        keep_marks matches Err(r) ==> r.result == NsResult::NS_ERROR_CONNECTION_REFUSED
            && r.bytes_written == 0,
{
}

/// A batch that was sent counts with its length, its datagrams and the size of each, and so does
/// one of several datagrams that the system refused as a whole. Where the socket is not ready,
/// what was written before is told, and the batch is kept where the embedder waits; any other
/// failure is told, and then nothing counts as written.
pub proof fn law_output(
    output: &mut OutputLoop,
    batch: Batch,
    outcome: SendOutcome,
    prefs: OutputPreferences,
    counter: &mut WouldBlockCounter,
    step: OutputStep,
)
    requires
        batch.wf(),
        counts_as_sent(batch, outcome) ==> old(output).bytes_written() + batch.len <= usize::MAX,
        outcome.blocks() ==> old(counter).tx() < usize::MAX,
        call_ensures(OutputLoop::sent, (output, &batch, outcome, &prefs, counter), step),
    ensures
        ({
            let blocked = outcome matches SendOutcome::Failed { kind, .. } && kind is WouldBlock;
            let refused = outcome matches SendOutcome::Failed { kind, eio } && eio && kind
                !is WouldBlock && batch.num_datagrams >= 2;
            let before = if old(output).bytes_written() <= 0xffff_ffff {
                old(output).bytes_written() as int
            } else {
                0xffff_ffff
            };
            &&& step is Continue <==> outcome is Sent || refused
            &&& step is Keep <==> blocked && prefs.pr_poll_write
            &&& step !is SetTimer
            &&& final(counter).tx() == old(counter).tx() + (if blocked {
                1int
            } else {
                0
            })
            &&& final(counter).rx() == old(counter).rx()
            &&& final(output).bytes_written() == old(output).bytes_written() + (if step
                is Continue {
                batch.len as int
            } else {
                0
            })
            &&& step matches OutputStep::Continue(records) ==> {
                &&& records.size == batch.len && records.segments == batch.num_datagrams
                &&& records.segment_sizes@.len() == batch.len / batch.datagram_size + 1
                &&& records.segment_sizes@.last() == batch.len % batch.datagram_size
                &&& forall|i: int|
                    0 <= i < batch.len / batch.datagram_size
                        ==> #[trigger] records.segment_sizes@[i] == batch.datagram_size
            }
            &&& step matches OutputStep::Keep(told) ==> told.result
                == NsResult::NS_BASE_STREAM_WOULD_BLOCK && told.bytes_written == before
            &&& step matches OutputStep::Finished(told) ==> if blocked {
                told.result == NsResult::NS_OK && told.bytes_written == before
            } else {
                told.result == io_result(outcome->kind) && told.bytes_written == 0
            }
        }),
{
}

/// Where the connection has nothing to send, the timer is set to when it wants to be looked at
/// again, and as far off as can be where it does not want to be; what was written is told.
pub proof fn law_pauses(output: OutputLoop, pause: Pause, step: OutputStep, nspr: NsprStep)
    requires
        call_ensures(OutputLoop::paused, (&output, pause), step),
        call_ensures(nspr_paused, (pause,), nspr),
    ensures
        pause is Nothing ==> step is SetTimer && step->SetTimer_0 == 0xffff_ffff_ffff_ffff
            && nspr == NsprStep::SetTimer(0xffff_ffff_ffff_ffff),
        pause matches Pause::Callback(nanos) ==> match timer_millis(nanos) {
            Some(ms) => step is SetTimer && step->SetTimer_0 == ms && nspr == NsprStep::SetTimer(
                ms,
            ),
            None => step == OutputStep::Finished(
                ProcessOutputAndSendResult {
                    result: NsResult::NS_ERROR_UNEXPECTED,
                    bytes_written: 0,
                },
            ) && nspr == NsprStep::Finished(NsResult::NS_ERROR_UNEXPECTED),
        },
        step is SetTimer ==> step->SetTimer_1.result == NsResult::NS_OK
            && step->SetTimer_1.bytes_written == (if output.bytes_written() <= 0xffff_ffff {
            output.bytes_written() as int
        } else {
            0xffff_ffff
        }),
{
}

/// What was kept is handed out once, before anything that the connection is asked for, and only
/// a step that says so keeps a batch.
pub proof fn law_outbox<D>(
    outbox: &mut Outbox<D>,
    next: NextOutput<D>,
    other: &mut Outbox<D>,
    step: OutputStep,
    batch: D,
    fresh: Outbox<D>,
)
    requires
        call_ensures(Outbox::<D>::new, (), fresh),
        call_ensures(Outbox::<D>::next, (outbox,), next),
        call_ensures(Outbox::<D>::settle, (other, &step, batch), ()),
    ensures
        fresh.kept() is None,
        final(outbox).kept() is None,
        next is Ask <==> old(outbox).kept() is None,
        next matches NextOutput::Send(b) ==> old(outbox).kept() == Some(b),
        step is Keep ==> final(other).kept() == Some(batch),
        step !is Keep ==> final(other).kept() == old(other).kept(),
{
}

/// The embedder's own sockets take a length of 32 bits; what they say of a datagram other than
/// that it was sent ends writing.
pub proof fn law_embedder_sockets(
    len: usize,
    n: Result<u32, NsResult>,
    result: NsResult,
    step: NsprStep,
)
    requires
        call_ensures(nspr_len, (len,), n),
        call_ensures(nspr_sent, (result,), step),
    ensures
        n is Ok <==> len <= 0xffff_ffff,
        n matches Ok(m) ==> m == len,
        n matches Err(e) ==> e == NsResult::NS_ERROR_UNEXPECTED,
        step is Continue <==> result == NsResult::NS_OK,
        step matches NsprStep::Finished(told) ==> told == result,
        step !is SetTimer,
{
}

}
