//! Growing download buffer for streaming playback: the download side pushes
//! chunks, completes or fails; the decoder side reads and seeks within the
//! buffered bytes.
//!
//! Reading or seeking ahead of the downloaded data returns
//! `StreamError::Pending`; the caller waits for more data and retries.

use vstd::prelude::*;

verus! {

pub const KIB: usize = 1024;

pub const MIB: usize = 1024 * 1024;

/// Sizes of the streaming buffer.
#[derive(Debug, Clone, Copy, PartialEq, Eq, Structural)]
pub struct StreamingConfig {
    /// Bytes to buffer before reads are allowed (for format detection).
    pub initial_buffer_bytes: usize,
    /// Informational upper size of the buffer.
    pub max_buffer_bytes: usize,
}

impl Default for StreamingConfig {
    fn default() -> (r: Self)
        ensures
            r.initial_buffer_bytes == 512 * KIB,
            r.max_buffer_bytes == 100 * MIB,
    {
        StreamingConfig { initial_buffer_bytes: 512 * KIB, max_buffer_bytes: 100 * MIB }
    }
}

impl StreamingConfig {
    /// About 1 MiB per second of audio, at least 256 KiB.
    pub fn from_seconds(seconds: u8) -> (r: Self)
        ensures
            r.initial_buffer_bytes == (if seconds as int * MIB >= 256 * KIB {
                seconds as int * MIB
            } else {
                256 * KIB as int
            }),
            r.max_buffer_bytes == 100 * MIB,
    {
        assert((seconds as usize) * MIB <= 255 * MIB) by (nonlinear_arith)
            requires
                seconds <= 255;
        let bytes = (seconds as usize) * MIB;
        let bytes = if bytes >= 256 * KIB { bytes } else { 256 * KIB };
        StreamingConfig { initial_buffer_bytes: bytes, max_buffer_bytes: 100 * MIB }
    }

    /// The smallest buffer that still allows format detection.
    pub fn fast_start() -> (r: Self)
        ensures
            r.initial_buffer_bytes == 256 * KIB,
            r.max_buffer_bytes == 100 * MIB,
    {
        StreamingConfig { initial_buffer_bytes: 256 * KIB, max_buffer_bytes: 100 * MIB }
    }

    /// A speed-derived initial buffer size clamped to `cap`.
    pub fn from_initial_buffer_with_cap(raw_initial_buffer: usize, cap: usize) -> (r: Self)
        ensures
            r.initial_buffer_bytes == (if raw_initial_buffer <= cap { raw_initial_buffer } else { cap }),
            r.max_buffer_bytes == 100 * MIB,
    {
        let bytes = if raw_initial_buffer <= cap { raw_initial_buffer } else { cap };
        StreamingConfig { initial_buffer_bytes: bytes, max_buffer_bytes: 100 * MIB }
    }
}

/// Where a seek is measured from.
#[derive(Debug, Clone, Copy, PartialEq, Eq, Structural)]
pub enum SeekFrom {
    Start(u64),
    End(i64),
    Current(i64),
}

/// Why a read or seek did not complete.
#[derive(Debug)]
pub enum StreamError {
    /// The data is not downloaded yet: wait for more and retry.
    Pending,
    /// The download failed with this message.
    DownloadFailed(String),
    /// Seeking from the end while the size is unknown.
    UnknownEnd,
    /// The target lies before the start of the stream.
    BeforeStart,
    /// The target lies beyond the end of the completed stream.
    BeyondEnd,
}

/// Abstract state of a buffered source.
#[verifier::ext_equal]
pub struct BufferView {
    pub data: Seq<u8>,
    pub download_complete: bool,
    pub download_error: Option<String>,
    pub total_size: Option<u64>,
    pub config: StreamingConfig,
    pub read_pos: u64,
}

/// The seek target, before range checks (`None` when the end is unknown).
pub open spec fn seek_target(b: BufferView, pos: SeekFrom) -> Option<int> {
    match pos {
        SeekFrom::Start(off) => Some(if off <= i64::MAX { off as int } else { off - 0x1_0000_0000_0000_0000 }),
        SeekFrom::Current(off) => Some(b.read_pos + off),
        SeekFrom::End(off) => match b.total_size {
            Some(t) => Some(t + off),
            None => if b.download_complete { Some(b.data.len() + off) } else { None },
        },
    }
}

/// What a read of up to `want` bytes does.
pub enum ReadOutcome {
    /// Nothing to read yet: the download continues.
    Pending,
    /// The download failed.
    Failed,
    /// `n` bytes are read (0 at the end of a completed download).
    Read(nat),
}

/// The outcome of reading up to `want` bytes at the read position.
pub open spec fn read_outcome(b: BufferView, want: nat) -> ReadOutcome {
    let len = b.data.len();
    if b.read_pos >= len && !b.download_complete && b.download_error is None {
        ReadOutcome::Pending
    } else if b.download_error is Some {
        ReadOutcome::Failed
    } else if b.read_pos >= len {
        ReadOutcome::Read(0)
    } else {
        ReadOutcome::Read(if want <= len - b.read_pos { want } else { (len - b.read_pos) as nat })
    }
}

/// The bytes a read of `n` bytes returns.
pub open spec fn read_bytes(b: BufferView, n: nat) -> Seq<u8> {
    if b.read_pos + n <= b.data.len() {
        b.data.subrange(b.read_pos as int, b.read_pos + n)
    } else {
        Seq::empty()
    }
}

/// The source after a read of up to `want` bytes.
pub open spec fn after_read(b: BufferView, want: nat) -> BufferView {
    match read_outcome(b, want) {
        ReadOutcome::Read(n) => BufferView { read_pos: (b.read_pos + n) as u64, ..b },
        _ => b,
    }
}

/// What a seek does.
pub enum SeekOutcome {
    /// Seeking from the end while the size is unknown.
    UnknownEnd,
    /// The target lies before the start.
    BeforeStart,
    /// The target is not downloaded yet.
    Pending,
    /// The download failed.
    Failed,
    /// The target lies beyond the end of the completed data.
    BeyondEnd,
    /// The read position moves to the target.
    Moved(int),
}

/// The outcome of a seek to `pos`.
pub open spec fn seek_outcome(b: BufferView, pos: SeekFrom) -> SeekOutcome {
    match seek_target(b, pos) {
        None => SeekOutcome::UnknownEnd,
        Some(t) => if t < 0 {
            SeekOutcome::BeforeStart
        } else if t > b.data.len() && !b.download_complete && b.download_error is None {
            SeekOutcome::Pending
        } else if b.download_error is Some {
            SeekOutcome::Failed
        } else if t > b.data.len() {
            SeekOutcome::BeyondEnd
        } else {
            SeekOutcome::Moved(t)
        },
    }
}

/// The source after a seek to `pos`.
pub open spec fn after_seek(b: BufferView, pos: SeekFrom) -> BufferView {
    match seek_outcome(b, pos) {
        SeekOutcome::Moved(t) => BufferView { read_pos: t as u64, ..b },
        _ => b,
    }
}

/// The source after a downloaded chunk is appended.
pub open spec fn chunk_pushed(b: BufferView, chunk: Seq<u8>) -> BufferView {
    BufferView { data: b.data + chunk, ..b }
}

/// The source after the download completes.
pub open spec fn completed(b: BufferView) -> BufferView {
    BufferView { download_complete: true, ..b }
}

/// The whole data, once the download completed without error.
pub open spec fn complete_data(b: BufferView) -> Option<Seq<u8>> {
    if b.download_complete && b.download_error is None { Some(b.data) } else { None }
}

/// Enough is buffered to start playing: the initial buffer is filled or the
/// download completed.
pub open spec fn min_buffer_ready(b: BufferView) -> bool {
    b.data.len() >= b.config.initial_buffer_bytes || b.download_complete
}

/// A call on the download side of a source.
pub enum WriterOp {
    Push(Seq<u8>),
    Complete,
    Error(String),
}

/// The source after the download side made the calls `ops`, in order.
pub open spec fn after_ops(b: BufferView, ops: Seq<WriterOp>) -> BufferView
    decreases ops.len(),
{
    if ops.len() == 0 {
        b
    } else {
        let b1 = after_ops(b, ops.drop_last());
        match ops.last() {
            WriterOp::Push(chunk) => chunk_pushed(b1, chunk),
            WriterOp::Complete => completed(b1),
            WriterOp::Error(e) => BufferView { download_error: Some(e), ..b1 },
        }
    }
}

/// The pushed chunks of `ops`, joined in order.
pub open spec fn pushed_bytes(ops: Seq<WriterOp>) -> Seq<u8>
    decreases ops.len(),
{
    if ops.len() == 0 {
        Seq::empty()
    } else {
        match ops.last() {
            WriterOp::Push(chunk) => pushed_bytes(ops.drop_last()) + chunk,
            _ => pushed_bytes(ops.drop_last()),
        }
    }
}

/// `ops` holds a completion.
pub open spec fn completes(ops: Seq<WriterOp>) -> bool {
    exists|i: int| 0 <= i < ops.len() && ops[i] is Complete
}

/// The error of the last failure report in `ops`, if any.
pub open spec fn last_error(ops: Seq<WriterOp>) -> Option<String>
    decreases ops.len(),
{
    if ops.len() == 0 {
        None
    } else {
        match ops.last() {
            WriterOp::Error(e) => Some(e),
            _ => last_error(ops.drop_last()),
        }
    }
}

/// A fresh source for `config` expecting `total_size` bytes.
pub open spec fn fresh_source(config: StreamingConfig, total_size: Option<u64>) -> BufferView {
    BufferView {
        data: Seq::empty(),
        download_complete: false,
        download_error: None,
        total_size: total_size,
        config: config,
        read_pos: 0,
    }
}

/// A buffered media source with its own read position.
pub struct BufferedMediaSource {
    data: Vec<u8>,
    download_complete: bool,
    download_error: Option<String>,
    total_size: Option<u64>,
    config: StreamingConfig,
    read_pos: u64,
}

impl View for BufferedMediaSource {
    type V = BufferView;

    closed spec fn view(&self) -> BufferView {
        BufferView {
            data: self.data@,
            download_complete: self.download_complete,
            download_error: self.download_error,
            total_size: self.total_size,
            config: self.config,
            read_pos: self.read_pos,
        }
    }
}

/// The download side of a buffered source.
pub struct BufferWriter;

fn clone_bytes(v: &Vec<u8>) -> (r: Vec<u8>)
    ensures
        r@ == v@,
{
    let mut out: Vec<u8> = Vec::new();
    let mut i: usize = 0;
    while i < v.len()
        invariant
            0 <= i <= v@.len(),
            out@ == v@.subrange(0, i as int),
        decreases v@.len() - i,
    {
        out.push(v[i]);
        i += 1;
        assert(out@ =~= v@.subrange(0, i as int));
    }
    assert(v@.subrange(0, v@.len() as int) =~= v@);
    out
}

impl BufferedMediaSource {
    /// An empty source expecting `total_size` bytes, and its writer.
    pub fn new(config: StreamingConfig, total_size: Option<u64>) -> (r: (Self, BufferWriter))
        ensures
            r.0@ == fresh_source(config, total_size),
    {
        (BufferedMediaSource {
            data: Vec::new(),
            download_complete: false,
            download_error: None,
            total_size,
            config,
            read_pos: 0,
        }, BufferWriter)
    }

    /// A reader over the same buffered data with its own position at 0.
    pub fn create_reader(&self) -> (r: Self)
        ensures
            r@ == (BufferView { read_pos: 0, ..self@ }),
    {
        BufferedMediaSource {
            data: clone_bytes(&self.data),
            download_complete: self.download_complete,
            download_error: match &self.download_error {
                Some(e) => Some(e.clone()),
                None => None,
            },
            total_size: self.total_size,
            config: self.config,
            read_pos: 0,
        }
    }

    /// Whether the download finished without error.
    pub fn is_complete(&self) -> (r: bool)
        ensures
            r == (self@.download_complete && self@.download_error is None),
    {
        self.download_complete && self.download_error.is_none()
    }

    /// Bytes buffered so far.
    pub fn buffer_size(&self) -> (r: usize)
        ensures
            r == self@.data.len(),
    {
        self.data.len()
    }

    /// The whole data, when the download finished without error.
    pub fn take_complete_data(&self) -> (r: Option<Vec<u8>>)
        ensures
            match complete_data(self@) {
                Some(d) => r matches Some(v) && v@ == d,
                None => r is None,
            },
    {
        if self.download_complete && self.download_error.is_none() {
            Some(clone_bytes(&self.data))
        } else {
            None
        }
    }

    /// The data buffered so far, unless there is none.
    pub fn get_buffered_data(&self) -> (r: Option<Vec<u8>>)
        ensures
            self@.data.len() == 0 ==> r is None,
            self@.data.len() > 0 ==> (r matches Some(d) && d@ == self@.data),
    {
        if self.data.len() == 0 {
            None
        } else {
            Some(clone_bytes(&self.data))
        }
    }

    /// Buffered and expected byte counts, when the expected size is known.
    pub fn progress_parts(&self) -> (r: Option<(usize, u64)>)
        ensures
            r == (match self@.total_size {
                Some(t) => Some((self@.data.len() as usize, t)),
                None => None,
            }),
    {
        match self.total_size {
            Some(t) => Some((self.data.len(), t)),
            None => None,
        }
    }

    /// Whether the initial buffer is filled or the download is complete.
    pub fn has_min_buffer(&self) -> (r: bool)
        ensures
            r == min_buffer_ready(self@),
    {
        self.data.len() >= self.config.initial_buffer_bytes || self.download_complete
    }

    /// Whether waiting for the initial buffer is over: filled, complete or failed.
    pub fn initial_buffer_ready(&self) -> (r: bool)
        ensures
            r == (self@.data.len() >= self@.config.initial_buffer_bytes || self@.download_complete
                || self@.download_error is Some),
    {
        self.data.len() >= self.config.initial_buffer_bytes || self.download_complete
            || self.download_error.is_some()
    }

    /// The expected total size.
    pub fn byte_len(&self) -> (r: Option<u64>)
        ensures
            r == self@.total_size,
    {
        self.total_size
    }

    /// The download error, if any.
    pub fn download_error(&self) -> (r: Option<String>)
        ensures
            r == self@.download_error,
    {
        match &self.download_error {
            Some(e) => Some(e.clone()),
            None => None,
        }
    }

    /// Read up to `buf.len()` bytes at the read position and advance it.
    /// `Ok(0)` at the end of a completed download; `Pending` when the data is
    /// not downloaded yet; the download error when it failed.
    pub fn read(&mut self, buf: &mut [u8]) -> (r: Result<usize, StreamError>)
        ensures
            ({
                let o = old(self)@;
                let want = old(buf)@.len();
                match read_outcome(o, want) {
                    ReadOutcome::Pending => r matches Err(StreamError::Pending)
                        && final(buf)@ == old(buf)@,
                    ReadOutcome::Failed => r matches Err(StreamError::DownloadFailed(e))
                        && o.download_error == Some(e) && final(buf)@ == old(buf)@,
                    ReadOutcome::Read(n) => r matches Ok(k) && k == n
                        && final(buf)@ == read_bytes(o, n) + old(buf)@.subrange(n as int, want as int),
                }
            }),
            final(self)@ == after_read(old(self)@, old(buf)@.len()),
    {
        let len = self.data.len();
        if self.read_pos >= len as u64 && !self.download_complete && self.download_error.is_none() {
            return Err(StreamError::Pending);
        }
        match &self.download_error {
            Some(e) => {
                return Err(StreamError::DownloadFailed(e.clone()));
            },
            None => {},
        }
        if self.read_pos >= len as u64 {
            assert(read_bytes(self@, 0) + buf@.subrange(0, buf@.len() as int) =~= buf@);
            return Ok(0);
        }
        let pos = self.read_pos as usize;
        let available = len - pos;
        let to_read = if buf.len() <= available { buf.len() } else { available };
        let ghost buf0 = buf@;
        let mut i: usize = 0;
        while i < to_read
            invariant
                0 <= i <= to_read,
                to_read <= buf@.len(),
                buf@.len() == buf0.len(),
                pos + to_read <= len,
                self.data@.len() == len,
                forall|k: int| 0 <= k < i ==> buf@[k] == self.data@[pos + k],
                forall|k: int| i <= k < buf@.len() ==> buf@[k] == buf0[k],
            decreases to_read - i,
        {
            buf[i] = self.data[pos + i];
            i += 1;
        }
        assert(buf@ =~= self.data@.subrange(pos as int, pos + to_read) + buf0.subrange(to_read as int, buf0.len() as int));
        self.read_pos = (pos + to_read) as u64;
        Ok(to_read)
    }

    /// Move the read position. Errors: the end is unknown for an `End` seek
    /// while downloading; the target is before the start; the download
    /// failed; the target is beyond the end of the completed data. `Pending`
    /// when the target is not downloaded yet.
    pub fn seek(&mut self, pos: SeekFrom) -> (r: Result<u64, StreamError>)
        requires
            pos matches SeekFrom::Current(_) ==> old(self)@.read_pos <= i64::MAX,
            pos matches SeekFrom::End(_) ==> (old(self)@.total_size matches Some(t) ==> t <= i64::MAX),
            pos matches SeekFrom::End(_) ==> old(self)@.data.len() <= i64::MAX,
            seek_target(old(self)@, pos) matches Some(t) ==> i64::MIN <= t <= i64::MAX,
        ensures
            match seek_outcome(old(self)@, pos) {
                SeekOutcome::UnknownEnd => r matches Err(StreamError::UnknownEnd),
                SeekOutcome::BeforeStart => r matches Err(StreamError::BeforeStart),
                SeekOutcome::Pending => r matches Err(StreamError::Pending),
                SeekOutcome::Failed => r matches Err(StreamError::DownloadFailed(e))
                    && old(self)@.download_error == Some(e),
                SeekOutcome::BeyondEnd => r matches Err(StreamError::BeyondEnd),
                SeekOutcome::Moved(t) => r matches Ok(p) && p == t,
            },
            final(self)@ == after_seek(old(self)@, pos),
    {
        let new_pos: i128 = match pos {
            SeekFrom::Start(offset) => if offset <= i64::MAX as u64 {
                offset as i128
            } else {
                (offset as i128) - 0x1_0000_0000_0000_0000i128
            },
            SeekFrom::Current(offset) => (self.read_pos as i128) + (offset as i128),
            SeekFrom::End(offset) => match self.total_size {
                Some(total) => (total as i128) + (offset as i128),
                None => if self.download_complete {
                    (self.data.len() as i128) + (offset as i128)
                } else {
                    return Err(StreamError::UnknownEnd);
                },
            },
        };
        if new_pos < 0 {
            return Err(StreamError::BeforeStart);
        }
        let target = new_pos as u64;
        let len = self.data.len() as u64;
        if target > len && !self.download_complete && self.download_error.is_none() {
            return Err(StreamError::Pending);
        }
        match &self.download_error {
            Some(e) => {
                return Err(StreamError::DownloadFailed(e.clone()));
            },
            None => {},
        }
        if self.download_complete && target > len {
            return Err(StreamError::BeyondEnd);
        }
        self.read_pos = target;
        Ok(target)
    }
}

impl BufferWriter {
    /// Append a downloaded chunk to the source's data.
    pub fn push_chunk(&self, source: &mut BufferedMediaSource, chunk: &[u8]) -> (r: Result<(), String>)
        requires
            old(source)@.data.len() + chunk@.len() <= usize::MAX,
        ensures
            r is Ok,
            final(source)@ == chunk_pushed(old(source)@, chunk@),
    {
        let ghost d0 = source.data@;
        let ghost v0 = source@;
        let mut i: usize = 0;
        while i < chunk.len()
            invariant
                0 <= i <= chunk@.len(),
                v0.data == d0,
                source@ == (BufferView { data: d0 + chunk@.subrange(0, i as int), ..v0 }),
                source.data@ == d0 + chunk@.subrange(0, i as int),
                d0.len() + chunk@.len() <= usize::MAX,
            decreases chunk@.len() - i,
        {
            source.data.push(chunk[i]);
            i += 1;
            assert(source.data@ =~= d0 + chunk@.subrange(0, i as int));
        }
        assert(chunk@.subrange(0, chunk@.len() as int) =~= chunk@);
        Ok(())
    }

    /// Mark the download of the source as complete.
    pub fn complete(&self, source: &mut BufferedMediaSource) -> (r: Result<(), String>)
        ensures
            r is Ok,
            final(source)@ == completed(old(source)@),
    {
        source.download_complete = true;
        Ok(())
    }

    /// Mark the download of the source as failed with `err`.
    pub fn error(&self, source: &mut BufferedMediaSource, err: String) -> (r: Result<(), String>)
        ensures
            r is Ok,
            final(source)@ == (BufferView { download_error: Some(err), ..old(source)@ }),
    {
        source.download_error = Some(err);
        Ok(())
    }

    /// Bytes buffered so far.
    pub fn buffer_size(&self, source: &BufferedMediaSource) -> (r: usize)
        ensures
            r == source@.data.len(),
    {
        source.data.len()
    }
}

/// What a read gives back of a write: a reader that has consumed all the
/// data so far reads the next pushed chunk, from its start.
pub proof fn lemma_read_returns_pushed_chunk(b: BufferView, chunk: Seq<u8>, want: nat)
    requires
        b.read_pos == b.data.len(),
        b.download_error is None,
        chunk.len() > 0,
        b.read_pos + chunk.len() <= u64::MAX,
    ensures
        ({
            let n = if want <= chunk.len() { want } else { chunk.len() };
            &&& read_outcome(chunk_pushed(b, chunk), want) == ReadOutcome::Read(n)
            &&& read_bytes(chunk_pushed(b, chunk), n) == chunk.subrange(0, n as int)
            &&& after_read(chunk_pushed(b, chunk), want).read_pos == b.read_pos + n
        }),
{
    let n = if want <= chunk.len() { want } else { chunk.len() };
    let p = chunk_pushed(b, chunk);
    assert(p.data.subrange(b.read_pos as int, b.read_pos + n) =~= chunk.subrange(0, n as int));
}

/// Reading ahead of a download that is still running never fails: it waits
/// (`Pending`) and changes nothing.
pub proof fn lemma_read_ahead_waits(b: BufferView, want: nat)
    requires
        b.read_pos >= b.data.len(),
        !b.download_complete,
        b.download_error is None,
    ensures
        read_outcome(b, want) == ReadOutcome::Pending,
        after_read(b, want) == b,
{
}

/// After the download completes, a seek to any position within the data
/// moves there, and a read from there returns the data from that position.
pub proof fn lemma_seek_then_read(b: BufferView, p: u64, want: nat)
    requires
        b.download_complete,
        b.download_error is None,
        p <= b.data.len(),
        p <= i64::MAX,
    ensures
        ({
            let s = after_seek(b, SeekFrom::Start(p));
            let n = if want <= b.data.len() - p { want } else { (b.data.len() - p) as nat };
            &&& seek_outcome(b, SeekFrom::Start(p)) == SeekOutcome::Moved(p as int)
            &&& s.read_pos == p
            &&& read_outcome(s, want) == ReadOutcome::Read(n)
            &&& read_bytes(s, n) == b.data.subrange(p as int, p + n)
        }),
{
}

/// The complete data of a download is the pushed chunks, in order.
pub proof fn lemma_complete_data_is_the_chunks(config: StreamingConfig, total: Option<u64>, a: Seq<u8>, c: Seq<u8>)
    ensures
        complete_data(chunk_pushed(chunk_pushed(fresh_source(config, total), a), c)) is None,
        complete_data(completed(chunk_pushed(chunk_pushed(fresh_source(config, total), a), c))) == Some(a + c),
{
    assert(Seq::<u8>::empty() + a + c =~= a + c);
}

/// A read never moves the position past the data, so a source whose
/// position is within its data keeps it there.
pub proof fn lemma_read_keeps_position_in_data(b: BufferView, want: nat)
    requires
        b.read_pos <= b.data.len(),
    ensures
        after_read(b, want).read_pos <= b.data.len(),
        after_read(b, want).data == b.data,
{
}


/// After any sequence of download-side calls on a fresh source, the data is
/// the pushed chunks in order, the download counts as complete exactly when
/// a completion was reported, the error is the last one reported, and the
/// read position, expected size and configuration are untouched.
pub proof fn lemma_writer_calls(config: StreamingConfig, total_size: Option<u64>, ops: Seq<WriterOp>)
    ensures
        after_ops(fresh_source(config, total_size), ops).data == pushed_bytes(ops),
        after_ops(fresh_source(config, total_size), ops).download_complete == completes(ops),
        after_ops(fresh_source(config, total_size), ops).download_error == last_error(ops),
        after_ops(fresh_source(config, total_size), ops).read_pos == 0,
        after_ops(fresh_source(config, total_size), ops).total_size == total_size,
        after_ops(fresh_source(config, total_size), ops).config == config,
    decreases ops.len(),
{
    if ops.len() > 0 {
        let prev = ops.drop_last();
        lemma_writer_calls(config, total_size, prev);
        if completes(ops) {
            let i = choose|i: int| 0 <= i < ops.len() && ops[i] is Complete;
            if i < ops.len() - 1 {
                assert(prev[i] is Complete);
            }
        }
        if completes(prev) {
            let i = choose|i: int| 0 <= i < prev.len() && prev[i] is Complete;
            assert(ops[i] is Complete);
        }
        if ops.last() is Complete {
            assert(ops[ops.len() - 1] is Complete);
        }
    }
}

/// Enough is buffered to start exactly when the pushed bytes reach the
/// initial buffer size or the download completed; a failure report alone
/// never makes it so.
pub proof fn lemma_min_buffer_after_calls(config: StreamingConfig, total_size: Option<u64>, ops: Seq<WriterOp>)
    ensures
        min_buffer_ready(after_ops(fresh_source(config, total_size), ops))
            == (pushed_bytes(ops).len() >= config.initial_buffer_bytes || completes(ops)),
{
    lemma_writer_calls(config, total_size, ops);
}

/// The download is complete exactly when a completion and no failure were
/// reported, and then the complete data is the pushed chunks in order.
pub proof fn lemma_complete_after_calls(config: StreamingConfig, total_size: Option<u64>, ops: Seq<WriterOp>)
    ensures
        ({
            let b = after_ops(fresh_source(config, total_size), ops);
            &&& (b.download_complete && b.download_error is None) == (completes(ops) && last_error(ops) is None)
            &&& complete_data(b) == (if completes(ops) && last_error(ops) is None {
                Some(pushed_bytes(ops))
            } else {
                None
            })
        }),
{
    lemma_writer_calls(config, total_size, ops);
}

/// Once a failure is reported, every read fails with the last error
/// reported, whatever was buffered and whatever pushes or completion
/// followed, and there is no complete data.
pub proof fn lemma_reads_fail_after_error(
    config: StreamingConfig,
    total_size: Option<u64>,
    ops: Seq<WriterOp>,
    e: String,
    want: nat,
)
    requires
        last_error(ops) == Some(e),
    ensures
        read_outcome(after_ops(fresh_source(config, total_size), ops), want) == ReadOutcome::Failed,
        after_ops(fresh_source(config, total_size), ops).download_error == Some(e),
        complete_data(after_ops(fresh_source(config, total_size), ops)) is None,
{
    lemma_writer_calls(config, total_size, ops);
}

/// Once the download completed without error, reads never wait: they get
/// the bytes available up to what was asked, or nothing at the end.
pub proof fn lemma_reads_never_wait_after_complete(b: BufferView, want: nat)
    requires
        b.download_complete,
        b.download_error is None,
    ensures
        read_outcome(b, want) == (if b.read_pos >= b.data.len() {
            ReadOutcome::Read(0)
        } else {
            ReadOutcome::Read(if want <= b.data.len() - b.read_pos { want } else { (b.data.len() - b.read_pos) as nat })
        }),
        min_buffer_ready(b),
{
}

} // verus!
