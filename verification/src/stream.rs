//! The duplication primitive: copy bytes from one source to one or two
//! sinks, chunk by chunk, flushing after every chunk, until the source is
//! exhausted or an I/O step fails.

use vstd::prelude::*;

verus! {

use std::io::Read;
use std::io::Write;

use crate::fault::IoFault;

/// Number of bytes requested from the source on each read.
pub const CHUNK_SIZE: usize = 1024;

/// Handle on an arbitrary byte producer (the parent's standard input, or one
/// of the child's output pipes). Opaque: everything known about the bytes it
/// yields is stated on `ByteSource`.
#[verifier::external_body]
pub struct RawSource {
    pub reader: Box<dyn Read + Send>,
}

/// Handle on an arbitrary byte consumer (a log file, a standard stream, or
/// the child's stdin pipe). Opaque: everything known about the bytes it
/// takes is stated on `ByteSink`.
#[verifier::external_body]
pub struct RawSink {
    pub writer: Box<dyn Write + Send>,
}

/// A byte producer together with the record of every byte it has delivered
/// since it was wrapped.
pub struct ByteSource {
    raw: RawSource,
    delivered: Ghost<Seq<u8>>,
    exhausted: Ghost<bool>,
}

/// A byte consumer together with the record of every byte it has accepted
/// since it was wrapped.
pub struct ByteSink {
    raw: RawSink,
    accepted: Ghost<Seq<u8>>,
}

impl View for ByteSource {
    type V = Seq<u8>;

    closed spec fn view(&self) -> Seq<u8> {
        self.delivered@
    }
}

impl View for ByteSink {
    type V = Seq<u8>;

    closed spec fn view(&self) -> Seq<u8> {
        self.accepted@
    }
}

impl ByteSource {
    /// Whether a read has reported end of input.
    pub closed spec fn exhausted(&self) -> bool {
        self.exhausted@
    }

    /// Starts the record of delivered bytes for a fresh handle.
    pub fn new(raw: RawSource) -> (s: ByteSource)
        ensures
            s@ == Seq::<u8>::empty(),
            !s.exhausted(),
    {
        ByteSource { raw, delivered: Ghost(Seq::empty()), exhausted: Ghost(false) }
    }
}

impl ByteSink {
    /// Starts the record of accepted bytes for a fresh handle.
    pub fn new(raw: RawSink) -> (s: ByteSink)
        ensures
            s@ == Seq::<u8>::empty(),
    {
        ByteSink { raw, accepted: Ghost(Seq::empty()) }
    }
}

/// `b` is `a` with zero or more bytes appended.
pub open spec fn extends(a: Seq<u8>, b: Seq<u8>) -> bool {
    a.len() <= b.len() && b.take(a.len() as int) == a
}

/// The bytes that `b` holds beyond `a`.
pub open spec fn appended(a: Seq<u8>, b: Seq<u8>) -> Seq<u8> {
    b.skip(a.len() as int)
}

proof fn lemma_append_empty(a: Seq<u8>)
    ensures
        a + Seq::<u8>::empty() == a,
        a.take(a.len() as int) == a,
        extends(a, a),
        appended(a, a) == Seq::<u8>::empty(),
{
    assert(a + Seq::<u8>::empty() =~= a);
    assert(a.take(a.len() as int) =~= a);
    assert(appended(a, a) =~= Seq::<u8>::empty());
}

proof fn lemma_grow(o: Seq<u8>, s: Seq<u8>, c: Seq<u8>)
    requires
        extends(o, s),
    ensures
        extends(o, s + c),
        appended(o, s + c) == appended(o, s) + c,
{
    assert((s + c).take(o.len() as int) =~= s.take(o.len() as int));
    assert(appended(o, s + c) =~= appended(o, s) + c);
}

proof fn lemma_take_within(a: Seq<u8>, b: Seq<u8>, k: int)
    requires
        0 <= k <= b.len(),
    ensures
        (a + b).take(a.len() + k) == a + b.take(k),
{
    assert((a + b).take(a.len() + k) =~= a + b.take(k));
}

proof fn lemma_append_assoc(a: Seq<u8>, b: Seq<u8>, c: Seq<u8>)
    ensures
        a + b + c == a + (b + c),
{
    assert(a + b + c =~= a + (b + c));
}

/// Relies on `std::io::Read::read`: a successful read delivers at most
/// `CHUNK_SIZE` fresh bytes, and an empty result reports end of input; a
/// failed read delivers nothing.
#[verifier::external_body]
fn read_chunk(src: &mut ByteSource) -> (r: Result<Vec<u8>, IoFault>)
    ensures
        match r {
            Ok(chunk) => {
                &&& final(src)@ == old(src)@ + chunk@
                &&& chunk@.len() <= CHUNK_SIZE
                &&& chunk@.len() == 0 ==> final(src).exhausted()
            },
            Err(f) => final(src)@ == old(src)@ && f is Stream,
        },
{
    let mut buf = vec![0u8; CHUNK_SIZE];
    match src.raw.reader.read(&mut buf) {
        Ok(n) => {
            buf.truncate(n);
            Ok(buf)
        },
        Err(e) => Err(IoFault::Stream(e.to_string())),
    }
}

/// Relies on `std::io::Write::write_all`: on success the sink accepted the
/// whole chunk; on failure it may have accepted any prefix of it.
#[verifier::external_body]
fn write_all_chunk(sink: &mut ByteSink, chunk: &Vec<u8>) -> (r: Result<(), IoFault>)
    ensures
        match r {
            Ok(u) => final(sink)@ == old(sink)@ + chunk@,
            Err(f) => f is Stream && exists|k: int|
                0 <= k <= chunk@.len() && final(sink)@ == old(sink)@ + chunk@.take(k),
        },
{
    match sink.raw.writer.write_all(chunk.as_slice()) {
        Ok(u) => Ok(u),
        Err(e) => Err(IoFault::Stream(e.to_string())),
    }
}

/// Relies on `std::io::Write::flush`: pushes buffered bytes onward and
/// changes the record of accepted bytes either way not at all.
#[verifier::external_body]
fn flush_sink(sink: &mut ByteSink) -> (r: Result<(), IoFault>)
    ensures
        final(sink)@ == old(sink)@,
        r matches Err(f) ==> f is Stream,
{
    match sink.raw.writer.flush() {
        Ok(u) => Ok(u),
        Err(e) => Err(IoFault::Stream(e.to_string())),
    }
}

impl ByteSink {
    /// The sink capability the duplicator needs: accept one whole chunk and
    /// flush it onward before anything else happens. On failure the sink
    /// has accepted at most some prefix of the chunk.
    pub fn write_and_flush(&mut self, chunk: &Vec<u8>) -> (r: Result<(), IoFault>)
        ensures
            match r {
                Ok(u) => final(self)@ == old(self)@ + chunk@,
                Err(f) => f is Stream && exists|k: int|
                    0 <= k <= chunk@.len() && final(self)@ == old(self)@ + chunk@.take(k),
            },
    {
        match write_all_chunk(self, chunk) {
            Ok(u) => {},
            Err(f) => {
                return Err(f);
            },
        }
        proof {
            assert(chunk@.take(chunk@.len() as int) =~= chunk@);
        }
        match flush_sink(self) {
            Ok(u) => Ok(()),
            Err(f) => Err(f),
        }
    }
}

/// Copies the source to both sinks in lock-step: each chunk is written
/// whole to the primary sink, then to the log sink, each write flushed,
/// before the next chunk is read. Returns the number of bytes moved once
/// the source reports end of input; stops on the first failing read, write
/// or flush. Either way the log sink accepts a prefix of what the primary
/// sink accepts, which is a prefix of what the source delivered.
pub fn tee(source: &mut ByteSource, primary: &mut ByteSink, log: &mut ByteSink) -> (r: Result<
    usize,
    IoFault,
>)
    ensures
        extends(old(source)@, final(source)@),
        r is Ok ==> ({
            let moved = appended(old(source)@, final(source)@);
            &&& final(source).exhausted()
            &&& final(primary)@ == old(primary)@ + moved
            &&& final(log)@ == old(log)@ + moved
            &&& r->Ok_0 == moved.len()
        }),
        r is Err ==> ({
            let moved = appended(old(source)@, final(source)@);
            exists|i: int, j: int|
                0 <= j <= i <= moved.len() && final(primary)@ == old(primary)@ + moved.take(i)
                    && final(log)@ == old(log)@ + moved.take(j)
        }),
{
    let mut total: usize = 0;
    proof {
        lemma_append_empty(old(source)@);
        lemma_append_empty(old(primary)@);
        lemma_append_empty(old(log)@);
    }
    loop
        invariant
            extends(old(source)@, source@),
            primary@ == old(primary)@ + appended(old(source)@, source@),
            log@ == old(log)@ + appended(old(source)@, source@),
            total == appended(old(source)@, source@).len(),
        decreases usize::MAX - total,
    {
        let ghost snap = source@;
        let ghost delta = appended(old(source)@, snap);
        let chunk = match read_chunk(source) {
            Ok(c) => c,
            Err(f) => {
                proof {
                    assert(delta.take(delta.len() as int) =~= delta);
                    assert(exists|i: int, j: int|
                        0 <= j <= i <= delta.len() && primary@ == old(primary)@ + delta.take(i)
                            && log@ == old(log)@ + delta.take(j));
                }
                return Err(f);
            },
        };
        proof {
            lemma_grow(old(source)@, snap, chunk@);
        }
        let ghost moved = delta + chunk@;
        if chunk.len() == 0 {
            proof {
                assert(snap + chunk@ =~= snap);
            }
            return Ok(total);
        }
        if usize::MAX - total < chunk.len() {
            proof {
                lemma_take_within(delta, chunk@, 0);
                assert(chunk@.take(0) =~= Seq::<u8>::empty());
                lemma_append_empty(delta);
                assert(moved.take(delta.len() as int) == delta);
                assert(exists|i: int, j: int|
                    0 <= j <= i <= moved.len() && primary@ == old(primary)@ + moved.take(i)
                        && log@ == old(log)@ + moved.take(j));
            }
            return Err(IoFault::CountOverflow);
        }
        match primary.write_and_flush(&chunk) {
            Ok(u) => {},
            Err(f) => {
                proof {
                    let k = choose|k: int|
                        0 <= k <= chunk@.len() && primary@ == (old(primary)@ + delta)
                            + chunk@.take(k);
                    lemma_take_within(delta, chunk@, k);
                    lemma_append_assoc(old(primary)@, delta, chunk@.take(k));
                    lemma_take_within(delta, chunk@, 0);
                    assert(chunk@.take(0) =~= Seq::<u8>::empty());
                    lemma_append_empty(delta);
                    assert(primary@ == old(primary)@ + moved.take(delta.len() + k));
                    assert(log@ == old(log)@ + moved.take(delta.len() as int));
                    assert(exists|i: int, j: int|
                        0 <= j <= i <= moved.len() && primary@ == old(primary)@ + moved.take(i)
                            && log@ == old(log)@ + moved.take(j));
                }
                return Err(f);
            },
        }
        match log.write_and_flush(&chunk) {
            Ok(u) => {},
            Err(f) => {
                proof {
                    let k = choose|k: int|
                        0 <= k <= chunk@.len() && log@ == (old(log)@ + delta) + chunk@.take(k);
                    lemma_append_assoc(old(primary)@, delta, chunk@);
                    assert(moved.take(moved.len() as int) =~= moved);
                    lemma_take_within(delta, chunk@, k);
                    lemma_append_assoc(old(log)@, delta, chunk@.take(k));
                    assert(primary@ == old(primary)@ + moved.take(moved.len() as int));
                    assert(log@ == old(log)@ + moved.take(delta.len() + k));
                    assert(exists|i: int, j: int|
                        0 <= j <= i <= moved.len() && primary@ == old(primary)@ + moved.take(i)
                            && log@ == old(log)@ + moved.take(j));
                }
                return Err(f);
            },
        }
        total = total + chunk.len();
        proof {
            lemma_append_assoc(old(primary)@, delta, chunk@);
            lemma_append_assoc(old(log)@, delta, chunk@);
        }
    }
}

/// Copies the source to a single sink: each chunk is written whole and
/// flushed before the next chunk is read. Returns the number of bytes
/// moved once the source reports end of input; stops on the first failing
/// read, write or flush, the sink then holding a prefix of what the source
/// delivered.
pub fn forward(source: &mut ByteSource, sink: &mut ByteSink) -> (r: Result<usize, IoFault>)
    ensures
        extends(old(source)@, final(source)@),
        r is Ok ==> ({
            let moved = appended(old(source)@, final(source)@);
            &&& final(source).exhausted()
            &&& final(sink)@ == old(sink)@ + moved
            &&& r->Ok_0 == moved.len()
        }),
        r is Err ==> ({
            let moved = appended(old(source)@, final(source)@);
            exists|i: int| 0 <= i <= moved.len() && final(sink)@ == old(sink)@ + moved.take(i)
        }),
{
    let mut total: usize = 0;
    proof {
        lemma_append_empty(old(source)@);
        lemma_append_empty(old(sink)@);
    }
    loop
        invariant
            extends(old(source)@, source@),
            sink@ == old(sink)@ + appended(old(source)@, source@),
            total == appended(old(source)@, source@).len(),
        decreases usize::MAX - total,
    {
        let ghost snap = source@;
        let ghost delta = appended(old(source)@, snap);
        let chunk = match read_chunk(source) {
            Ok(c) => c,
            Err(f) => {
                proof {
                    assert(delta.take(delta.len() as int) =~= delta);
                    assert(exists|i: int|
                        0 <= i <= delta.len() && sink@ == old(sink)@ + delta.take(i));
                }
                return Err(f);
            },
        };
        proof {
            lemma_grow(old(source)@, snap, chunk@);
        }
        let ghost moved = delta + chunk@;
        if chunk.len() == 0 {
            proof {
                assert(snap + chunk@ =~= snap);
            }
            return Ok(total);
        }
        if usize::MAX - total < chunk.len() {
            proof {
                lemma_take_within(delta, chunk@, 0);
                assert(chunk@.take(0) =~= Seq::<u8>::empty());
                lemma_append_empty(delta);
                assert(sink@ == old(sink)@ + moved.take(delta.len() as int));
                assert(exists|i: int|
                    0 <= i <= moved.len() && sink@ == old(sink)@ + moved.take(i));
            }
            return Err(IoFault::CountOverflow);
        }
        match sink.write_and_flush(&chunk) {
            Ok(u) => {},
            Err(f) => {
                proof {
                    let k = choose|k: int|
                        0 <= k <= chunk@.len() && sink@ == (old(sink)@ + delta) + chunk@.take(k);
                    lemma_take_within(delta, chunk@, k);
                    lemma_append_assoc(old(sink)@, delta, chunk@.take(k));
                    assert(sink@ == old(sink)@ + moved.take(delta.len() + k));
                    assert(exists|i: int|
                        0 <= i <= moved.len() && sink@ == old(sink)@ + moved.take(i));
                }
                return Err(f);
            },
        }
        total = total + chunk.len();
        proof {
            lemma_append_assoc(old(sink)@, delta, chunk@);
        }
    }
}

} // verus!
