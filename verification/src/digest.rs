//! Checksums: MD5 of game files and patches, SHA-256 of the saved
//! download state, written as lowercase hexadecimal text.
use vstd::prelude::*;
use sha2::Digest;
use crate::download::text_of;

verus! {

/// The MD5 digest of `data` (16 bytes), as the `md5` crate computes it.
pub uninterp spec fn md5_of(data: Seq<u8>) -> Seq<u8>;

/// The SHA-256 digest of `data` (32 bytes), as the `sha2` crate computes
/// it.
pub uninterp spec fn sha256_of(data: Seq<u8>) -> Seq<u8>;

/// `md5::compute`: the MD5 digest of the bytes, 16 bytes long.
#[verifier::external_body]
fn md5_digest(data: &[u8]) -> (r: Vec<u8>)
    ensures
        r@ == md5_of(data@),
        r@.len() == 16,
{
    md5::compute(data).0.to_vec()
}

/// `Sha256::digest`: the SHA-256 digest of the bytes, 32 bytes long.
#[verifier::external_body]
fn sha256_digest(data: &[u8]) -> (r: Vec<u8>)
    ensures
        r@ == sha256_of(data@),
        r@.len() == 32,
{
    sha2::Sha256::digest(data).to_vec()
}

#[verifier::external_type_specification]
#[verifier::external_body]
pub struct ExMd5Context(md5::Context);

/// The bytes an MD5 context has taken in so far, in order.
pub uninterp spec fn md5_taken(ctx: md5::Context) -> Seq<u8>;

/// `md5::Context::new`: a context that has taken in nothing.
#[verifier::external_body]
fn md5_context_new() -> (r: md5::Context)
    ensures
        md5_taken(r) == Seq::<u8>::empty(),
{
    md5::Context::new()
}

/// `md5::Context::consume`: the context takes in `data` after what it
/// already holds.
#[verifier::external_body]
fn md5_context_consume(ctx: &mut md5::Context, data: &[u8])
    ensures
        md5_taken(*final(ctx)) == md5_taken(*old(ctx)) + data@,
{
    ctx.consume(data)
}

/// `md5::Context::finalize` (what `compute` on a context does): the MD5
/// digest of all the bytes the context took in, the same 16 bytes that
/// `md5::compute` gives for them.
#[verifier::external_body]
fn md5_context_finish(ctx: md5::Context) -> (r: Vec<u8>)
    ensures
        r@ == md5_of(md5_taken(ctx)),
        r@.len() == 16,
{
    ctx.finalize().0.to_vec()
}

/// The lowercase hexadecimal digit for `d` below 16.
pub open spec fn hex_digit(d: nat) -> char {
    if d < 10 {
        (48 + d) as char
    } else {
        (87 + d) as char
    }
}

/// `bytes` in lowercase hexadecimal, two digits a byte (`{:x}` of a
/// digest).
pub open spec fn hex_text(bytes: Seq<u8>) -> Seq<char>
    decreases bytes.len(),
{
    if bytes.len() == 0 {
        Seq::empty()
    } else {
        hex_text(bytes.drop_last()) + seq![
            hex_digit((bytes.last() / 16) as nat),
            hex_digit((bytes.last() % 16) as nat),
        ]
    }
}

fn hex_char(d: u8) -> (c: char)
    requires
        d < 16,
    ensures
        c == hex_digit(d as nat),
{
    if d < 10 {
        (48 + d) as char
    } else {
        (87 + d) as char
    }
}

/// Writes `bytes` in lowercase hexadecimal.
pub fn lower_hex(bytes: &[u8]) -> (r: String)
    ensures
        r@ == hex_text(bytes@),
{
    let mut r = String::new();
    let mut i: usize = 0;
    while i < bytes.len()
        invariant
            i <= bytes@.len(),
            r@ == hex_text(bytes@.subrange(0, i as int)),
        decreases bytes@.len() - i,
    {
        let b = bytes[i];
        crate::text::push_char(&mut r, hex_char(b / 16));
        crate::text::push_char(&mut r, hex_char(b % 16));
        proof {
            assert(bytes@.subrange(0, i + 1).drop_last() =~= bytes@.subrange(0, i as int));
        }
        i = i + 1;
    }
    assert(bytes@.subrange(0, bytes@.len() as int) =~= bytes@);
    r
}

/// The MD5 checksum of `data` in lowercase hexadecimal (what
/// `calculate_md5` gives for a file with these contents).
pub fn md5_hex(data: &[u8]) -> (r: String)
    ensures
        r@ == hex_text(md5_of(data@)),
        r@.len() == 32,
{
    let d = md5_digest(data);
    proof {
        lemma_hex_len(d@);
    }
    lower_hex(d.as_slice())
}

/// The SHA-256 checksum of `data` in lowercase hexadecimal.
pub fn sha256_hex(data: &[u8]) -> (r: String)
    ensures
        r@ == hex_text(sha256_of(data@)),
        r@.len() == 64,
{
    let d = sha256_digest(data);
    proof {
        lemma_hex_len(d@);
    }
    lower_hex(d.as_slice())
}

/// Hexadecimal text has two digits per byte.
pub proof fn lemma_hex_len(bytes: Seq<u8>)
    ensures
        hex_text(bytes).len() == 2 * bytes.len(),
    decreases bytes.len(),
{
    if bytes.len() > 0 {
        lemma_hex_len(bytes.drop_last());
    }
}

/// Checks a saved state against its checksum: `json` is the state
/// serialized with an empty checksum, `stored` the checksum it was saved
/// with.
pub fn verify_state_checksum(stored: &str, json: &[u8]) -> (r: Result<(), String>)
    ensures
        r is Ok <==> stored@ == hex_text(sha256_of(json@)),
        r matches Err(e) ==> e@ == "State file checksum verification failed"@,
{
    let calculated = sha256_hex(json);
    if crate::text::str_equal(stored, calculated.as_str()) {
        Ok(())
    } else {
        Err(text_of("State file checksum verification failed"))
    }
}

// ---------------------------------------------------------------------------
// Reading large files for checksums
// ---------------------------------------------------------------------------

pub open spec fn mib(n: nat) -> nat {
    n * 1024 * 1024
}

/// The read size when a file's MD5 is computed with progress reports:
/// larger files are read in larger pieces.
pub fn progress_md5_chunk_size(file_size: u64) -> (r: usize)
    ensures
        r == if file_size > mib(500) {
            256 * 1024
        } else if file_size > mib(100) {
            128 * 1024
        } else if file_size > mib(10) {
            64 * 1024
        } else {
            32 * 1024
        },
{
    if file_size > 500 * 1024 * 1024 {
        256 * 1024
    } else if file_size > 100 * 1024 * 1024 {
        128 * 1024
    } else if file_size > 10 * 1024 * 1024 {
        64 * 1024
    } else {
        32 * 1024
    }
}

/// The pause, in milliseconds, after reading piece number `chunks` (from
/// 1) when reporting progress, so the interface stays responsive: 2 ms
/// every 5 pieces above 500 MiB, 1 ms every 10 above 100 MiB, else 1 ms
/// every 20.
pub open spec fn progress_md5_pause(file_size: nat, chunks: nat) -> nat {
    if file_size > mib(500) {
        if chunks % 5 == 0 {
            2nat
        } else {
            0nat
        }
    } else if file_size > mib(100) {
        if chunks % 10 == 0 {
            1nat
        } else {
            0nat
        }
    } else if chunks % 20 == 0 {
        1nat
    } else {
        0nat
    }
}

/// The pause after reading piece number `chunks` when reporting progress.
pub fn progress_md5_pause_ms(file_size: u64, chunks: u64) -> (r: u64)
    ensures
        r == progress_md5_pause(file_size as nat, chunks as nat),
        r == if file_size > mib(500) {
            if chunks % 5 == 0 {
                2nat
            } else {
                0nat
            }
        } else if file_size > mib(100) {
            if chunks % 10 == 0 {
                1nat
            } else {
                0nat
            }
        } else if chunks % 20 == 0 {
            1nat
        } else {
            0nat
        },
{
    if file_size > 500 * 1024 * 1024 {
        if chunks % 5 == 0 {
            2
        } else {
            0
        }
    } else if file_size > 100 * 1024 * 1024 {
        if chunks % 10 == 0 {
            1
        } else {
            0
        }
    } else if chunks % 20 == 0 {
        1
    } else {
        0
    }
}

/// Whether to report progress: a second passed since the last report, or
/// the bytes read so far are a multiple of 50 MiB.
pub fn progress_md5_should_report(ms_since_report: u64, bytes_read: u64) -> (r: bool)
    ensures
        r == (ms_since_report >= 1000 || bytes_read % (mib(50) as u64) == 0),
{
    ms_since_report >= 1000 || bytes_read % (50 * 1024 * 1024) == 0
}

/// The read size when a file's MD5 is computed without progress reports.
pub fn md5_chunk_size(file_size: u64) -> (r: usize)
    ensures
        r == if file_size > mib(100) {
            8 * 1024
        } else if file_size > mib(10) {
            16 * 1024
        } else {
            32 * 1024
        },
{
    if file_size > 100 * 1024 * 1024 {
        8 * 1024
    } else if file_size > 10 * 1024 * 1024 {
        16 * 1024
    } else {
        32 * 1024
    }
}

/// The pause, in milliseconds, after reading piece number `chunks` (from
/// 1) without progress reports: 10 ms after every piece above 50 MiB, else
/// 5 ms every 10 pieces; above 500 MiB another 15 ms every 5 pieces.
pub open spec fn md5_pause(file_size: nat, chunks: nat) -> nat {
    (if file_size > mib(50) {
        10nat
    } else if chunks % 10 == 0 {
        5nat
    } else {
        0nat
    }) + (if file_size > mib(500) && chunks % 5 == 0 {
        15nat
    } else {
        0nat
    })
}

/// The pause after reading piece number `chunks` without progress reports.
pub fn md5_pause_ms(file_size: u64, chunks: u64) -> (r: u64)
    ensures
        r == md5_pause(file_size as nat, chunks as nat),
        r == (if file_size > mib(50) {
            10nat
        } else if chunks % 10 == 0 {
            5nat
        } else {
            0nat
        }) + (if file_size > mib(500) && chunks % 5 == 0 {
            15nat
        } else {
            0nat
        }),
{
    let first: u64 = if file_size > 50 * 1024 * 1024 {
        10
    } else if chunks % 10 == 0 {
        5
    } else {
        0
    };
    let extra: u64 = if file_size > 500 * 1024 * 1024 && chunks % 5 == 0 {
        15
    } else {
        0
    };
    first + extra
}

/// The MD5 checksum of a file taken in piece by piece as it is read,
/// with the count of bytes and pieces that decides the pauses between
/// reads and the progress reports.
pub struct Md5Stream {
    context: md5::Context,
    file_size: u64,
    bytes_read: u64,
    chunks: u64,
}

impl Md5Stream {
    /// The bytes taken in so far, in the order they were read.
    pub closed spec fn taken(&self) -> Seq<u8> {
        md5_taken(self.context)
    }

    /// The size of the whole file, which decides the pauses.
    pub closed spec fn size(&self) -> u64 {
        self.file_size
    }

    /// The count of bytes taken in so far.
    pub closed spec fn read_count(&self) -> u64 {
        self.bytes_read
    }

    /// The count of pieces taken in so far.
    pub closed spec fn piece_count(&self) -> u64 {
        self.chunks
    }

    /// The count of bytes read is the count of bytes taken in.
    pub closed spec fn wf(&self) -> bool {
        self.taken().len() == self.bytes_read
    }

    /// The count of bytes taken in so far.
    pub fn bytes_read(&self) -> (r: u64)
        ensures
            r == self.read_count(),
    {
        self.bytes_read
    }

    /// The count of pieces taken in so far.
    pub fn chunks(&self) -> (r: u64)
        ensures
            r == self.piece_count(),
    {
        self.chunks
    }

    /// A well-formed stream has taken in as many bytes as it counts.
    pub proof fn lemma_wf_counts(&self)
        requires
            self.wf(),
        ensures
            self.taken().len() == self.read_count(),
    {
    }

    /// A stream for a file of `file_size` bytes that has taken in nothing.
    pub fn new(file_size: u64) -> (s: Md5Stream)
        ensures
            s.wf(),
            s.taken() == Seq::<u8>::empty(),
            s.size() == file_size,
            s.read_count() == 0,
            s.piece_count() == 0,
    {
        Md5Stream { context: md5_context_new(), file_size, bytes_read: 0, chunks: 0 }
    }

    fn take(&mut self, chunk: &[u8])
        requires
            old(self).wf(),
            old(self).read_count() + chunk@.len() <= u64::MAX,
            old(self).piece_count() < u64::MAX,
        ensures
            final(self).wf(),
            final(self).taken() == old(self).taken() + chunk@,
            final(self).size() == old(self).size(),
            final(self).read_count() == old(self).read_count() + chunk@.len(),
            final(self).piece_count() == old(self).piece_count() + 1,
    {
        md5_context_consume(&mut self.context, chunk);
        self.bytes_read = self.bytes_read + chunk.len() as u64;
        self.chunks = self.chunks + 1;
    }

    /// Takes in the next piece read from the file and gives the pause, in
    /// milliseconds, before the next read when no progress is reported.
    pub fn take_chunk(&mut self, chunk: &[u8]) -> (pause: u64)
        requires
            old(self).wf(),
            old(self).read_count() + chunk@.len() <= u64::MAX,
            old(self).piece_count() < u64::MAX,
        ensures
            final(self).wf(),
            final(self).taken() == old(self).taken() + chunk@,
            final(self).size() == old(self).size(),
            final(self).read_count() == old(self).read_count() + chunk@.len(),
            final(self).piece_count() == old(self).piece_count() + 1,
            pause == md5_pause(old(self).size() as nat, (old(self).piece_count() + 1) as nat),
    {
        self.take(chunk);
        md5_pause_ms(self.file_size, self.chunks)
    }

    /// Takes in the next piece read from the file when progress is
    /// reported: gives the pause before the next read and whether to report
    /// now, `ms_since_report` milliseconds after the last report.
    pub fn take_chunk_reporting(&mut self, chunk: &[u8], ms_since_report: u64) -> (r: (u64, bool))
        requires
            old(self).wf(),
            old(self).read_count() + chunk@.len() <= u64::MAX,
            old(self).piece_count() < u64::MAX,
        ensures
            final(self).wf(),
            final(self).taken() == old(self).taken() + chunk@,
            final(self).size() == old(self).size(),
            final(self).read_count() == old(self).read_count() + chunk@.len(),
            final(self).piece_count() == old(self).piece_count() + 1,
            r.0 == progress_md5_pause(old(self).size() as nat, (old(self).piece_count() + 1) as nat),
            r.1 == (ms_since_report >= 1000 || final(self).read_count() % (mib(50) as u64) == 0),
    {
        self.take(chunk);
        let pause = progress_md5_pause_ms(self.file_size, self.chunks);
        let report = progress_md5_should_report(ms_since_report, self.bytes_read);
        (pause, report)
    }

    /// The checksum of all the bytes taken in, in lowercase hexadecimal:
    /// what `md5_hex` gives for the whole file.
    pub fn md5_text(self) -> (r: String)
        ensures
            r@ == hex_text(md5_of(self.taken())),
            r@.len() == 32,
    {
        let d = md5_context_finish(self.context);
        proof {
            lemma_hex_len(d@);
        }
        lower_hex(d.as_slice())
    }
}

} // verus!
