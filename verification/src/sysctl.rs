//! Decoding of the values that the kernel's sysctl interface returns.
//!
//! The reads themselves are system calls made by the program around this
//! library; here stand the checks and conversions applied to what they return.

use vstd::prelude::*;
use crate::bytes::{le_i32, le_u32, le_u64, read_le_i32, read_le_u32, read_le_u64};
use crate::text::{from_utf8_lossy, utf8_lossy};

verus! {

/// `std::io::Error`, carried opaquely inside the error types of this library.
#[verifier::external_type_specification]
#[verifier::external_body]
pub struct ExIoError(std::io::Error);

/// Failures of a sysctl read.
#[derive(Debug)]
pub enum SysctlError {
    NameToMib { name: String, source: std::io::Error },
    ReadFailed { name: String, source: std::io::Error },
    GenerationMismatch { name: String, retries: u32 },
    TooSmall { got: usize, need: usize },
    UnsupportedPlatform,
}

/// System-wide TCP counters (`net.inet.tcp.stats`), as deltas or totals.
#[derive(Debug, Clone, Copy, Default)]
pub struct TcpSysStats {
    pub connattempt: u64,
    pub accepts: u64,
    pub connects: u64,
    pub drops: u64,
    pub sndtotal: u64,
    pub sndbyte: u64,
    pub sndrexmitpack: u64,
    pub sndrexmitbyte: u64,
    pub rcvtotal: u64,
    pub rcvbyte: u64,
    pub rcvduppack: u64,
    pub rcvbadsum: u64,
}

/// Size of `struct xinpgen`, the header and trailer of a pcblist buffer.
pub const XINPGEN_MIN_SIZE: usize = 24;

/// Reads `kern.clockrate`'s `hz` (ticks per second): the first `i32` of
/// `struct clockinfo`.
pub fn parse_clock_hz(buf: &[u8]) -> (r: Result<i32, SysctlError>)
    ensures
        buf@.len() < 4 ==> (r matches Err(SysctlError::TooSmall { got, need })
            && got == buf@.len() && need == 4),
        buf@.len() >= 4 ==> r == Ok::<i32, SysctlError>(le_i32(buf@, 0)),
{
    if buf.len() < 4 {
        return Err(SysctlError::TooSmall { got: buf.len(), need: 4 });
    }
    Ok(read_le_i32(buf, 0))
}

/// What one read of a pcblist buffer shows about its consistency: the
/// generation recorded in the `xinpgen` header (bytes 8..16) and in the
/// trailer (the last `header_len` bytes, `header_len` being the header's first
/// `u32`), or the first size check that fails.
pub open spec fn pcblist_generation_spec(buf: Seq<u8>) -> Result<(u64, u64), (usize, usize)> {
    if buf.len() < XINPGEN_MIN_SIZE {
        Err((buf.len() as usize, XINPGEN_MIN_SIZE))
    } else {
        let header_len = le_u32(buf, 0) as int;
        if buf.len() < header_len {
            Err((buf.len() as usize, header_len as usize))
        } else {
            let trailer = buf.len() - header_len;
            if trailer + 16 > buf.len() {
                Err((buf.len() as usize, (trailer + 16) as usize))
            } else {
                Ok((le_u64(buf, 8), le_u64(buf, trailer + 8)))
            }
        }
    }
}

/// Checks the header/trailer generations of one pcblist read.
///
/// `Ok(Some(gen))` when they match, `Ok(None)` when they differ (the list
/// changed during the read), `Err(TooSmall)` when the buffer cannot hold them.
pub fn check_pcblist_generation(buf: &[u8]) -> (r: Result<Option<u64>, SysctlError>)
    requires
        buf@.len() <= isize::MAX,
    ensures
        match pcblist_generation_spec(buf@) {
            Err((got, need)) => r matches Err(SysctlError::TooSmall { got: g, need: n })
                && g == got && n == need,
            Ok((header_gen, trailer_gen)) => r matches Ok(found) && found == (if header_gen
                == trailer_gen {
                Some(header_gen)
            } else {
                None::<u64>
            }),
        },
{
    if buf.len() < XINPGEN_MIN_SIZE {
        return Err(SysctlError::TooSmall { got: buf.len(), need: XINPGEN_MIN_SIZE });
    }
    let header_len = read_le_u32(buf, 0) as usize;
    let header_gen = read_le_u64(buf, 8);
    if buf.len() < header_len {
        return Err(SysctlError::TooSmall { got: buf.len(), need: header_len });
    }
    let trailer_offset = buf.len() - header_len;
    if trailer_offset > buf.len() - 16 {
        return Err(SysctlError::TooSmall { got: buf.len(), need: trailer_offset + 16 });
    }
    let trailer_gen = read_le_u64(buf, trailer_offset + 8);
    if header_gen == trailer_gen {
        Ok(Some(header_gen))
    } else {
        Ok(None)
    }
}

/// What the sysctl interface answers on a host that has none: every read is
/// `UnsupportedPlatform`. The program around this library passes its own
/// reader (`sysctlbyname`) to the functions below on FreeBSD and macOS, and
/// this one elsewhere.
pub fn read_sysctl(_name: &str) -> (r: Result<Vec<u8>, SysctlError>)
    ensures
        r matches Err(SysctlError::UnsupportedPlatform),
{
    Err(SysctlError::UnsupportedPlatform)
}

/// What to do after one read of a pcblist: accept the generation of a
/// consistent read, read again, or give up.
#[derive(Debug, Clone, Copy, PartialEq, Eq)]
pub enum PcblistStep {
    Accept(u64),
    Reread,
    GiveUp,
}

/// The decision after read number `attempt` (from 0): a consistent read is
/// accepted; an inconsistent one is read again until `max_retries` retries
/// have been made, then the reading gives up.
pub open spec fn pcblist_step_spec(attempt: u32, max_retries: u32, consistent: Option<u64>) -> PcblistStep {
    match consistent {
        Some(g) => PcblistStep::Accept(g),
        None => if attempt >= max_retries {
            PcblistStep::GiveUp
        } else {
            PcblistStep::Reread
        },
    }
}

/// Decides what follows read number `attempt` whose generation check gave
/// `consistent` (`Some` generation when header and trailer agree).
pub fn pcblist_step(attempt: u32, max_retries: u32, consistent: Option<u64>) -> (s: PcblistStep)
    ensures
        s == pcblist_step_spec(attempt, max_retries, consistent),
{
    match consistent {
        Some(g) => PcblistStep::Accept(g),
        None => if attempt >= max_retries {
            PcblistStep::GiveUp
        } else {
            PcblistStep::Reread
        },
    }
}

/// A read whose header and trailer hold different generations.
pub open spec fn inconsistent_read(b: Seq<u8>) -> bool {
    pcblist_generation_spec(b) matches Ok((h, t)) && h != t
}

/// The outcome of a reading whose answer number `attempt` (from 0) is
/// `answer`, when the reading stops there: the reader's error; `TooSmall`
/// for a buffer the generation check cannot read; the buffer with its
/// generation when `pcblist_step_spec` accepts it; `GenerationMismatch` when
/// it gives up. `false` when the decision is to read again.
pub open spec fn pcblist_reading_ends(
    answer: Result<Vec<u8>, SysctlError>,
    attempt: u32,
    max_retries: u32,
    name: Seq<char>,
    r: Result<(Vec<u8>, u64), SysctlError>,
) -> bool {
    match answer {
        Err(e) => r == Err::<(Vec<u8>, u64), SysctlError>(e),
        Ok(b) => match pcblist_generation_spec(b@) {
            Err((got, need)) => r matches Err(SysctlError::TooSmall { got: g, need: n }) && g == got
                && n == need,
            Ok((h, t)) => match pcblist_step_spec(
                attempt,
                max_retries,
                if h == t {
                    Some(h)
                } else {
                    None::<u64>
                },
            ) {
                PcblistStep::Accept(g) => r == Ok::<(Vec<u8>, u64), SysctlError>((b, g)),
                PcblistStep::GiveUp => r matches Err(
                    SysctlError::GenerationMismatch { name: n, retries },
                ) && n@ == name && retries == max_retries,
                PcblistStep::Reread => false,
            },
        },
    }
}

/// `trace` is a run of the reading that ends in `r`: one to `max_retries + 1`
/// answers the reader can give for `name`, each but the last an
/// inconsistent buffer, the last ending the reading in `r`.
pub open spec fn pcblist_run<F: Fn(&str) -> Result<Vec<u8>, SysctlError>>(
    read: &F,
    name: &str,
    max_retries: u32,
    trace: Seq<Result<Vec<u8>, SysctlError>>,
    r: Result<(Vec<u8>, u64), SysctlError>,
) -> bool {
    &&& 1 <= trace.len() <= max_retries + 1
    &&& forall|k: int| 0 <= k < trace.len() ==> #[trigger] read.ensures((name,), trace[k])
    &&& forall|k: int|
        0 <= k < trace.len() - 1 ==> (#[trigger] trace[k] matches Ok(b) && inconsistent_read(b@))
    &&& pcblist_reading_ends(trace.last(), (trace.len() - 1) as u32, max_retries, name@, r)
}

/// Reads `name` (a `pcblist` sysctl) with `read` until its header and trailer
/// generations agree, making at most `max_retries + 1` reads; after each
/// read `pcblist_step` decides.
///
/// Returns the first consistent buffer with its generation; the reader's
/// error, or `TooSmall` for a buffer that cannot hold header and trailer, as
/// soon as one occurs; `GenerationMismatch` after `max_retries + 1`
/// inconsistent reads. The result is the end of a run of answers the reader
/// can give (`pcblist_run`).
pub fn read_pcblist_validated<F: Fn(&str) -> Result<Vec<u8>, SysctlError>>(
    name: &str,
    max_retries: u32,
    read: &F,
) -> (r: Result<(Vec<u8>, u64), SysctlError>)
    requires
        forall|n: &str| #[trigger] read.requires((n,)),
        forall|n: &str, v: Vec<u8>|
            #[trigger] read.ensures((n,), Ok::<Vec<u8>, SysctlError>(v)) ==> v@.len() <= isize::MAX,
    ensures
        r matches Ok((buf, generation)) ==> read.ensures((name,), Ok::<Vec<u8>, SysctlError>(buf))
            && pcblist_generation_spec(buf@) == Ok::<(u64, u64), (usize, usize)>(
            (generation, generation),
        ),
        exists|trace: Seq<Result<Vec<u8>, SysctlError>>| pcblist_run(read, name, max_retries, trace, r),
{
    let mut attempt: u32 = 0;
    let ghost mut trace: Seq<Result<Vec<u8>, SysctlError>> = Seq::empty();
    loop
        invariant
            attempt <= max_retries,
            trace.len() == attempt,
            forall|k: int| 0 <= k < trace.len() ==> #[trigger] read.ensures((name,), trace[k]),
            forall|k: int|
                0 <= k < trace.len() ==> (#[trigger] trace[k] matches Ok(b) && inconsistent_read(
                    b@,
                )),
            forall|n: &str| #[trigger] read.requires((n,)),
            forall|n: &str, v: Vec<u8>|
                #[trigger] read.ensures((n,), Ok::<Vec<u8>, SysctlError>(v)) ==> v@.len()
                    <= isize::MAX,
        decreases max_retries - attempt,
    {
        let answer = read(name);
        let ghost got = answer;
        let ghost run = trace.push(got);
        proof {
            assert forall|k: int| 0 <= k < run.len() implies #[trigger] read.ensures(
                (name,),
                run[k],
            ) by {
                if k < trace.len() {
                    assert(run[k] == trace[k]);
                }
            }
            assert forall|k: int| 0 <= k < run.len() - 1 implies (#[trigger] run[k] matches Ok(b)
                && inconsistent_read(b@)) by {
                assert(run[k] == trace[k]);
            }
            assert(run.last() == got);
        }
        let buf = match answer {
            Ok(b) => b,
            Err(e) => {
                assert(pcblist_run(read, name, max_retries, run, Err(e)));
                return Err(e);
            },
        };
        let consistent = match check_pcblist_generation(buf.as_slice()) {
            Ok(c) => c,
            Err(e) => {
                assert(pcblist_run(read, name, max_retries, run, Err(e)));
                return Err(e);
            },
        };
        match pcblist_step(attempt, max_retries, consistent) {
            PcblistStep::Accept(generation) => {
                assert(pcblist_run(read, name, max_retries, run, Ok((buf, generation))));
                return Ok((buf, generation));
            },
            PcblistStep::GiveUp => {
                let r = Err(
                    SysctlError::GenerationMismatch {
                        name: String::from_str(name),
                        retries: max_retries,
                    },
                );
                assert(pcblist_run(read, name, max_retries, run, r));
                return r;
            },
            PcblistStep::Reread => {
                proof {
                    trace = run;
                }
            },
        }
        attempt = attempt + 1;
    }
}

/// What `parse_clock_hz` gives for one answer of the reader: the `hz` of
/// a buffer of at least 4 bytes, `TooSmall` for a shorter one, the reader's
/// own error otherwise.
pub open spec fn clock_hz_answer(res: Result<Vec<u8>, SysctlError>, r: Result<i32, SysctlError>) -> bool {
    match res {
        Ok(buf) => if buf@.len() >= 4 {
            r == Ok::<i32, SysctlError>(le_i32(buf@, 0))
        } else {
            r matches Err(SysctlError::TooSmall { got, need }) && got == buf@.len() && need == 4
        },
        Err(e) => r == Err::<i32, SysctlError>(e),
    }
}

/// Reads `kern.clockrate` with `read` and returns its `hz` (ticks per
/// second), the first `i32` of `struct clockinfo`: the result is what
/// `clock_hz_answer` gives for the reader's answer.
pub fn read_clock_hz<F: Fn(&str) -> Result<Vec<u8>, SysctlError>>(read: &F) -> (r: Result<
    i32,
    SysctlError,
>)
    requires
        forall|n: &str| #[trigger] read.requires((n,)),
    ensures
        exists|res: Result<Vec<u8>, SysctlError>|
            #[trigger] read.ensures(("kern.clockrate",), res) && clock_hz_answer(res, r),
{
    let res = read("kern.clockrate");
    let ghost answer = res;
    let r = match res {
        Ok(buf) => parse_clock_hz(buf.as_slice()),
        Err(e) => Err(e),
    };
    assert(read.ensures(("kern.clockrate",), answer) && clock_hz_answer(answer, r));
    r
}

/// `s` without its trailing NUL characters.
pub open spec fn trim_trailing_nuls(s: Seq<char>) -> Seq<char>
    decreases s.len(),
{
    if s.len() > 0 && s.last() == '\0' {
        trim_trailing_nuls(s.drop_last())
    } else {
        s
    }
}

/// Decodes `kern.osproductversion`: the lossy UTF-8 text without trailing NULs.
pub fn decode_os_version(buf: &[u8]) -> (s: String)
    ensures
        s@ == trim_trailing_nuls(utf8_lossy(buf@)),
{
    let text = from_utf8_lossy(buf);
    let t = text.as_str();
    let mut end: usize = t.unicode_len();
    proof {
        assert(t@.subrange(0, end as int) =~= t@);
    }
    while end > 0 && t.get_char(end - 1) == '\0'
        invariant
            end <= t@.len(),
            trim_trailing_nuls(t@) == trim_trailing_nuls(t@.subrange(0, end as int)),
        decreases end,
    {
        proof {
            assert(t@.subrange(0, end as int).drop_last() =~= t@.subrange(0, end - 1));
        }
        end = end - 1;
    }
    String::from_str(t.substring_char(0, end))
}

/// Reads `kern.osproductversion` with `read` and returns the version string.
pub fn read_os_version<F: Fn(&str) -> Result<Vec<u8>, SysctlError>>(read: &F) -> (r: Result<
    String,
    SysctlError,
>)
    requires
        forall|n: &str| #[trigger] read.requires((n,)),
    ensures
        r matches Ok(v) ==> exists|buf: Vec<u8>|
            read.ensures(("kern.osproductversion",), Ok::<Vec<u8>, SysctlError>(buf)) && v@
                == trim_trailing_nuls(utf8_lossy(buf@)),
        r matches Err(e) ==> read.ensures(
            ("kern.osproductversion",),
            Err::<Vec<u8>, SysctlError>(e),
        ),
{
    let buf = read("kern.osproductversion")?;
    Ok(decode_os_version(buf.as_slice()))
}

} // verus!
