//! How much memory the process uses, from what the kernel reports of it.

use vstd::prelude::*;
use vstd::string::*;

use crate::seqs::{find_first, lemma_first_index};
use crate::text::{
    concat, decimal, law_decimal_round_trip, lines, owned, parse_u64, parse_unsigned, same,
    starts_with, text_lines,
    text_strip_prefix, text_words, views, words,
};

verus! {

/// How much memory the process uses.
#[derive(Clone, Copy, Debug, PartialEq, Eq)]
pub enum MemoryUsage {
    Rollup(MemoryRollup),
    ResidentOnly { rss_kib: u64 },
}

/// How much memory the process uses, by kind.
#[derive(Clone, Copy, Debug, PartialEq, Eq)]
pub struct MemoryRollup {
    pub rss_kib: u64,
    pub pss_kib: u64,
    pub private_kib: u64,
    pub shared_kib: u64,
    pub anonymous_kib: u64,
    pub swap_kib: u64,
}

/// What kind of error it is.
#[derive(Clone, Copy, Debug, PartialEq, Eq, Structural)]
pub enum ErrorKind {
    NotFound,
    PermissionDenied,
    ConnectionRefused,
    ConnectionReset,
    ConnectionAborted,
    NotConnected,
    AddrInUse,
    AddrNotAvailable,
    BrokenPipe,
    AlreadyExists,
    WouldBlock,
    InvalidInput,
    InvalidData,
    TimedOut,
    WriteZero,
    Interrupted,
    Unsupported,
    UnexpectedEof,
    OutOfMemory,
    Other,
}

/// An error of reading the memory usage.
#[derive(Debug, PartialEq, Eq)]
pub struct MemoryError {
    pub kind: ErrorKind,
    pub message: String,
}

/// The contents of an error.
pub struct ErrorView {
    pub kind: ErrorKind,
    pub message: Seq<char>,
}

impl View for MemoryError {
    type V = ErrorView;

    open spec fn view(&self) -> ErrorView {
        ErrorView { kind: self.kind, message: self.message@ }
    }
}

impl MemoryError {
    /// What kind of error it is.
    pub fn kind(&self) -> (r: ErrorKind)
        ensures
            r == self@.kind,
    {
        self.kind
    }

    /// The error in words.
    pub fn to_text(&self) -> (r: String)
        ensures
            r@ == self@.message,
    {
        self.message.clone()
    }
}

/// An error in what was read.
pub open spec fn invalid(message: Seq<char>) -> ErrorView {
    ErrorView { kind: ErrorKind::InvalidData, message }
}

/// An error in what was read.
fn invalid_data(message: String) -> (r: MemoryError)
    ensures
        r@ == invalid(message@),
{
    MemoryError { kind: ErrorKind::InvalidData, message }
}

/// The message of the error that reading a text as a number of 64 bits gives.
pub uninterp spec fn number_error(s: Seq<char>) -> Seq<char>;

/// The error of `str::parse::<u64>`, as it is displayed, of a text that denotes
/// no such number; the name stands for it.
#[verifier::external_body]
fn number_error_text(s: &str) -> (r: String)
    requires
        parse_unsigned(s@, u64::MAX as nat) is None,
    ensures
        r@ == number_error(s@),
{
    match s.parse::<u64>() {
        Ok(_) => String::new(),
        Err(error) => error.to_string(),
    }
}

/// The value of a field in kibibytes, or what is wrong with it.
pub open spec fn kib_field(contents: Seq<char>, name: Seq<char>) -> Result<u64, ErrorView> {
    let prefix = name + ":"@;
    match find_first(lines(contents), |l: Seq<char>| starts_with(l, prefix)) {
        None => Err(invalid(name + " is missing from procfs"@)),
        Some(line) => {
            let fields = words(line.skip(prefix.len() as int));
            if fields.len() == 0 {
                Err(invalid(name + " has no value in procfs"@))
            } else if fields.len() < 2 || fields[1] != "kB"@ {
                Err(invalid(name + " does not use the kB unit in procfs"@))
            } else {
                match parse_unsigned(fields[0], u64::MAX as nat) {
                    Some(n) => Ok(n as u64),
                    None => Err(
                        invalid(name + " is not a valid KiB value: "@ + number_error(fields[0])),
                    ),
                }
            }
        },
    }
}

/// Whether a result is the one that is specified.
pub open spec fn is_result(r: Result<u64, MemoryError>, expected: Result<u64, ErrorView>) -> bool {
    match r {
        Ok(n) => expected == Ok::<u64, ErrorView>(n),
        Err(e) => expected == Err::<u64, ErrorView>(e@),
    }
}

/// The value of a field in kibibytes.
pub fn parse_kib_field(contents: &str, name: &str) -> (r: Result<u64, MemoryError>)
    ensures
        is_result(r, kib_field(contents@, name@)),
{
    let prefix = concat(name, ":");
    let all = text_lines(contents);
    let ghost ls = lines(contents@);
    let ghost p = |l: Seq<char>| starts_with(l, name@ + ":"@);
    let mut i: usize = 0;
    while i < all.len()
        invariant
            i <= all.len(),
            ls == views(all@),
            ls == lines(contents@),
            prefix@ == name@ + ":"@,
            p == (|l: Seq<char>| starts_with(l, name@ + ":"@)),
            forall|j: int| 0 <= j < i ==> !p(#[trigger] ls[j]),
        decreases all.len() - i,
    {
        proof {
            assert(ls[i as int] == all@[i as int]@);
        }
        if let Some(line) = text_strip_prefix(all[i].as_str(), prefix.as_str()) {
            proof {
                lemma_first_index(ls, p, i as nat);
            }
            let fields = text_words(line.as_str());
            proof {
                assert(views(fields@).len() == fields@.len());
            }
            if fields.len() == 0 {
                return Err(invalid_data(concat(name, " has no value in procfs")));
            }
            proof {
                assert(views(fields@)[0] == fields@[0]@);
            }
            if fields.len() < 2 || !same(fields[1].as_str(), "kB") {
                return Err(invalid_data(concat(name, " does not use the kB unit in procfs")));
            }
            return match parse_u64(fields[0].as_str()) {
                Some(n) => Ok(n),
                None => {
                    let mut message = concat(name, " is not a valid KiB value: ");
                    message.append(number_error_text(fields[0].as_str()).as_str());
                    Err(invalid_data(message))
                },
            };
        }
        i += 1;
    }
    proof {
        lemma_first_index(ls, p, i as nat);
    }
    Err(invalid_data(concat(name, " is missing from procfs")))
}

/// The sum of two values, where it fits.
pub open spec fn sum_of(name: Seq<char>, left: u64, right: u64) -> Result<u64, ErrorView> {
    if left + right <= u64::MAX {
        Ok((left + right) as u64)
    } else {
        Err(invalid(name + " overflows a 64-bit KiB value"@))
    }
}

/// The sum of two values, where it fits.
pub fn checked_sum(name: &str, left: u64, right: u64) -> (r: Result<u64, MemoryError>)
    ensures
        is_result(r, sum_of(name@, left, right)),
{
    match left.checked_add(right) {
        Some(sum) => Ok(sum),
        None => Err(invalid_data(concat(name, " overflows a 64-bit KiB value"))),
    }
}

/// The first of two errors, or a result made of the second.
pub open spec fn also<A, B>(a: Result<A, ErrorView>, b: Result<B, ErrorView>) -> Result<
    B,
    ErrorView,
> {
    match a {
        Ok(_) => b,
        Err(e) => Err(e),
    }
}

/// The number, or zero for an error.
pub open spec fn or_zero(r: Result<u64, ErrorView>) -> u64 {
    match r {
        Ok(n) => n,
        Err(_) => 0,
    }
}

/// The memory by kind, or the first fault of the fields in the order in which
/// they are read.
pub open spec fn rollup_of(contents: Seq<char>) -> Result<MemoryRollup, ErrorView> {
    let private_clean = kib_field(contents, "Private_Clean"@);
    let private_dirty = kib_field(contents, "Private_Dirty"@);
    let shared_clean = kib_field(contents, "Shared_Clean"@);
    let shared_dirty = kib_field(contents, "Shared_Dirty"@);
    let rss = kib_field(contents, "Rss"@);
    let pss = kib_field(contents, "Pss"@);
    let private = sum_of("private memory"@, or_zero(private_clean), or_zero(private_dirty));
    let shared = sum_of("shared memory"@, or_zero(shared_clean), or_zero(shared_dirty));
    let anonymous = kib_field(contents, "Anonymous"@);
    let swap = kib_field(contents, "Swap"@);
    let whole = Ok::<MemoryRollup, ErrorView>(
        MemoryRollup {
            rss_kib: or_zero(rss),
            pss_kib: or_zero(pss),
            private_kib: or_zero(private),
            shared_kib: or_zero(shared),
            anonymous_kib: or_zero(anonymous),
            swap_kib: or_zero(swap),
        },
    );
    also(
        private_clean,
        also(
            private_dirty,
            also(
                shared_clean,
                also(
                    shared_dirty,
                    also(rss, also(pss, also(private, also(shared, also(anonymous, also(swap, whole)))))),
                ),
            ),
        ),
    )
}

/// The memory by kind.
pub fn parse_memory_rollup(contents: &str) -> (r: Result<MemoryRollup, MemoryError>)
    ensures
        match r {
            Ok(rollup) => rollup_of(contents@) == Ok::<MemoryRollup, ErrorView>(rollup),
            Err(e) => rollup_of(contents@) == Err::<MemoryRollup, ErrorView>(e@),
        },
{
    let private_clean_kib: u64 = match parse_kib_field(contents, "Private_Clean") {
        Ok(n) => n,
        Err(e) => {
            return Err(e);
        },
    };
    let private_dirty_kib: u64 = match parse_kib_field(contents, "Private_Dirty") {
        Ok(n) => n,
        Err(e) => {
            return Err(e);
        },
    };
    let shared_clean_kib: u64 = match parse_kib_field(contents, "Shared_Clean") {
        Ok(n) => n,
        Err(e) => {
            return Err(e);
        },
    };
    let shared_dirty_kib: u64 = match parse_kib_field(contents, "Shared_Dirty") {
        Ok(n) => n,
        Err(e) => {
            return Err(e);
        },
    };
    let rss_kib: u64 = match parse_kib_field(contents, "Rss") {
        Ok(n) => n,
        Err(e) => {
            return Err(e);
        },
    };
    let pss_kib: u64 = match parse_kib_field(contents, "Pss") {
        Ok(n) => n,
        Err(e) => {
            return Err(e);
        },
    };
    let private_kib: u64 = match checked_sum("private memory", private_clean_kib, private_dirty_kib) {
        Ok(n) => n,
        Err(e) => {
            return Err(e);
        },
    };
    let shared_kib: u64 = match checked_sum("shared memory", shared_clean_kib, shared_dirty_kib) {
        Ok(n) => n,
        Err(e) => {
            return Err(e);
        },
    };
    let anonymous_kib: u64 = match parse_kib_field(contents, "Anonymous") {
        Ok(n) => n,
        Err(e) => {
            return Err(e);
        },
    };
    let swap_kib: u64 = match parse_kib_field(contents, "Swap") {
        Ok(n) => n,
        Err(e) => {
            return Err(e);
        },
    };
    Ok(MemoryRollup { rss_kib, pss_kib, private_kib, shared_kib, anonymous_kib, swap_kib })
}

/// The resident memory.
pub fn parse_resident_memory_kib(status: &str) -> (r: Result<u64, MemoryError>)
    ensures
        is_result(r, kib_field(status@, "VmRSS"@)),
{
    parse_kib_field(status, "VmRSS")
}

/// The outcome of reading the memory by kind: of reading the file, then of its
/// contents.
pub open spec fn rollup_read(read: Result<String, MemoryError>) -> Result<MemoryRollup, ErrorView> {
    match read {
        Ok(contents) => rollup_of(contents@),
        Err(e) => Err(e@),
    }
}

/// The outcome of reading the resident memory.
pub open spec fn status_read(read: Result<String, MemoryError>) -> Result<u64, ErrorView> {
    match read {
        Ok(contents) => kib_field(contents@, "VmRSS"@),
        Err(e) => Err(e@),
    }
}

/// The error when neither source could be read: of the kind of the second one's,
/// with both in words.
pub open spec fn both_unavailable(rollup: ErrorView, status: ErrorView) -> ErrorView {
    ErrorView {
        kind: status.kind,
        message: "smaps rollup unavailable ("@ + rollup.message
            + "); status fallback unavailable ("@ + status.message + ")"@,
    }
}

/// The memory usage from what reading the two sources gave; the second is not
/// looked at where the first can be used.
pub open spec fn usage_of(rollup: Result<String, MemoryError>, status: Result<String, MemoryError>) -> Result<
    MemoryUsage,
    ErrorView,
> {
    match rollup_read(rollup) {
        Ok(r) => Ok(MemoryUsage::Rollup(r)),
        Err(e) => match status_read(status) {
            Ok(rss_kib) => Ok(MemoryUsage::ResidentOnly { rss_kib }),
            Err(f) => Err(both_unavailable(e, f)),
        },
    }
}

/// Reads the memory usage: by kind, or else the resident memory alone.
pub fn read_memory_usage_with<
    R: FnOnce() -> Result<String, MemoryError>,
    S: FnOnce() -> Result<String, MemoryError>,
>(read_rollup: R, read_status: S) -> (r: Result<MemoryUsage, MemoryError>)
    requires
        read_rollup.requires(()),
        read_status.requires(()),
    ensures
        exists|a: Result<String, MemoryError>, b: Result<String, MemoryError>|
            {
                &&& #[trigger] read_rollup.ensures((), a)
                &&& rollup_read(a) is Err ==> read_status.ensures((), b)
                &&& match r {
                    Ok(usage) => #[trigger] usage_of(a, b) == Ok::<MemoryUsage, ErrorView>(usage),
                    Err(e) => usage_of(a, b) == Err::<MemoryUsage, ErrorView>(e@),
                }
            },
{
    let rollup = read_rollup();
    let ghost a = rollup;
    let rollup_error = match rollup {
        Ok(contents) => match parse_memory_rollup(contents.as_str()) {
            Ok(rollup) => {
                proof {
                    assert(usage_of(a, a) == Ok::<MemoryUsage, ErrorView>(
                        MemoryUsage::Rollup(rollup),
                    ));
                }
                return Ok(MemoryUsage::Rollup(rollup));
            },
            Err(error) => error,
        },
        Err(error) => error,
    };
    let status = read_status();
    let ghost b = status;
    let status_error = match status {
        Ok(contents) => match parse_resident_memory_kib(contents.as_str()) {
            Ok(rss_kib) => {
                proof {
                    assert(usage_of(a, b) == Ok::<MemoryUsage, ErrorView>(
                        MemoryUsage::ResidentOnly { rss_kib },
                    ));
                }
                return Ok(MemoryUsage::ResidentOnly { rss_kib });
            },
            Err(error) => error,
        },
        Err(error) => error,
    };
    let mut message = owned("smaps rollup unavailable (");
    message.append(rollup_error.message.as_str());
    message.append("); status fallback unavailable (");
    message.append(status_error.message.as_str());
    message.append(")");
    let error = MemoryError { kind: status_error.kind, message };
    proof {
        assert(usage_of(a, b) == Err::<MemoryUsage, ErrorView>(error@));
    }
    Err(error)
}

/// A field is what the first line of its name says, in kibibytes.
pub proof fn law_field_is_read(
    contents: Seq<char>,
    name: Seq<char>,
    rest: Seq<char>,
    n: u64,
    at: int,
)
    requires
        0 <= at < lines(contents).len(),
        lines(contents)[at] == name + ":"@ + rest,
        forall|j: int|
            0 <= j < at ==> !(name + ":"@).is_prefix_of(#[trigger] lines(contents)[j]),
        words(rest).len() >= 2,
        words(rest)[0] == decimal(n as nat),
    ensures
        words(rest)[1] == "kB"@ ==> kib_field(contents, name) == Ok::<u64, ErrorView>(n),
        words(rest)[1] != "kB"@ ==> kib_field(contents, name) is Err,
{
    let prefix = name + ":"@;
    let p = |l: Seq<char>| starts_with(l, prefix);
    let ls = lines(contents);
    let line = ls[at];
    assert(line.take(prefix.len() as int) =~= prefix);
    assert(line.skip(prefix.len() as int) =~= rest);
    assert forall|j: int| 0 <= j < at implies !p(#[trigger] ls[j]) by {
        if starts_with(ls[j], prefix) {
            assert(prefix =~= ls[j].subrange(0, prefix.len() as int));
        }
    }
    lemma_first_index(ls, p, at as nat);
    law_decimal_round_trip(n as nat, u64::MAX as nat);
}

/// A field that no line names is missed.
pub proof fn law_missing_field(contents: Seq<char>, name: Seq<char>)
    requires
        forall|j: int|
            0 <= j < lines(contents).len() ==> !(name + ":"@).is_prefix_of(
                #[trigger] lines(contents)[j],
            ),
    ensures
        kib_field(contents, name) is Err,
{
    let prefix = name + ":"@;
    let p = |l: Seq<char>| starts_with(l, prefix);
    let ls = lines(contents);
    assert forall|j: int| 0 <= j < ls.len() implies !p(#[trigger] ls[j]) by {
        if starts_with(ls[j], prefix) {
            assert(prefix =~= ls[j].subrange(0, prefix.len() as int));
        }
    }
    lemma_first_index(ls, p, ls.len());
}

/// The memory by kind is known exactly where each of its fields is and the sums fit:
/// private and shared memory are each clean and dirty together, and the others are
/// their fields.
pub proof fn law_memory_by_kind(contents: Seq<char>)
    ensures
        ({
            let pc = kib_field(contents, "Private_Clean"@);
            let pd = kib_field(contents, "Private_Dirty"@);
            let sc = kib_field(contents, "Shared_Clean"@);
            let sd = kib_field(contents, "Shared_Dirty"@);
            let rss = kib_field(contents, "Rss"@);
            let pss = kib_field(contents, "Pss"@);
            let anonymous = kib_field(contents, "Anonymous"@);
            let swap = kib_field(contents, "Swap"@);
            &&& rollup_of(contents) is Ok <==> pc is Ok && pd is Ok && sc is Ok && sd is Ok
                && rss is Ok && pss is Ok && anonymous is Ok && swap is Ok && pc->Ok_0 + pd->Ok_0
                <= u64::MAX && sc->Ok_0 + sd->Ok_0 <= u64::MAX
            &&& rollup_of(contents) matches Ok(r) ==> {
                &&& r.private_kib == pc->Ok_0 + pd->Ok_0
                &&& r.shared_kib == sc->Ok_0 + sd->Ok_0
                &&& r.rss_kib == rss->Ok_0
                &&& r.pss_kib == pss->Ok_0
                &&& r.anonymous_kib == anonymous->Ok_0
                &&& r.swap_kib == swap->Ok_0
            }
        }),
{
}

/// The memory by kind is used where it can be read; else the resident memory alone;
/// and only where neither can be read is there an error.
pub proof fn law_sources_of_usage(
    rollup: Result<String, MemoryError>,
    status: Result<String, MemoryError>,
)
    ensures
        rollup matches Ok(text) ==> (rollup_of(text@) matches Ok(r) ==> usage_of(rollup, status)
            == Ok::<MemoryUsage, ErrorView>(MemoryUsage::Rollup(r))),
        (rollup is Err || rollup_of(rollup->Ok_0@) is Err) ==> {
            &&& status matches Ok(text) ==> (kib_field(text@, "VmRSS"@) matches Ok(n) ==> usage_of(
                rollup,
                status,
            ) == Ok::<MemoryUsage, ErrorView>(MemoryUsage::ResidentOnly { rss_kib: n }))
            &&& status is Err || kib_field(status->Ok_0@, "VmRSS"@) is Err ==> usage_of(
                rollup,
                status,
            ) is Err
        },
        rollup is Err && status is Err ==> usage_of(rollup, status)->Err_0.kind
            == status->Err_0@.kind,
{
}

} // verus!
