//! Human-readable presentation: bounded diagnostic emission with suppression tracking,
//! inspection table headers, and truncation of escaped text.

use vstd::prelude::*;
use crate::capture::{
    capture_diagnostic_message, capture_message, validate_summary, validate_summary_lines, CaptureDiagnostic,
    CaptureReadOutcome,
};
use crate::text::{decimal, pad_left_spec, pad_right_spec, push_decimal, push_padded_left, push_padded_right};

verus! {

broadcast use vstd::string::group_string_axioms;

/// A line could not be written to its destination.
#[derive(Debug, Clone, Copy, PartialEq, Eq)]
pub struct SinkError;

/// A destination for lines of text (standard error, a file, a buffer).
pub trait LineSink {
    /// The lines the sink has accepted so far, in order.
    open spec fn accepted_lines(&self) -> Seq<Seq<char>> {
        Seq::empty()
    }

    /// The number of writes the sink has refused so far.
    open spec fn failed_writes(&self) -> nat {
        0
    }

    /// Writes one line; the line terminator is the sink's concern. A line that is written
    /// is accepted after the earlier ones; a write that fails is counted as refused, and its
    /// line is not accepted.
    fn write_line(&mut self, line: &str) -> (r: Result<(), SinkError>)
        ensures
            r is Ok ==> final(self).accepted_lines() == old(self).accepted_lines().push(line@)
                && final(self).failed_writes() == old(self).failed_writes(),
            r is Err ==> final(self).accepted_lines() == old(self).accepted_lines()
                && final(self).failed_writes() == old(self).failed_writes() + 1,
    ;
}

/// An in-memory sink that keeps every line written to it.
#[derive(Debug)]
pub struct LineBuffer {
    lines: Vec<String>,
}

impl LineBuffer {
    /// The lines written so far.
    pub closed spec fn spec_lines(&self) -> Seq<Seq<char>> {
        self.lines@.map_values(|l: String| l@)
    }

    /// An empty buffer.
    pub fn new() -> (b: LineBuffer)
        ensures
            b.spec_lines() == Seq::<Seq<char>>::empty(),
    {
        LineBuffer { lines: Vec::new() }
    }

    /// The number of lines written.
    pub fn len(&self) -> (n: usize)
        ensures
            n == self.spec_lines().len(),
    {
        self.lines.len()
    }

    /// Whether nothing was written.
    pub fn is_empty(&self) -> (b: bool)
        ensures
            b == (self.spec_lines().len() == 0),
    {
        self.lines.len() == 0
    }

    /// The line at `i`.
    pub fn line(&self, i: usize) -> (s: &str)
        requires
            i < self.spec_lines().len(),
        ensures
            s@ == self.spec_lines()[i as int],
    {
        self.lines[i].as_str()
    }

    /// Everything written, each line followed by a newline.
    pub fn text(&self) -> (s: String)
        ensures
            s@ == joined_lines(self.spec_lines()),
    {
        let mut s = String::new();
        let n = self.lines.len();
        let mut i: usize = 0;
        while i < n
            invariant
                n == self.spec_lines().len(),
                i <= n,
                s@ == joined_lines(self.spec_lines().take(i as int)),
            decreases n - i,
        {
            s.append(self.lines[i].as_str());
            s.append("\n");
            proof {
                let t = self.spec_lines().take(i + 1);
                assert(t.drop_last() =~= self.spec_lines().take(i as int));
                assert(t.last() == self.spec_lines()[i as int]);
            }
            i = i + 1;
        }
        assert(self.spec_lines().take(n as int) =~= self.spec_lines());
        s
    }
}

/// Lines, each followed by a newline.
pub open spec fn joined_lines(lines: Seq<Seq<char>>) -> Seq<char>
    decreases lines.len(),
{
    if lines.len() == 0 {
        Seq::empty()
    } else {
        joined_lines(lines.drop_last()) + lines.last() + "\n"@
    }
}

impl LineSink for LineBuffer {
    open spec fn accepted_lines(&self) -> Seq<Seq<char>> {
        self.spec_lines()
    }

    open spec fn failed_writes(&self) -> nat {
        0
    }

    fn write_line(&mut self, line: &str) -> (r: Result<(), SinkError>)
        ensures
            r is Ok,
    {
        let ghost before = self.lines@;
        self.lines.push(String::from_str(line));
        assert(self.lines@.map_values(|l: String| l@) =~= before.map_values(|l: String| l@).push(line@));
        Ok(())
    }
}

// ----- diagnostics -----

/// Default maximum number of diagnostic lines emitted per command.
pub const DEFAULT_DIAGNOSTIC_BUDGET: usize = 100;

/// The line reporting a diagnostic.
pub open spec fn diagnostic_text(message: Seq<char>) -> Seq<char> {
    "diagnostic: "@ + message
}

/// The line reporting a fatal error.
pub open spec fn fatal_text(message: Seq<char>) -> Seq<char> {
    "error: "@ + message
}

/// The line reporting how many diagnostics were suppressed.
pub open spec fn suppression_text(suppressed: nat, budget: nat) -> Seq<char> {
    "warning: suppressed "@ + decimal(suppressed) + " additional diagnostic messages (budget: "@ + decimal(
        budget,
    ) + ")"@
}

/// Quiet, budget, emitted count, suppressed count, whether a write failed.
pub type EmitterState = (bool, nat, nat, nat, bool);

/// Bounded diagnostic manager enforcing a display budget and quiet mode.
pub struct DiagnosticEmitter<W: LineSink> {
    writer: W,
    quiet: bool,
    budget: usize,
    emitted_count: usize,
    suppressed_count: usize,
    had_io_error: bool,
}

/// `n + 1`, saturating at the largest count.
pub open spec fn saturating_inc(n: nat) -> nat {
    if n < usize::MAX {
        n + 1
    } else {
        n
    }
}

impl<W: LineSink> DiagnosticEmitter<W> {
    /// The emitter's state.
    pub closed spec fn state(&self) -> EmitterState {
        (
            self.quiet,
            self.budget as nat,
            self.emitted_count as nat,
            self.suppressed_count as nat,
            self.had_io_error,
        )
    }

    /// The destination.
    pub closed spec fn spec_writer(&self) -> W {
        self.writer
    }

    /// The lines the destination has accepted.
    pub open spec fn written(&self) -> Seq<Seq<char>> {
        self.spec_writer().accepted_lines()
    }

    /// The budget and the counts are machine counts.
    pub proof fn lemma_counts_fit(&self)
        ensures
            self.state().1 <= usize::MAX,
            self.state().2 <= usize::MAX,
            self.state().3 <= usize::MAX,
    {
    }

    /// Creates an emitter writing to `writer`.
    pub fn with_writer(writer: W, quiet: bool, budget: usize) -> (e: DiagnosticEmitter<W>)
        ensures
            e.state() == (quiet, budget as nat, 0nat, 0nat, false),
            e.spec_writer() == writer,
    {
        DiagnosticEmitter { writer, quiet, budget, emitted_count: 0, suppressed_count: 0, had_io_error: false }
    }

    /// Whether any write failed.
    pub fn had_io_error(&self) -> (b: bool)
        ensures
            b == self.state().4,
    {
        self.had_io_error
    }

    /// The number of diagnostics written.
    pub fn emitted_count(&self) -> (n: usize)
        ensures
            n == self.state().2,
    {
        self.emitted_count
    }

    /// The number of diagnostics dropped over the budget.
    pub fn suppressed_count(&self) -> (n: usize)
        ensures
            n == self.state().3,
    {
        self.suppressed_count
    }

    /// The destination.
    pub fn writer(&self) -> (w: &W)
        ensures
            *w == self.spec_writer(),
    {
        &self.writer
    }

    /// Gives the destination back.
    pub fn into_writer(self) -> (w: W)
        ensures
            w == self.spec_writer(),
    {
        self.writer
    }

    /// Writes a diagnostic line unless quiet; over the budget, counts it as suppressed
    /// instead. A failed write is recorded and returned.
    pub fn emit_diagnostic(&mut self, message: &str) -> (r: Result<(), SinkError>)
        ensures
            ({
                let (quiet, budget, emitted, suppressed, failed) = old(self).state();
                let (quiet2, budget2, emitted2, suppressed2, failed2) = final(self).state();
                &&& quiet2 == quiet && budget2 == budget
                &&& quiet ==> r is Ok && final(self).state() == old(self).state()
                &&& !quiet && emitted >= budget ==> r is Ok && emitted2 == emitted && suppressed2
                    == saturating_inc(suppressed) && failed2 == failed
                &&& !quiet && emitted < budget && r is Ok ==> emitted2 == emitted + 1 && suppressed2
                    == suppressed && failed2 == failed
                &&& !quiet && emitted < budget && r is Err ==> emitted2 == emitted && suppressed2
                    == suppressed && failed2
                &&& emitted <= budget ==> emitted2 <= budget
                &&& (quiet || emitted >= budget) ==> final(self).written() == old(self).written()
                &&& !quiet && emitted < budget && r is Ok ==> final(self).written() == old(self).written().push(
                    diagnostic_text(message@),
                )
            }),
        r is Err ==> final(self).spec_writer().failed_writes() == old(self).spec_writer().failed_writes() + 1
            && final(self).written() == old(self).written(),
        r is Ok ==> final(self).spec_writer().failed_writes() == old(self).spec_writer().failed_writes(),
    {
        if self.quiet {
            return Ok(());
        }
        if self.emitted_count < self.budget {
            let line = diagnostic_line(message);
            match self.writer.write_line(line.as_str()) {
                Err(e) => {
                    self.had_io_error = true;
                    return Err(e);
                },
                Ok(()) => {},
            }
            self.emitted_count = self.emitted_count + 1;
        } else {
            if self.suppressed_count < usize::MAX {
                self.suppressed_count = self.suppressed_count + 1;
            }
        }
        Ok(())
    }

    /// Writes a capture reader diagnostic as a diagnostic line, `[Kind] message at byte N`,
    /// under the same quiet mode and budget as any diagnostic.
    pub fn emit_capture_diagnostic(&mut self, diagnostic: &CaptureDiagnostic) -> (r: Result<(), SinkError>)
        ensures
            ({
                let message = capture_message(*diagnostic);
                let (quiet, budget, emitted, suppressed, failed) = old(self).state();
                let (quiet2, budget2, emitted2, suppressed2, failed2) = final(self).state();
                &&& quiet2 == quiet && budget2 == budget
                &&& emitted <= budget ==> emitted2 <= budget
                &&& quiet ==> r is Ok && final(self).state() == old(self).state()
                    && final(self).written() == old(self).written()
                &&& !quiet && emitted >= budget ==> r is Ok && emitted2 == emitted && suppressed2
                    == saturating_inc(suppressed) && failed2 == failed && final(self).written() == old(
                    self,
                ).written()
                &&& !quiet && emitted < budget && r is Ok ==> emitted2 == emitted + 1 && suppressed2
                    == suppressed && failed2 == failed && final(self).written() == old(self).written().push(
                    diagnostic_text(message),
                )
                &&& !quiet && emitted < budget && r is Err ==> emitted2 == emitted && suppressed2
                    == suppressed && failed2
            }),
        r is Err ==> final(self).spec_writer().failed_writes() == old(self).spec_writer().failed_writes() + 1
            && final(self).written() == old(self).written(),
        r is Ok ==> final(self).spec_writer().failed_writes() == old(self).spec_writer().failed_writes(),
    {
        if self.quiet {
            return Ok(());
        }
        let message = capture_diagnostic_message(diagnostic);
        self.emit_diagnostic(message.as_str())
    }

    /// Writes a fatal error line. A failed write is recorded and returned.
    pub fn emit_fatal(&mut self, message: &str) -> (r: Result<(), SinkError>)
        ensures
            ({
                let (quiet, budget, emitted, suppressed, failed) = old(self).state();
                let (quiet2, budget2, emitted2, suppressed2, failed2) = final(self).state();
                &&& quiet2 == quiet && budget2 == budget && emitted2 == emitted && suppressed2 == suppressed
                &&& r is Ok ==> failed2 == failed
                &&& r is Err ==> failed2
                &&& r is Ok ==> final(self).written() == old(self).written().push(fatal_text(message@))
            }),
        r is Err ==> final(self).spec_writer().failed_writes() == old(self).spec_writer().failed_writes() + 1
            && final(self).written() == old(self).written(),
        r is Ok ==> final(self).spec_writer().failed_writes() == old(self).spec_writer().failed_writes(),
    {
        let line = fatal_line(message);
        match self.writer.write_line(line.as_str()) {
            Err(e) => {
                self.had_io_error = true;
                Err(e)
            },
            Ok(()) => Ok(()),
        }
    }

    /// Ends emission: unless quiet, reports how many diagnostics were suppressed, if any. A
    /// failed write is recorded and returned.
    pub fn finish(&mut self) -> (r: Result<(), SinkError>)
        ensures
            ({
                let (quiet, budget, emitted, suppressed, failed) = old(self).state();
                let (quiet2, budget2, emitted2, suppressed2, failed2) = final(self).state();
                &&& quiet2 == quiet && budget2 == budget && emitted2 == emitted && suppressed2 == suppressed
                &&& (quiet || suppressed == 0) ==> r is Ok && failed2 == failed
                    && final(self).written() == old(self).written()
                &&& r is Ok ==> failed2 == failed
                &&& r is Err ==> failed2
                &&& !quiet && suppressed > 0 && r is Ok ==> final(self).written() == old(self).written().push(
                    suppression_text(suppressed, budget),
                )
            }),
        r is Err ==> final(self).spec_writer().failed_writes() == old(self).spec_writer().failed_writes() + 1
            && final(self).written() == old(self).written(),
        r is Ok ==> final(self).spec_writer().failed_writes() == old(self).spec_writer().failed_writes(),
    {
        if !self.quiet && self.suppressed_count > 0 {
            let line = suppression_line(self.suppressed_count, self.budget);
            match self.writer.write_line(line.as_str()) {
                Err(e) => {
                    self.had_io_error = true;
                    return Err(e);
                },
                Ok(()) => {},
            }
        }
        Ok(())
    }
}

/// The line reporting a diagnostic.
pub fn diagnostic_line(message: &str) -> (s: String)
    ensures
        s@ == diagnostic_text(message@),
{
    let mut s = String::from_str("diagnostic: ");
    s.append(message);
    s
}

/// The line reporting a fatal error.
pub fn fatal_line(message: &str) -> (s: String)
    ensures
        s@ == fatal_text(message@),
{
    let mut s = String::from_str("error: ");
    s.append(message);
    s
}

/// The line reporting suppressed diagnostics.
pub fn suppression_line(suppressed: usize, budget: usize) -> (s: String)
    ensures
        s@ == suppression_text(suppressed as nat, budget as nat),
{
    let mut s = String::from_str("warning: suppressed ");
    push_decimal(&mut s, suppressed as u128);
    s.append(" additional diagnostic messages (budget: ");
    push_decimal(&mut s, budget as u128);
    s.append(")");
    assert(s@ =~= suppression_text(suppressed as nat, budget as nat));
    s
}

// ----- inspection tables -----

/// A left-aligned cell followed by a separating space.
pub open spec fn left_cell(s: Seq<char>, width: nat) -> Seq<char> {
    pad_right_spec(s, width) + " "@
}

/// A right-aligned cell followed by a separating space.
pub open spec fn right_cell(s: Seq<char>, width: nat) -> Seq<char> {
    pad_left_spec(s, width) + " "@
}

/// The flow table header.
pub open spec fn flow_header_text() -> Seq<char> {
    left_cell("ID"@, 6) + left_cell("PROTO"@, 5) + left_cell("ENDPOINT_A"@, 21) + left_cell("ENDPOINT_B"@, 21)
        + right_cell("PKTS"@, 6) + right_cell("A>B"@, 6) + right_cell("B>A"@, 6) + right_cell("SELF"@, 6)
        + right_cell("CAP_BYTES"@, 10) + right_cell("WIRE_BYTES"@, 10) + left_cell("DURATION"@, 10)
        + pad_right_spec("END"@, 16)
}

/// The DNS table header.
pub open spec fn dns_header_text() -> Seq<char> {
    left_cell("PKT"@, 6) + left_cell("XPORT"@, 5) + left_cell("SRC"@, 21) + left_cell("DST"@, 21) + right_cell(
        "ID"@,
        5,
    ) + left_cell("KIND"@, 8) + right_cell("OPCODE"@, 6) + right_cell("RCODE"@, 5) + right_cell("QD"@, 3)
        + right_cell("AN"@, 3) + right_cell("NS"@, 3) + right_cell("AR"@, 3) + left_cell("QNAME"@, 30)
        + left_cell("QTYPE"@, 6) + pad_right_spec("EDNS"@, 4)
}

/// The HTTP table header.
pub open spec fn http_header_text() -> Seq<char> {
    left_cell("PKT"@, 6) + left_cell("KIND"@, 8) + left_cell("SRC"@, 21) + left_cell("DST"@, 21) + left_cell(
        "VER"@,
        8,
    ) + left_cell("METHOD"@, 8) + right_cell("STATUS"@, 6) + left_cell("TARGET"@, 24) + left_cell("HOST"@, 20)
        + left_cell("CONTENT-TYPE"@, 20) + right_cell("CL"@, 10) + pad_right_spec("TE"@, 10)
}

/// The TLS table header.
pub open spec fn tls_header_text() -> Seq<char> {
    left_cell("PKT"@, 6) + left_cell("KIND"@, 17) + left_cell("SRC"@, 21) + left_cell("DST"@, 21) + left_cell(
        "REC_VER"@,
        8,
    ) + left_cell("TLS_VER"@, 8) + left_cell("CIPHER"@, 8) + left_cell("SNI"@, 24) + left_cell("ALPN"@, 12)
        + right_cell("CIPHERS"@, 7) + pad_left_spec("EXTS"@, 4)
}

fn push_left(out: &mut String, s: &str, width: usize)
    ensures
        final(out)@ == old(out)@ + left_cell(s@, width as nat),
{
    push_padded_right(out, s, width);
    out.append(" ");
    assert(final(out)@ =~= old(out)@ + left_cell(s@, width as nat));
}

fn push_right(out: &mut String, s: &str, width: usize)
    ensures
        final(out)@ == old(out)@ + right_cell(s@, width as nat),
{
    push_padded_left(out, s, width);
    out.append(" ");
    assert(final(out)@ =~= old(out)@ + right_cell(s@, width as nat));
}

/// The flow table header line.
pub fn flow_table_header() -> (s: String)
    ensures
        s@ == flow_header_text(),
{
    let mut s = String::new();
    push_left(&mut s, "ID", 6);
    push_left(&mut s, "PROTO", 5);
    push_left(&mut s, "ENDPOINT_A", 21);
    push_left(&mut s, "ENDPOINT_B", 21);
    push_right(&mut s, "PKTS", 6);
    push_right(&mut s, "A>B", 6);
    push_right(&mut s, "B>A", 6);
    push_right(&mut s, "SELF", 6);
    push_right(&mut s, "CAP_BYTES", 10);
    push_right(&mut s, "WIRE_BYTES", 10);
    push_left(&mut s, "DURATION", 10);
    push_padded_right(&mut s, "END", 16);
    assert(s@ =~= flow_header_text());
    s
}

/// The DNS table header line.
pub fn dns_table_header() -> (s: String)
    ensures
        s@ == dns_header_text(),
{
    let mut s = String::new();
    push_left(&mut s, "PKT", 6);
    push_left(&mut s, "XPORT", 5);
    push_left(&mut s, "SRC", 21);
    push_left(&mut s, "DST", 21);
    push_right(&mut s, "ID", 5);
    push_left(&mut s, "KIND", 8);
    push_right(&mut s, "OPCODE", 6);
    push_right(&mut s, "RCODE", 5);
    push_right(&mut s, "QD", 3);
    push_right(&mut s, "AN", 3);
    push_right(&mut s, "NS", 3);
    push_right(&mut s, "AR", 3);
    push_left(&mut s, "QNAME", 30);
    push_left(&mut s, "QTYPE", 6);
    push_padded_right(&mut s, "EDNS", 4);
    assert(s@ =~= dns_header_text());
    s
}

/// The HTTP table header line.
pub fn http_table_header() -> (s: String)
    ensures
        s@ == http_header_text(),
{
    let mut s = String::new();
    push_left(&mut s, "PKT", 6);
    push_left(&mut s, "KIND", 8);
    push_left(&mut s, "SRC", 21);
    push_left(&mut s, "DST", 21);
    push_left(&mut s, "VER", 8);
    push_left(&mut s, "METHOD", 8);
    push_right(&mut s, "STATUS", 6);
    push_left(&mut s, "TARGET", 24);
    push_left(&mut s, "HOST", 20);
    push_left(&mut s, "CONTENT-TYPE", 20);
    push_right(&mut s, "CL", 10);
    push_padded_right(&mut s, "TE", 10);
    assert(s@ =~= http_header_text());
    s
}

/// The TLS table header line.
pub fn tls_table_header() -> (s: String)
    ensures
        s@ == tls_header_text(),
{
    let mut s = String::new();
    push_left(&mut s, "PKT", 6);
    push_left(&mut s, "KIND", 17);
    push_left(&mut s, "SRC", 21);
    push_left(&mut s, "DST", 21);
    push_left(&mut s, "REC_VER", 8);
    push_left(&mut s, "TLS_VER", 8);
    push_left(&mut s, "CIPHER", 8);
    push_left(&mut s, "SNI", 24);
    push_left(&mut s, "ALPN", 12);
    push_right(&mut s, "CIPHERS", 7);
    push_padded_left(&mut s, "EXTS", 4);
    assert(s@ =~= tls_header_text());
    s
}

/// Writes the flow table header line.
pub fn render_flow_table_header<W: LineSink>(w: &mut W) -> (r: Result<(), SinkError>)
    ensures
        r is Ok ==> final(w).accepted_lines() == old(w).accepted_lines().push(flow_header_text())
            && final(w).failed_writes() == old(w).failed_writes(),
        r is Err ==> final(w).accepted_lines() == old(w).accepted_lines() && final(w).failed_writes()
            == old(w).failed_writes() + 1,
{
    w.write_line(flow_table_header().as_str())
}

/// Writes the DNS table header line.
pub fn render_dns_table_header<W: LineSink>(w: &mut W) -> (r: Result<(), SinkError>)
    ensures
        r is Ok ==> final(w).accepted_lines() == old(w).accepted_lines().push(dns_header_text())
            && final(w).failed_writes() == old(w).failed_writes(),
        r is Err ==> final(w).accepted_lines() == old(w).accepted_lines() && final(w).failed_writes()
            == old(w).failed_writes() + 1,
{
    w.write_line(dns_table_header().as_str())
}

/// Writes the HTTP table header line.
pub fn render_http_table_header<W: LineSink>(w: &mut W) -> (r: Result<(), SinkError>)
    ensures
        r is Ok ==> final(w).accepted_lines() == old(w).accepted_lines().push(http_header_text())
            && final(w).failed_writes() == old(w).failed_writes(),
        r is Err ==> final(w).accepted_lines() == old(w).accepted_lines() && final(w).failed_writes()
            == old(w).failed_writes() + 1,
{
    w.write_line(http_table_header().as_str())
}

/// Writes the TLS table header line.
pub fn render_tls_table_header<W: LineSink>(w: &mut W) -> (r: Result<(), SinkError>)
    ensures
        r is Ok ==> final(w).accepted_lines() == old(w).accepted_lines().push(tls_header_text())
            && final(w).failed_writes() == old(w).failed_writes(),
        r is Err ==> final(w).accepted_lines() == old(w).accepted_lines() && final(w).failed_writes()
            == old(w).failed_writes() + 1,
{
    w.write_line(tls_table_header().as_str())
}

/// Writes lines in order, stopping at the first failed write.
pub fn write_lines<W: LineSink>(lines: &Vec<String>, w: &mut W) -> (r: Result<(), SinkError>)
    ensures
        r is Ok ==> final(w).accepted_lines() == old(w).accepted_lines() + lines@.map_values(|l: String| l@)
            && final(w).failed_writes() == old(w).failed_writes(),
        r is Err ==> exists|k: int|
            0 <= k < lines@.len() && final(w).accepted_lines() == old(w).accepted_lines() + lines@.take(k).map_values(
                |l: String| l@,
            ) && final(w).failed_writes() == old(w).failed_writes() + 1,
{
    let n = lines.len();
    let mut i: usize = 0;
    while i < n
        invariant
            n == lines@.len(),
            i <= n,
            w.accepted_lines() == old(w).accepted_lines() + lines@.take(i as int).map_values(|l: String| l@),
            w.failed_writes() == old(w).failed_writes(),
        decreases n - i,
    {
        let ghost before = w.accepted_lines();
        match w.write_line(lines[i].as_str()) {
            Err(e) => {
                assert(0 <= i < lines@.len());
                return Err(e);
            },
            Ok(()) => {},
        }
        proof {
            assert(lines@.take(i + 1).map_values(|l: String| l@) =~= lines@.take(i as int).map_values(
                |l: String| l@,
            ).push(lines@[i as int]@));
            assert(w.accepted_lines() =~= old(w).accepted_lines() + lines@.take(i + 1).map_values(|l: String| l@));
        }
        i = i + 1;
    }
    assert(lines@.take(n as int) =~= lines@);
    Ok(())
}

/// Writes the validation summary of a capture: its format, completion, record and
/// diagnostic counts, then the classic file header or the sections and their interfaces.
pub fn render_validate_summary<W: LineSink>(
    outcome: &CaptureReadOutcome,
    records_emitted: u64,
    w: &mut W,
) -> (r: Result<(), SinkError>)
    ensures
        r is Ok ==> final(w).accepted_lines() == old(w).accepted_lines() + validate_summary_lines(
            *outcome,
            records_emitted,
        ) && final(w).failed_writes() == old(w).failed_writes(),
        r is Err ==> exists|k: int|
            0 <= k < validate_summary_lines(*outcome, records_emitted).len() && final(w).accepted_lines()
                == old(w).accepted_lines() + validate_summary_lines(*outcome, records_emitted).take(k)
                && final(w).failed_writes() == old(w).failed_writes() + 1,
{
    let lines = validate_summary(outcome, records_emitted);
    let r = write_lines(&lines, w);
    proof {
        if r is Err {
            let k = choose|k: int|
                0 <= k < lines@.len() && final(w).accepted_lines() == old(w).accepted_lines() + lines@.take(
                    k,
                ).map_values(|l: String| l@) && final(w).failed_writes() == old(w).failed_writes() + 1;
            assert(lines@.take(k).map_values(|l: String| l@) =~= lines@.map_values(|l: String| l@).take(k));
        }
    }
    r
}

// ----- truncation of escaped text -----

/// Length of the escape token at `i`: `\xHH` is four characters, `\\` two, anything else one.
pub open spec fn escape_token_len(s: Seq<char>, i: int) -> int {
    if s[i] == '\\' {
        if i + 3 < s.len() && s[i + 1] == 'x' {
            4
        } else if i + 1 < s.len() && s[i + 1] == '\\' {
            2
        } else {
            1
        }
    } else {
        1
    }
}

/// The end of the longest run of whole tokens from `i` that ends within `budget`.
pub open spec fn safe_cut(s: Seq<char>, i: int, budget: int) -> int
    decreases s.len() - i,
{
    if i < 0 || i >= s.len() {
        i
    } else if i + escape_token_len(s, i) <= budget {
        safe_cut(s, i + escape_token_len(s, i), budget)
    } else {
        i
    }
}

/// Escaped text cut to at most `max_width` characters without splitting an escape: text
/// that fits is kept; otherwise whole tokens are kept and `...` appended, or only dots when
/// the width leaves no room for text.
pub open spec fn truncated_presentation(s: Seq<char>, max_width: nat) -> Seq<char> {
    if s.len() <= max_width {
        s
    } else if max_width <= 3 {
        "..."@.take(max_width as int)
    } else {
        s.take(safe_cut(s, 0, max_width - 3)) + "..."@
    }
}

/// Truncates terminal-safe escaped text to a display width without splitting a `\xHH` or
/// `\\` escape.
pub fn truncate_escaped_presentation(escaped: &str, max_width: usize) -> (r: String)
    requires
        escaped.is_ascii(),
    ensures
        r@ == truncated_presentation(escaped@, max_width as nat),
{
    proof { reveal_strlit("..."); }
    let n = escaped.unicode_len();
    if n <= max_width {
        return String::from_str(escaped);
    }
    if max_width <= 3 {
        let mut r = String::new();
        let mut k: usize = 0;
        while k < max_width
            invariant
                k <= max_width <= 3,
                r@ == "..."@.take(k as int),
            decreases max_width - k,
        {
            proof {
                reveal_strlit(".");
                reveal_strlit("...");
            }
            r.append(".");
            k = k + 1;
            assert(r@ =~= "..."@.take(k as int));
        }
        return r;
    }
    let budget = max_width - 3;
    let ghost s = escaped@;
    let mut i: usize = 0;
    while i < n
        invariant_except_break
            n == s.len(),
            s == escaped@,
            budget == max_width - 3,
            i <= budget,
            i <= n,
            safe_cut(s, i as int, budget as int) == safe_cut(s, 0, budget as int),
        ensures
            i <= n,
            i as int == safe_cut(s, 0, budget as int),
        decreases n - i,
    {
        let c = escaped.get_char(i);
        let token = if c == '\\' {
            if i + 3 < n && escaped.get_char(i + 1) == 'x' {
                4
            } else if i + 1 < n && escaped.get_char(i + 1) == '\\' {
                2
            } else {
                1
            }
        } else {
            1
        };
        assert(token == escape_token_len(s, i as int));
        if i + token > budget {
            assert(safe_cut(s, i as int, budget as int) == i);
        }
        if i + token <= budget {
            i = i + token;
        } else {
            break;
        }
    }
    let mut r = String::from_str(escaped.substring_char(0, i));
    r.append("...");
    assert(r@ =~= truncated_presentation(escaped@, max_width as nat));
    r
}

} // verus!
