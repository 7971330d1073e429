//! One command/response exchange, driven one received line at a time.
//!
//! Every reply opens with the echo of the command and a status line. What
//! follows depends on the command: tagged field lines, or a timestamp line,
//! and in every case a block of lines that ends at a terminator line.
use crate::error::{ErrorView, UrgError};
use crate::framing::{
    append_bytes, bytes_eq, content_of, echo_content, echo_of, field_outcome, field_value,
    is_closed, is_tagged, tag_value, is_terminator, is_timestamp_line, line_content, timestamp_field, timestamp_outcome,
};
use crate::codec::{decode6_spec, decode_decimal_field, is_decimal_u32};
use vstd::prelude::*;

verus! {

/// What a reply carries after its status line.
#[derive(Clone, Copy, Debug, PartialEq, Eq, Structural)]
pub enum Body {
    /// A block and nothing else.
    Block,
    /// A fixed number of tagged field lines, then a block. The values of the
    /// fields at positions `decimal_from` up to, but not including,
    /// `decimal_to` are decimal numbers.
    Fields { count: usize, decimal_from: usize, decimal_to: usize },
    /// A timestamp line, then a block of encoded samples.
    Scan,
}

/// Where an exchange stands.
#[derive(Clone, Copy, Debug, PartialEq, Eq, Structural)]
pub enum Phase {
    Echo,
    Status,
    Field,
    Timestamp,
    Block,
    Done,
    Failed,
}

/// What the caller does after handing a line to an exchange.
#[derive(Debug)]
pub enum Progress {
    /// Read the next line and hand it over.
    NeedLine,
    /// The reply is complete.
    Complete,
    /// The exchange failed; it takes no further line.
    Failed(UrgError),
}

/// A command/response exchange in progress.
#[derive(Debug)]
pub struct Exchange {
    command: Vec<u8>,
    expected: Vec<u8>,
    sends: bool,
    body: Body,
    phase: Phase,
    fields: Vec<Vec<u8>>,
    time_stamp: u32,
    block: Vec<u8>,
}

/// The mathematical value of an [`Exchange`].
pub ghost struct ExchangeView {
    /// The command whose echo is expected.
    pub command: Seq<u8>,
    /// The status that the command expects.
    pub expected: Seq<u8>,
    /// Whether the command is still to be written, or was already sent.
    pub sends: bool,
    pub body: Body,
    pub phase: Phase,
    /// The values of the field lines read so far.
    pub fields: Seq<Seq<u8>>,
    pub time_stamp: u32,
    /// The concatenated contents of the block lines read so far.
    pub block: Seq<u8>,
}

impl View for Exchange {
    type V = ExchangeView;

    closed spec fn view(&self) -> ExchangeView {
        ExchangeView {
            command: self.command@,
            expected: self.expected@,
            sends: self.sends,
            body: self.body,
            phase: self.phase,
            fields: self.fields@.map_values(|f: Vec<u8>| f@),
            time_stamp: self.time_stamp,
            block: self.block@,
        }
    }
}

/// The exchange still takes lines.
pub open spec fn in_progress(p: Phase) -> bool {
    p != Phase::Done && p != Phase::Failed
}

/// How many field lines a reply of this shape carries.
pub open spec fn field_count(body: Body) -> nat {
    match body {
        Body::Fields { count, .. } => count as nat,
        _ => 0,
    }
}

/// The field at position `i` of a reply of this shape is a decimal number.
pub open spec fn is_decimal_field(body: Body, i: int) -> bool {
    match body {
        Body::Fields { decimal_from, decimal_to, .. } => decimal_from <= i < decimal_to,
        _ => false,
    }
}

/// The phase that follows an accepted status line.
pub open spec fn after_status(body: Body) -> Phase {
    match body {
        Body::Block => Phase::Block,
        Body::Fields { count, .. } => if count == 0 {
            Phase::Block
        } else {
            Phase::Field
        },
        Body::Scan => Phase::Timestamp,
    }
}

/// An exchange before its first line.
pub open spec fn initial(command: Seq<u8>, expected: Seq<u8>, sends: bool, body: Body) -> ExchangeView {
    ExchangeView {
        command,
        expected,
        sends,
        body,
        phase: Phase::Echo,
        fields: Seq::empty(),
        time_stamp: 0,
        block: Seq::empty(),
    }
}

/// The error that `line` causes in state `v`, if it causes one.
pub open spec fn step_error(v: ExchangeView, line: Seq<u8>) -> Option<ErrorView> {
    match v.phase {
        Phase::Echo => if is_closed(line) {
            Some(ErrorView::ConnectionClosed)
        } else if echo_content(line) != v.command {
            Some(ErrorView::EchoMismatch { sent: v.command, received: echo_content(line) })
        } else {
            None
        },
        Phase::Status => if is_closed(line) {
            Some(ErrorView::ConnectionClosed)
        } else if line_content(line) != v.expected {
            Some(
                ErrorView::StatusMismatch {
                    command: v.command,
                    expected: v.expected,
                    received: line_content(line),
                },
            )
        } else {
            None
        },
        Phase::Field => match field_outcome(line) {
            Err(e) => Some(e),
            Ok(f) => if is_decimal_field(v.body, v.fields.len() as int) && !is_decimal_u32(f) {
                Some(ErrorView::MalformedField { field: f })
            } else {
                None
            },
        },
        Phase::Timestamp => match timestamp_outcome(line) {
            Err(e) => Some(e),
            Ok(_) => None,
        },
        Phase::Block => if is_closed(line) {
            Some(ErrorView::ConnectionClosed)
        } else {
            None
        },
        _ => None,
    }
}

/// The state after `line` is handed to an exchange in state `v`.
pub open spec fn step(v: ExchangeView, line: Seq<u8>) -> ExchangeView {
    if step_error(v, line) is Some {
        ExchangeView { phase: Phase::Failed, ..v }
    } else {
        match v.phase {
            Phase::Echo => ExchangeView { phase: Phase::Status, ..v },
            Phase::Status => ExchangeView { phase: after_status(v.body), ..v },
            Phase::Field => match field_outcome(line) {
                Ok(f) => {
                    let fields = v.fields.push(f);
                    ExchangeView {
                        fields,
                        phase: if fields.len() < field_count(v.body) {
                            Phase::Field
                        } else {
                            Phase::Block
                        },
                        ..v
                    }
                },
                Err(_) => v,
            },
            Phase::Timestamp => match timestamp_outcome(line) {
                Ok(t) => ExchangeView { time_stamp: t, phase: Phase::Block, ..v },
                Err(_) => v,
            },
            Phase::Block => if is_terminator(line) {
                ExchangeView { phase: Phase::Done, ..v }
            } else {
                ExchangeView { block: v.block + line_content(line), ..v }
            },
            _ => v,
        }
    }
}

/// The state after `lines` are handed over one by one; lines that come after
/// the exchange has ended are not taken.
pub open spec fn run(v: ExchangeView, lines: Seq<Seq<u8>>) -> ExchangeView
    decreases lines.len(),
{
    if lines.len() == 0 || !in_progress(v.phase) {
        v
    } else {
        run(step(v, lines[0]), lines.drop_first())
    }
}

/// The field lines read agree with the shape of the reply and its phase.
pub open spec fn wf(v: ExchangeView) -> bool {
    &&& v.fields.len() <= field_count(v.body)
    &&& forall|i: int|
        0 <= i < v.fields.len() && is_decimal_field(v.body, i) ==> is_decimal_u32(
            #[trigger] v.fields[i],
        )
    &&& (v.phase == Phase::Field ==> v.fields.len() < field_count(v.body))
    &&& ((v.phase == Phase::Echo || v.phase == Phase::Status) ==> v.fields.len() == 0)
    &&& ((v.phase == Phase::Timestamp || v.phase == Phase::Block || v.phase == Phase::Done)
        ==> v.fields.len() == field_count(v.body))
}

impl Exchange {
    #[verifier::type_invariant]
    spec fn inv(&self) -> bool {
        wf(self@)
    }

    /// An exchange whose command is written first and then answered.
    pub fn send(command: Vec<u8>, expected: Vec<u8>, body: Body) -> (r: Exchange)
        ensures
            r@ == initial(command@, expected@, true, body),
    {
        let r = Exchange {
            command,
            expected,
            sends: true,
            body,
            phase: Phase::Echo,
            fields: Vec::new(),
            time_stamp: 0,
            block: Vec::new(),
        };
        assert(r@.fields =~= Seq::<Seq<u8>>::empty());
        r
    }

    /// An exchange that only checks the answer to a command sent earlier.
    pub fn verify_only(command: Vec<u8>, expected: Vec<u8>, body: Body) -> (r: Exchange)
        ensures
            r@ == initial(command@, expected@, false, body),
    {
        let r = Exchange {
            command,
            expected,
            sends: false,
            body,
            phase: Phase::Echo,
            fields: Vec::new(),
            time_stamp: 0,
            block: Vec::new(),
        };
        assert(r@.fields =~= Seq::<Seq<u8>>::empty());
        r
    }

    /// The bytes to write before the first line is read: the command and a
    /// newline, or nothing when the command was sent earlier.
    pub fn outgoing(&self) -> (r: Option<Vec<u8>>)
        ensures
            match r {
                Some(b) => self@.sends && b@ == self@.command.push(0x0A),
                None => !self@.sends,
            },
    {
        if self.sends {
            let mut out: Vec<u8> = Vec::new();
            append_bytes(&mut out, self.command.as_slice());
            out.push(0x0A);
            Some(out)
        } else {
            None
        }
    }

    pub fn body(&self) -> (r: Body)
        ensures
            r == self@.body,
    {
        self.body
    }

    pub fn phase(&self) -> (r: Phase)
        ensures
            r == self@.phase,
    {
        self.phase
    }

    /// The values of the field lines read so far.
    pub fn fields(&self) -> (r: &Vec<Vec<u8>>)
        ensures
            r@.map_values(|f: Vec<u8>| f@) == self@.fields,
            wf(self@),
    {
        proof {
            use_type_invariant(self);
        }
        &self.fields
    }

    pub fn time_stamp(&self) -> (r: u32)
        ensures
            r == self@.time_stamp,
    {
        self.time_stamp
    }

    /// The concatenated contents of the block lines read so far.
    pub fn block(&self) -> (r: &Vec<u8>)
        ensures
            r@ == self@.block,
    {
        &self.block
    }

    /// Hands the next received line to the exchange.
    pub fn feed(&mut self, line: &[u8]) -> (r: Progress)
        requires
            in_progress(old(self)@.phase),
        ensures
            final(self)@ == step(old(self)@, line@),
            match r {
                Progress::NeedLine => in_progress(final(self)@.phase),
                Progress::Complete => final(self)@.phase == Phase::Done,
                Progress::Failed(e) => final(self)@.phase == Phase::Failed && step_error(
                    old(self)@,
                    line@,
                ) == Some(e@),
            },
    {
        proof {
            use_type_invariant(&*self);
        }
        match self.phase {
            Phase::Echo => {
                if line.len() == 0 {
                    self.phase = Phase::Failed;
                    return Progress::Failed(UrgError::ConnectionClosed);
                }
                let echo = echo_of(line);
                if !bytes_eq(echo.as_slice(), self.command.as_slice()) {
                    self.phase = Phase::Failed;
                    let sent = vstd::slice::slice_to_vec(self.command.as_slice());
                    return Progress::Failed(UrgError::EchoMismatch { sent, received: echo });
                }
                self.phase = Phase::Status;
                Progress::NeedLine
            },
            Phase::Status => {
                if line.len() == 0 {
                    self.phase = Phase::Failed;
                    return Progress::Failed(UrgError::ConnectionClosed);
                }
                let status = content_of(line);
                if !bytes_eq(status.as_slice(), self.expected.as_slice()) {
                    self.phase = Phase::Failed;
                    let command = vstd::slice::slice_to_vec(self.command.as_slice());
                    let expected = vstd::slice::slice_to_vec(self.expected.as_slice());
                    return Progress::Failed(
                        UrgError::StatusMismatch { command, expected, received: status },
                    );
                }
                self.phase = match self.body {
                    Body::Block => Phase::Block,
                    Body::Fields { count, .. } => if count == 0 {
                        Phase::Block
                    } else {
                        Phase::Field
                    },
                    Body::Scan => Phase::Timestamp,
                };
                Progress::NeedLine
            },
            Phase::Field => {
                match field_value(line) {
                    Err(e) => {
                        self.phase = Phase::Failed;
                        Progress::Failed(e)
                    },
                    Ok(f) => {
                        let (count, decimal_from, decimal_to): (usize, usize, usize) = match self.body {
                            Body::Fields { count, decimal_from, decimal_to } => (
                                count,
                                decimal_from,
                                decimal_to,
                            ),
                            _ => (0, 0, 0),
                        };
                        let at = self.fields.len();
                        if decimal_from <= at && at < decimal_to {
                            if let Err(e) = decode_decimal_field(f.as_slice()) {
                                self.phase = Phase::Failed;
                                return Progress::Failed(e);
                            }
                        }
                        let ghost old_fields = self@.fields;
                        let ghost fv = f@;
                        assert(is_decimal_field(self@.body, at as int) ==> is_decimal_u32(fv));
                        let mut fields: Vec<Vec<u8>> = Vec::new();
                        std::mem::swap(&mut fields, &mut self.fields);
                        fields.push(f);
                        proof {
                            let new_fields = fields@.map_values(|f: Vec<u8>| f@);
                            assert(new_fields =~= old_fields.push(fv));
                            assert forall|i: int|
                                0 <= i < new_fields.len() && is_decimal_field(self@.body, i)
                                    implies is_decimal_u32(#[trigger] new_fields[i]) by {
                                if i < old_fields.len() {
                                    assert(new_fields[i] == old_fields[i]);
                                }
                            }
                        }
                        let next = if fields.len() < count {
                            Phase::Field
                        } else {
                            Phase::Block
                        };
                        // Park the phase where any number of fields is allowed
                        // while the fields are put back.
                        self.phase = Phase::Failed;
                        self.fields = fields;
                        self.phase = next;
                        assert(self@.fields =~= old_fields.push(fv));
                        Progress::NeedLine
                    },
                }
            },
            Phase::Timestamp => {
                match timestamp_field(line) {
                    Err(e) => {
                        self.phase = Phase::Failed;
                        Progress::Failed(e)
                    },
                    Ok(t) => {
                        self.time_stamp = t;
                        self.phase = Phase::Block;
                        Progress::NeedLine
                    },
                }
            },
            Phase::Block => {
                if line.len() == 0 {
                    self.phase = Phase::Failed;
                    return Progress::Failed(UrgError::ConnectionClosed);
                }
                if line.len() == 1 {
                    self.phase = Phase::Done;
                    return Progress::Complete;
                }
                let content = content_of(line);
                let mut block: Vec<u8> = Vec::new();
                std::mem::swap(&mut block, &mut self.block);
                append_bytes(&mut block, content.as_slice());
                self.block = block;
                Progress::NeedLine
            },
            _ => Progress::NeedLine,
        }
    }
}

/// The contents of `lines`, one after another.
pub open spec fn joined_contents(lines: Seq<Seq<u8>>) -> Seq<u8>
    decreases lines.len(),
{
    if lines.len() == 0 {
        Seq::empty()
    } else {
        line_content(lines[0]) + joined_contents(lines.drop_first())
    }
}

/// When the first line of a reply does not echo the command, the exchange
/// fails on that line with `EchoMismatch`, and takes no later line: no field,
/// timestamp or block byte is read.
pub proof fn lemma_echo_mismatch(
    command: Seq<u8>,
    expected: Seq<u8>,
    sends: bool,
    body: Body,
    lines: Seq<Seq<u8>>,
)
    requires
        lines.len() >= 1,
        !is_closed(lines[0]),
        echo_content(lines[0]) != command,
    ensures
        step_error(initial(command, expected, sends, body), lines[0]) == Some(
            ErrorView::EchoMismatch { sent: command, received: echo_content(lines[0]) },
        ),
        run(initial(command, expected, sends, body), lines) == (ExchangeView {
            phase: Phase::Failed,
            ..initial(command, expected, sends, body)
        }),
{
    let v = initial(command, expected, sends, body);
    let failed = step(v, lines[0]);
    assert(run(failed, lines.drop_first()) == failed);
}

/// Inside a block, lines of content followed by a terminator complete the
/// exchange; the block gains the contents of those lines, without their
/// checksum bytes and newlines.
pub proof fn lemma_block_reassembly(v: ExchangeView, data: Seq<Seq<u8>>, terminator: Seq<u8>)
    requires
        v.phase == Phase::Block,
        forall|i: int| 0 <= i < data.len() ==> (#[trigger] data[i]).len() >= 2,
        is_terminator(terminator),
    ensures
        run(v, data.push(terminator)) == (ExchangeView {
            phase: Phase::Done,
            block: v.block + joined_contents(data),
            ..v
        }),
    decreases data.len(),
{
    let lines = data.push(terminator);
    if data.len() == 0 {
        assert(lines[0] == terminator);
        assert(run(v, lines) == run(step(v, terminator), lines.drop_first()));
        assert(lines.drop_first() =~= Seq::<Seq<u8>>::empty());
        assert(v.block + joined_contents(data) =~= v.block);
    } else {
        let rest = data.drop_first();
        assert(lines.drop_first() =~= rest.push(terminator));
        assert(lines[0] == data[0]);
        let next = step(v, data[0]);
        assert(next == ExchangeView { block: v.block + line_content(data[0]), ..v });
        assert forall|i: int| 0 <= i < rest.len() implies (#[trigger] rest[i]).len() >= 2 by {
            assert(rest[i] == data[i + 1]);
        }
        lemma_block_reassembly(next, rest, terminator);
        assert(v.block + line_content(data[0]) + joined_contents(rest) =~= v.block
            + joined_contents(data));
    }
}

/// The values of tagged field lines.
pub open spec fn field_values(lines: Seq<Seq<u8>>) -> Seq<Seq<u8>> {
    lines.map_values(|l: Seq<u8>| tag_value(line_content(l)))
}

/// A field line that can be read: something was read, and its content is
/// long enough for a tag.
pub open spec fn is_field_line(line: Seq<u8>) -> bool {
    !is_closed(line) && is_tagged(line_content(line))
}

/// Field lines that an exchange accepts from position `at` on: each can be
/// read, and those at decimal positions hold decimal numerals of 32 bits.
pub open spec fn accepted_fields(body: Body, at: int, lines: Seq<Seq<u8>>) -> bool {
    forall|i: int|
        0 <= i < lines.len() ==> is_field_line(#[trigger] lines[i]) && (is_decimal_field(
            body,
            at + i,
        ) ==> is_decimal_u32(tag_value(line_content(lines[i]))))
}

proof fn lemma_field_lines(v: ExchangeView, lines: Seq<Seq<u8>>, rest: Seq<Seq<u8>>)
    requires
        v.phase == Phase::Field,
        v.fields.len() < field_count(v.body),
        v.fields.len() + lines.len() <= field_count(v.body),
        accepted_fields(v.body, v.fields.len() as int, lines),
    ensures
        run(v, lines + rest) == run(
            ExchangeView {
                fields: v.fields + field_values(lines),
                phase: if v.fields.len() + lines.len() < field_count(v.body) {
                    Phase::Field
                } else {
                    Phase::Block
                },
                ..v
            },
            rest,
        ),
    decreases lines.len(),
{
    let all = lines + rest;
    if lines.len() == 0 {
        assert(all =~= rest);
        assert(v.fields + field_values(lines) =~= v.fields);
        return;
    }
    let next = step(v, lines[0]);
    assert(all[0] == lines[0]);
    assert(next.fields == v.fields.push(tag_value(line_content(lines[0]))));
    assert(run(v, all) == run(next, all.drop_first()));
    let tail = lines.drop_first();
    assert(all.drop_first() =~= tail + rest);
    if lines.len() == 1 {
        assert(tail + rest =~= rest);
        assert(v.fields.push(tag_value(line_content(lines[0]))) =~= v.fields + field_values(lines));
    } else {
        assert forall|i: int| 0 <= i < tail.len() implies is_field_line(#[trigger] tail[i]) && (
        is_decimal_field(v.body, next.fields.len() + i) ==> is_decimal_u32(
            tag_value(line_content(tail[i])),
        )) by {
            assert(tail[i] == lines[i + 1]);
        }
        lemma_field_lines(next, tail, rest);
        assert(next.fields + field_values(tail) =~= v.fields + field_values(lines));
    }
}

/// A query reply made of the echo of the command, the expected status, as
/// many field lines as the reply has fields, each readable and decimal where
/// the shape asks for a number, lines of data and a terminator completes the
/// exchange, with the values of those fields and the contents of the data
/// lines as block.
pub proof fn lemma_fields_reply(
    command: Seq<u8>,
    expected: Seq<u8>,
    sends: bool,
    body: Body,
    echo: Seq<u8>,
    status: Seq<u8>,
    fields: Seq<Seq<u8>>,
    data: Seq<Seq<u8>>,
    terminator: Seq<u8>,
)
    requires
        body is Fields,
        !is_closed(echo),
        echo_content(echo) == command,
        !is_closed(status),
        line_content(status) == expected,
        fields.len() == field_count(body),
        accepted_fields(body, 0, fields),
        forall|i: int| 0 <= i < data.len() ==> (#[trigger] data[i]).len() >= 2,
        is_terminator(terminator),
    ensures
        run(initial(command, expected, sends, body), seq![echo, status] + fields + data.push(terminator))
            == (ExchangeView {
            phase: Phase::Done,
            fields: field_values(fields),
            block: joined_contents(data),
            ..initial(command, expected, sends, body)
        }),
{
    let v0 = initial(command, expected, sends, body);
    let lines = seq![echo, status] + fields + data.push(terminator);
    let v1 = step(v0, echo);
    let v2 = step(v1, status);
    let after = lines.drop_first().drop_first();
    assert(lines[0] == echo);
    assert(lines.drop_first()[0] == status);
    assert(after =~= fields + data.push(terminator));
    assert(run(v0, lines) == run(v1, lines.drop_first()));
    assert(run(v1, lines.drop_first()) == run(v2, after));
    let v3 = ExchangeView { fields: field_values(fields), phase: Phase::Block, ..v0 };
    if field_count(body) == 0 {
        assert(fields =~= Seq::<Seq<u8>>::empty());
        assert(after =~= data.push(terminator));
        assert(field_values(fields) =~= Seq::<Seq<u8>>::empty());
        assert(v2 == v3);
    } else {
        lemma_field_lines(v2, fields, data.push(terminator));
        assert(v2.fields + field_values(fields) =~= field_values(fields));
    }
    lemma_block_reassembly(v3, data, terminator);
    assert(Seq::<u8>::empty() + joined_contents(data) =~= joined_contents(data));
}

/// In a query reply, the first field line at a decimal position whose value
/// is no decimal numeral of 32 bits fails the exchange with
/// `MalformedField`, and no later line is taken: the exchange keeps the
/// fields before it.
pub proof fn lemma_bad_number_field(
    command: Seq<u8>,
    expected: Seq<u8>,
    sends: bool,
    body: Body,
    echo: Seq<u8>,
    status: Seq<u8>,
    good: Seq<Seq<u8>>,
    bad: Seq<u8>,
    rest: Seq<Seq<u8>>,
)
    requires
        body is Fields,
        !is_closed(echo),
        echo_content(echo) == command,
        !is_closed(status),
        line_content(status) == expected,
        good.len() < field_count(body),
        accepted_fields(body, 0, good),
        is_field_line(bad),
        is_decimal_field(body, good.len() as int),
        !is_decimal_u32(tag_value(line_content(bad))),
    ensures
        step_error(
            ExchangeView {
                fields: field_values(good),
                phase: Phase::Field,
                ..initial(command, expected, sends, body)
            },
            bad,
        ) == Some(ErrorView::MalformedField { field: tag_value(line_content(bad)) }),
        run(initial(command, expected, sends, body), seq![echo, status] + good + seq![bad] + rest)
            == (ExchangeView {
            phase: Phase::Failed,
            fields: field_values(good),
            ..initial(command, expected, sends, body)
        }),
{
    let v0 = initial(command, expected, sends, body);
    let lines = seq![echo, status] + good + seq![bad] + rest;
    let v1 = step(v0, echo);
    let v2 = step(v1, status);
    let after = lines.drop_first().drop_first();
    assert(lines[0] == echo);
    assert(lines.drop_first()[0] == status);
    assert(after =~= good + (seq![bad] + rest));
    assert(run(v0, lines) == run(v1, lines.drop_first()));
    assert(run(v1, lines.drop_first()) == run(v2, after));
    assert(v2.phase == Phase::Field);
    lemma_field_lines(v2, good, seq![bad] + rest);
    let vk = ExchangeView { fields: field_values(good), phase: Phase::Field, ..v0 };
    assert(v2.fields + field_values(good) =~= field_values(good));
    let tail = seq![bad] + rest;
    assert(tail[0] == bad);
    let failed = step(vk, bad);
    assert(failed == ExchangeView { phase: Phase::Failed, ..vk });
    assert(run(vk, tail) == run(failed, tail.drop_first()));
    assert(run(failed, tail.drop_first()) == failed);
}

/// A scan reply made of the echo of the command, the expected status, a
/// timestamp line, lines of data and a terminator completes the exchange,
/// with the decoded timestamp and the contents of the data lines as block.
pub proof fn lemma_scan_reply(
    command: Seq<u8>,
    expected: Seq<u8>,
    sends: bool,
    echo: Seq<u8>,
    status: Seq<u8>,
    stamp: Seq<u8>,
    data: Seq<Seq<u8>>,
    terminator: Seq<u8>,
)
    requires
        !is_closed(echo),
        echo_content(echo) == command,
        !is_closed(status),
        line_content(status) == expected,
        is_timestamp_line(stamp),
        forall|i: int| 0 <= i < data.len() ==> (#[trigger] data[i]).len() >= 2,
        is_terminator(terminator),
    ensures
        run(
            initial(command, expected, sends, Body::Scan),
            seq![echo, status, stamp] + data.push(terminator),
        ) == (ExchangeView {
            phase: Phase::Done,
            time_stamp: decode6_spec(line_content(stamp)) as u32,
            block: joined_contents(data),
            ..initial(command, expected, sends, Body::Scan)
        }),
{
    let v0 = initial(command, expected, sends, Body::Scan);
    let lines = seq![echo, status, stamp] + data.push(terminator);
    let v1 = step(v0, echo);
    let v2 = step(v1, status);
    let v3 = step(v2, stamp);
    assert(lines[0] == echo);
    assert(lines.drop_first()[0] == status);
    assert(lines.drop_first().drop_first()[0] == stamp);
    assert(lines.drop_first().drop_first().drop_first() =~= data.push(terminator));
    assert(v1.phase == Phase::Status);
    assert(v2.phase == Phase::Timestamp);
    assert(v3 == ExchangeView {
        time_stamp: decode6_spec(line_content(stamp)) as u32,
        phase: Phase::Block,
        ..v0
    });
    assert(run(v0, lines) == run(v1, lines.drop_first()));
    assert(run(v1, lines.drop_first()) == run(v2, lines.drop_first().drop_first()));
    assert(run(v2, lines.drop_first().drop_first()) == run(
        v3,
        lines.drop_first().drop_first().drop_first(),
    ));
    lemma_block_reassembly(v3, data, terminator);
    assert(Seq::<u8>::empty() + joined_contents(data) =~= joined_contents(data));
}

} // verus!
