//! The read side: per-record parsers, the event builder, and the [`Reader`]
//! that turns a sequence of record lines into events.

use vstd::prelude::*;
use vstd::string::*;

use crate::event::{
    flow_wf, lemma_flow_insert_wf, name_ok, spec_energy_unit_of, spec_flow_insert,
    spec_length_unit_of, spec_default_event, wf_event, wf_float, wf_particle, wf_vertex,
    CrossSection, CrossSectionModel, EnergyUnit, Event, EventModel, FlowMap, FourVector,
    FourVectorModel, HeavyIonInfo, HeavyIonInfoModel, LengthUnit, Particle, ParticleModel,
    PdfInfo, PdfInfoModel, Vertex, VertexModel,
};
use crate::tokens::{
    check_float_token, is_ws_char, dec_val, i32_token_val, parse_i32_token, parse_u64_token, spec_take_quoted,
    spec_take_token, take_quoted, take_token, valid_float_token, valid_i32_token, valid_u64_token,
};

verus! {

// ---------------------------------------------------------------------------
// errors
// ---------------------------------------------------------------------------

/// Why a line could not be parsed.
#[derive(Debug, PartialEq, Eq, Clone)]
pub enum ParseError {
    /// Failure of the underlying byte stream; raised by embedding readers,
    /// never by the line parsers themselves.
    Io(String),
    /// A token did not match the expected shape; holds the unparsed rest of
    /// the line from the field that failed.
    Parse(String),
    /// A list count does not fit the platform's size type.
    ConvertInt,
    /// A numeric text field could not be converted by an embedding
    /// application; never raised by the line parsers themselves.
    ConvertFloat,
    /// An unrecognized unit token.
    BadUnit,
    /// A line with an unrecognized leading character.
    BadPrefix,
    /// A particle record arrived before any vertex record.
    NoVertex,
}

#[verifier::ext_equal]
pub ghost enum ParseErrorModel {
    Io(Seq<char>),
    Parse(Seq<char>),
    ConvertInt,
    ConvertFloat,
    BadUnit,
    BadPrefix,
    NoVertex,
}

impl View for ParseError {
    type V = ParseErrorModel;

    open spec fn view(&self) -> ParseErrorModel {
        match self {
            ParseError::Io(s) => ParseErrorModel::Io(s@),
            ParseError::Parse(s) => ParseErrorModel::Parse(s@),
            ParseError::ConvertInt => ParseErrorModel::ConvertInt,
            ParseError::ConvertFloat => ParseErrorModel::ConvertFloat,
            ParseError::BadUnit => ParseErrorModel::BadUnit,
            ParseError::BadPrefix => ParseErrorModel::BadPrefix,
            ParseError::NoVertex => ParseErrorModel::NoVertex,
        }
    }
}

/// A parse error together with the offending line and its 1-based number.
#[derive(Debug, PartialEq, Eq, Clone)]
pub struct LineParseError {
    /// The actual error.
    pub err: ParseError,
    /// The line where the error occurred.
    pub line: String,
    /// The line number where the error occurred.
    pub line_nr: usize,
}

#[verifier::ext_equal]
pub ghost struct LineParseErrorModel {
    pub err: ParseErrorModel,
    pub line: Seq<char>,
    pub line_nr: int,
}

impl View for LineParseError {
    type V = LineParseErrorModel;

    open spec fn view(&self) -> LineParseErrorModel {
        LineParseErrorModel { err: self.err@, line: self.line@, line_nr: self.line_nr as int }
    }
}

/// The diagnostic text of a parse error.
pub open spec fn spec_error_message(e: ParseErrorModel) -> Seq<char> {
    match e {
        ParseErrorModel::Io(s) => "I/O error: "@ + s,
        ParseErrorModel::Parse(s) => "Parsing error: "@ + s,
        ParseErrorModel::ConvertInt => "Integer conversion error"@,
        ParseErrorModel::ConvertFloat => "Float conversion error"@,
        ParseErrorModel::BadUnit => "Unrecognized unit"@,
        ParseErrorModel::BadPrefix => "Unrecognized prefix"@,
        ParseErrorModel::NoVertex => "Tried to add particle without vertex"@,
    }
}

impl ParseError {
    /// A human-readable diagnostic for this error.
    pub fn message(&self) -> (r: String)
        ensures
            r@ == spec_error_message(self@),
    {
        match self {
            ParseError::Io(s) => {
                let mut out = String::from_str("I/O error: ");
                out.append(s.as_str());
                out
            },
            ParseError::Parse(s) => {
                let mut out = String::from_str("Parsing error: ");
                out.append(s.as_str());
                out
            },
            ParseError::ConvertInt => String::from_str("Integer conversion error"),
            ParseError::ConvertFloat => String::from_str("Float conversion error"),
            ParseError::BadUnit => String::from_str("Unrecognized unit"),
            ParseError::BadPrefix => String::from_str("Unrecognized prefix"),
            ParseError::NoVertex => String::from_str("Tried to add particle without vertex"),
        }
    }
}

/// The diagnostic text of a parse error in context: the error, the 1-based
/// line number and the offending line.
pub open spec fn spec_line_error_message(e: LineParseErrorModel) -> Seq<char> {
    spec_error_message(e.err) + "\n in line "@ + crate::tokens::dec_digits(e.line_nr as nat)
        + ":\n"@ + e.line
}

impl LineParseError {
    /// A human-readable diagnostic carrying the offending line and number.
    pub fn message(&self) -> (r: String)
        ensures
            r@ == spec_line_error_message(self@),
    {
        let mut out = self.err.message();
        out.append("\n in line ");
        let nr = crate::tokens::usize_text(self.line_nr);
        out.append(nr.as_str());
        out.append(":\n");
        out.append(self.line.as_str());
        out
    }
}

/// The unparsed rest of a line from position `i` on.
pub open spec fn rest_of(s: Seq<char>, i: int) -> Seq<char> {
    s.subrange(i, s.len() as int)
}

fn rest_string(line: &str, i: usize) -> (r: String)
    requires
        i <= line@.len(),
    ensures
        r@ == rest_of(line@, i as int),
{
    let len = line.unicode_len();
    line.substring_char(i, len).to_owned()
}

// ---------------------------------------------------------------------------
// typed field readers over a line cursor
// ---------------------------------------------------------------------------

/// A signed 32-bit field: a separated token that is a valid numeral.
pub open spec fn tok_i32(s: Seq<char>, i: int) -> Option<(int, int)> {
    match spec_take_token(s, i) {
        None => None,
        Some((t, j)) => if valid_i32_token(t) {
            Some((i32_token_val(t), j))
        } else {
            None
        },
    }
}

/// An unsigned 64-bit field: a separated token that is a valid numeral.
pub open spec fn tok_u64(s: Seq<char>, i: int) -> Option<(nat, int)> {
    match spec_take_token(s, i) {
        None => None,
        Some((t, j)) => if valid_u64_token(t) {
            Some((dec_val(t), j))
        } else {
            None
        },
    }
}

/// A floating-point field: a separated token of floating-point shape, kept as
/// its text.
pub open spec fn tok_float(s: Seq<char>, i: int) -> Option<(Seq<char>, int)> {
    match spec_take_token(s, i) {
        None => None,
        Some((t, j)) => if valid_float_token(t) {
            Some((t, j))
        } else {
            None
        },
    }
}

fn read_i32_at(line: &str, i: usize) -> (r: Option<(i32, usize)>)
    requires
        i <= line@.len(),
    ensures
        match r {
            Some((v, j)) => tok_i32(line@, i as int) == Some((v as int, j as int)) && i < j
                <= line@.len(),
            None => tok_i32(line@, i as int) is None,
        },
{
    match take_token(line, i) {
        None => None,
        Some((t, j)) => match parse_i32_token(t.as_str()) {
            None => None,
            Some(v) => Some((v, j)),
        },
    }
}

fn read_u64_at(line: &str, i: usize) -> (r: Option<(u64, usize)>)
    requires
        i <= line@.len(),
    ensures
        match r {
            Some((v, j)) => tok_u64(line@, i as int) == Some((v as nat, j as int)) && i < j
                <= line@.len(),
            None => tok_u64(line@, i as int) is None,
        },
{
    match take_token(line, i) {
        None => None,
        Some((t, j)) => match parse_u64_token(t.as_str()) {
            None => None,
            Some(v) => Some((v, j)),
        },
    }
}

fn read_float_at(line: &str, i: usize) -> (r: Option<(String, usize)>)
    requires
        i <= line@.len(),
    ensures
        match r {
            Some((t, j)) => tok_float(line@, i as int) == Some((t@, j as int)) && i < j
                <= line@.len() && wf_float(t@),
            None => tok_float(line@, i as int) is None,
        },
{
    match take_token(line, i) {
        None => None,
        Some((t, j)) => if check_float_token(t.as_str()) {
            Some((t, j))
        } else {
            None
        },
    }
}

// ---------------------------------------------------------------------------
// count-prefixed lists
// ---------------------------------------------------------------------------

/// `n` signed integer fields in a row.
pub open spec fn tok_i32_list(s: Seq<char>, i: int, n: nat) -> Option<(Seq<int>, int)>
    decreases n,
{
    if n == 0 {
        Some((Seq::empty(), i))
    } else {
        match tok_i32(s, i) {
            None => None,
            Some((v, j)) => match tok_i32_list(s, j, (n - 1) as nat) {
                None => None,
                Some((vs, k)) => Some((seq![v] + vs, k)),
            },
        }
    }
}

/// `n` floating-point fields in a row, kept as their texts.
pub open spec fn tok_float_list(s: Seq<char>, i: int, n: nat) -> Option<(Seq<Seq<char>>, int)>
    decreases n,
{
    if n == 0 {
        Some((Seq::empty(), i))
    } else {
        match tok_float(s, i) {
            None => None,
            Some((t, j)) => match tok_float_list(s, j, (n - 1) as nat) {
                None => None,
                Some((ts, k)) => Some((seq![t] + ts, k)),
            },
        }
    }
}

/// `n` quoted strings in a row.
pub open spec fn tok_quoted_list(s: Seq<char>, i: int, n: nat) -> Option<(Seq<Seq<char>>, int)>
    decreases n,
{
    if n == 0 {
        Some((Seq::empty(), i))
    } else {
        match spec_take_quoted(s, i) {
            None => None,
            Some((t, j)) => match tok_quoted_list(s, j, (n - 1) as nat) {
                None => None,
                Some((ts, k)) => Some((seq![t] + ts, k)),
            },
        }
    }
}

/// `n` (flow index, flow value) integer pairs in a row, in reading order.
pub open spec fn tok_flow_list(s: Seq<char>, i: int, n: nat) -> Option<(Seq<(int, int)>, int)>
    decreases n,
{
    if n == 0 {
        Some((Seq::empty(), i))
    } else {
        match tok_i32(s, i) {
            None => None,
            Some((k0, j0)) => match tok_i32(s, j0) {
                None => None,
                Some((v0, j1)) => match tok_flow_list(s, j1, (n - 1) as nat) {
                    None => None,
                    Some((ps, k)) => Some((seq![(k0, v0)] + ps, k)),
                },
            },
        }
    }
}

/// Inserting the pairs one by one, in order, into an empty flow map.
pub open spec fn flow_fold(ps: Seq<(int, int)>) -> Seq<(int, int)>
    decreases ps.len(),
{
    if ps.len() == 0 {
        Seq::empty()
    } else {
        spec_flow_insert(flow_fold(ps.drop_last()), ps.last().0, ps.last().1)
    }
}

pub proof fn lemma_flow_fold_wf(ps: Seq<(int, int)>)
    ensures
        flow_wf(flow_fold(ps)),
    decreases ps.len(),
{
    if ps.len() == 0 {
    } else {
        lemma_flow_fold_wf(ps.drop_last());
        lemma_flow_insert_wf(flow_fold(ps.drop_last()), ps.last().0, ps.last().1);
    }
}

fn read_i32_list(line: &str, i: usize, n: u64) -> (r: Option<(Vec<i32>, usize)>)
    requires
        i <= line@.len(),
    ensures
        match r {
            Some((vs, j)) => tok_i32_list(line@, i as int, n as nat) == Some(
                (vs@.map_values(|x: i32| x as int), j as int),
            ) && j <= line@.len(),
            None => tok_i32_list(line@, i as int, n as nat) is None,
        },
{
    let ghost s = line@;
    let mut vs: Vec<i32> = Vec::new();
    let mut cur = i;
    let mut m: u64 = 0;
    proof {
        assert(vs@.map_values(|x: i32| x as int) =~= Seq::<int>::empty());
    }
    loop
        invariant
            m <= n,
            i <= cur <= s.len(),
            s == line@,
            match tok_i32_list(s, cur as int, (n - m) as nat) {
                None => tok_i32_list(s, i as int, n as nat) is None,
                Some((rest, k)) => tok_i32_list(s, i as int, n as nat) == Some(
                    (vs@.map_values(|x: i32| x as int) + rest, k),
                ),
            },
        ensures
            m == n,
            cur <= s.len(),
            match tok_i32_list(s, cur as int, 0) {
                None => tok_i32_list(s, i as int, n as nat) is None,
                Some((rest, k)) => tok_i32_list(s, i as int, n as nat) == Some(
                    (vs@.map_values(|x: i32| x as int) + rest, k),
                ),
            },
        decreases n - m,
    {
        if m == n {
            break ;
        }
        let ghost pre = vs@.map_values(|x: i32| x as int);
        match read_i32_at(line, cur) {
            None => {
                return None;
            },
            Some((v, j)) => {
                vs.push(v);
                proof {
                    assert(vs@.map_values(|x: i32| x as int) =~= pre + seq![v as int]);
                    assert(forall|rest: Seq<int>|
                        (pre + seq![v as int]) + rest =~= pre + (seq![v as int] + rest));
                }
                cur = j;
            },
        }
        m = m + 1;
    }
    proof {
        assert(tok_i32_list(s, cur as int, 0) == Some((Seq::<int>::empty(), cur as int)));
        assert(vs@.map_values(|x: i32| x as int) + Seq::<int>::empty() =~= vs@.map_values(
            |x: i32| x as int,
        ));
    }
    Some((vs, cur))
}

fn read_float_list(line: &str, i: usize, n: u64) -> (r: Option<(Vec<String>, usize)>)
    requires
        i <= line@.len(),
    ensures
        match r {
            Some((ts, j)) => tok_float_list(line@, i as int, n as nat) == Some(
                (ts.deep_view(), j as int),
            ) && j <= line@.len() && (forall|m: int|
                0 <= m < ts.deep_view().len() ==> wf_float(#[trigger] ts.deep_view()[m])),
            None => tok_float_list(line@, i as int, n as nat) is None,
        },
{
    let ghost s = line@;
    let mut ts: Vec<String> = Vec::new();
    let mut cur = i;
    let mut m: u64 = 0;
    proof {
        assert(ts.deep_view() =~= Seq::<Seq<char>>::empty());
    }
    loop
        invariant
            m <= n,
            i <= cur <= s.len(),
            s == line@,
            forall|q: int| 0 <= q < ts.deep_view().len() ==> wf_float(#[trigger] ts.deep_view()[q]),
            match tok_float_list(s, cur as int, (n - m) as nat) {
                None => tok_float_list(s, i as int, n as nat) is None,
                Some((rest, k)) => tok_float_list(s, i as int, n as nat) == Some(
                    (ts.deep_view() + rest, k),
                ),
            },
        ensures
            m == n,
            cur <= s.len(),
            forall|q: int| 0 <= q < ts.deep_view().len() ==> wf_float(#[trigger] ts.deep_view()[q]),
            match tok_float_list(s, cur as int, 0) {
                None => tok_float_list(s, i as int, n as nat) is None,
                Some((rest, k)) => tok_float_list(s, i as int, n as nat) == Some(
                    (ts.deep_view() + rest, k),
                ),
            },
        decreases n - m,
    {
        if m == n {
            break ;
        }
        let ghost pre = ts.deep_view();
        match read_float_at(line, cur) {
            None => {
                return None;
            },
            Some((t, j)) => {
                let ghost tv = t@;
                ts.push(t);
                proof {
                    assert(ts.deep_view() =~= pre + seq![tv]);
                    assert(forall|rest: Seq<Seq<char>>|
                        (pre + seq![tv]) + rest =~= pre + (seq![tv] + rest));
                }
                cur = j;
            },
        }
        m = m + 1;
    }
    proof {
        assert(tok_float_list(s, cur as int, 0) == Some((Seq::<Seq<char>>::empty(), cur as int)));
        assert(ts.deep_view() + Seq::<Seq<char>>::empty() =~= ts.deep_view());
    }
    Some((ts, cur))
}

fn read_quoted_list(line: &str, i: usize, n: u64) -> (r: Option<(Vec<String>, usize)>)
    requires
        i <= line@.len(),
    ensures
        match r {
            Some((ts, j)) => tok_quoted_list(line@, i as int, n as nat) == Some(
                (ts.deep_view(), j as int),
            ) && j <= line@.len() && (forall|q: int|
                0 <= q < ts.deep_view().len() ==> name_ok(#[trigger] ts.deep_view()[q])),
            None => tok_quoted_list(line@, i as int, n as nat) is None,
        },
{
    let ghost s = line@;
    let mut ts: Vec<String> = Vec::new();
    let mut cur = i;
    let mut m: u64 = 0;
    proof {
        assert(ts.deep_view() =~= Seq::<Seq<char>>::empty());
    }
    loop
        invariant
            m <= n,
            i <= cur <= s.len(),
            s == line@,
            forall|q: int| 0 <= q < ts.deep_view().len() ==> name_ok(#[trigger] ts.deep_view()[q]),
            match tok_quoted_list(s, cur as int, (n - m) as nat) {
                None => tok_quoted_list(s, i as int, n as nat) is None,
                Some((rest, k)) => tok_quoted_list(s, i as int, n as nat) == Some(
                    (ts.deep_view() + rest, k),
                ),
            },
        ensures
            m == n,
            cur <= s.len(),
            forall|q: int| 0 <= q < ts.deep_view().len() ==> name_ok(#[trigger] ts.deep_view()[q]),
            match tok_quoted_list(s, cur as int, 0) {
                None => tok_quoted_list(s, i as int, n as nat) is None,
                Some((rest, k)) => tok_quoted_list(s, i as int, n as nat) == Some(
                    (ts.deep_view() + rest, k),
                ),
            },
        decreases n - m,
    {
        if m == n {
            break ;
        }
        let ghost pre = ts.deep_view();
        match take_quoted(line, cur) {
            None => {
                return None;
            },
            Some((t, j)) => {
                let ghost tv = t@;
                ts.push(t);
                proof {
                    assert(ts.deep_view() =~= pre + seq![tv]);
                    assert(forall|rest: Seq<Seq<char>>|
                        (pre + seq![tv]) + rest =~= pre + (seq![tv] + rest));
                }
                cur = j;
            },
        }
        m = m + 1;
    }
    proof {
        assert(tok_quoted_list(s, cur as int, 0) == Some((Seq::<Seq<char>>::empty(), cur as int)));
        assert(ts.deep_view() + Seq::<Seq<char>>::empty() =~= ts.deep_view());
    }
    Some((ts, cur))
}

fn read_flows(line: &str, i: usize, n: u64) -> (r: Option<(FlowMap, usize)>)
    requires
        i <= line@.len(),
    ensures
        match r {
            Some((f, j)) => tok_flow_list(line@, i as int, n as nat) is Some && f@.pairs
                == flow_fold(tok_flow_list(line@, i as int, n as nat).unwrap().0) && j as int
                == tok_flow_list(line@, i as int, n as nat).unwrap().1 && j <= line@.len()
                && flow_wf(f@.pairs),
            None => tok_flow_list(line@, i as int, n as nat) is None,
        },
{
    let ghost s = line@;
    let mut f = FlowMap::new();
    let ghost mut acc: Seq<(int, int)> = Seq::empty();
    let mut cur = i;
    let mut m: u64 = 0;
    loop
        invariant
            m <= n,
            i <= cur <= s.len(),
            s == line@,
            f@.pairs == flow_fold(acc),
            flow_wf(f@.pairs),
            match tok_flow_list(s, cur as int, (n - m) as nat) {
                None => tok_flow_list(s, i as int, n as nat) is None,
                Some((rest, k)) => tok_flow_list(s, i as int, n as nat) == Some((acc + rest, k)),
            },
        ensures
            m == n,
            cur <= s.len(),
            f@.pairs == flow_fold(acc),
            flow_wf(f@.pairs),
            match tok_flow_list(s, cur as int, 0) {
                None => tok_flow_list(s, i as int, n as nat) is None,
                Some((rest, k)) => tok_flow_list(s, i as int, n as nat) == Some((acc + rest, k)),
            },
        decreases n - m,
    {
        if m == n {
            break ;
        }
        let (k0, j0) = match read_i32_at(line, cur) {
            None => {
                return None;
            },
            Some(p) => p,
        };
        let (v0, j1) = match read_i32_at(line, j0) {
            None => {
                return None;
            },
            Some(p) => p,
        };
        f.insert(k0, v0);
        proof {
            let pair = (k0 as int, v0 as int);
            assert((acc + seq![pair]).drop_last() =~= acc);
            assert((acc + seq![pair]).last() == pair);
            acc = acc + seq![pair];
            assert(f@.pairs == flow_fold(acc));
            assert(forall|rest: Seq<(int, int)>|
                (acc + rest =~= acc.drop_last() + (seq![pair] + rest)));
        }
        cur = j1;
        m = m + 1;
    }
    proof {
        assert(tok_flow_list(s, cur as int, 0) == Some((Seq::<(int, int)>::empty(), cur as int)));
        assert(acc + Seq::<(int, int)>::empty() =~= acc);
    }
    Some((f, cur))
}

// ---------------------------------------------------------------------------
// record parsers
// ---------------------------------------------------------------------------

/// What parsing an `E` line yields: the scalar fields, the random states and
/// the weights of a fresh event; the vertex count and the two beam tokens are
/// validated and discarded.
pub open spec fn spec_parse_event_line(s: Seq<char>) -> Result<EventModel, ParseErrorModel> {
    match tok_i32(s, 1) {
        None => Err(ParseErrorModel::Parse(rest_of(s, 1))),
        Some((number, i1)) => match tok_i32(s, i1) {
            None => Err(ParseErrorModel::Parse(rest_of(s, i1))),
            Some((mpi, i2)) => match tok_float(s, i2) {
                None => Err(ParseErrorModel::Parse(rest_of(s, i2))),
                Some((scale, i3)) => match tok_float(s, i3) {
                    None => Err(ParseErrorModel::Parse(rest_of(s, i3))),
                    Some((alpha_qcd, i4)) => match tok_float(s, i4) {
                        None => Err(ParseErrorModel::Parse(rest_of(s, i4))),
                        Some((alpha_qed, i5)) => match tok_i32(s, i5) {
                            None => Err(ParseErrorModel::Parse(rest_of(s, i5))),
                            Some((spid, i6)) => match tok_i32(s, i6) {
                                None => Err(ParseErrorModel::Parse(rest_of(s, i6))),
                                Some((spvtx, i7)) => match tok_u64(s, i7) {
                                    None => Err(ParseErrorModel::Parse(rest_of(s, i7))),
                                    Some((nvtx, i8)) => if nvtx > usize::MAX as nat {
                                        Err(ParseErrorModel::ConvertInt)
                                    } else {
                                        spec_parse_event_line_tail(
                                            s,
                                            i8,
                                            number,
                                            mpi,
                                            scale,
                                            alpha_qcd,
                                            alpha_qed,
                                            spid,
                                            spvtx,
                                        )
                                    },
                                },
                            },
                        },
                    },
                },
            },
        },
    }
}

/// The tail of an `E` line: two discarded beam tokens, the count-prefixed
/// random states and the count-prefixed weights.
pub open spec fn spec_parse_event_line_tail(
    s: Seq<char>,
    i8: int,
    number: int,
    mpi: int,
    scale: Seq<char>,
    alpha_qcd: Seq<char>,
    alpha_qed: Seq<char>,
    spid: int,
    spvtx: int,
) -> Result<EventModel, ParseErrorModel> {
    match spec_take_token(s, i8) {
        None => Err(ParseErrorModel::Parse(rest_of(s, i8))),
        Some((_beam1, i9)) => match spec_take_token(s, i9) {
            None => Err(ParseErrorModel::Parse(rest_of(s, i9))),
            Some((_beam2, i10)) => match tok_u64(s, i10) {
                None => Err(ParseErrorModel::Parse(rest_of(s, i10))),
                Some((nrand, i11)) => if nrand > usize::MAX as nat {
                    Err(ParseErrorModel::ConvertInt)
                } else {
                    match tok_i32_list(s, i11, nrand) {
                        None => Err(ParseErrorModel::Parse(rest_of(s, i11))),
                        Some((rands, i12)) => match tok_u64(s, i12) {
                            None => Err(ParseErrorModel::Parse(rest_of(s, i12))),
                            Some((nweights, i13)) => if nweights > usize::MAX as nat {
                                Err(ParseErrorModel::ConvertInt)
                            } else {
                                match tok_float_list(s, i13, nweights) {
                                    None => Err(ParseErrorModel::Parse(rest_of(s, i13))),
                                    Some((weights, _i14)) => Ok(
                                        EventModel {
                                            number,
                                            mpi,
                                            scale,
                                            alpha_qcd,
                                            alpha_qed,
                                            signal_process_id: spid,
                                            signal_process_vertex: spvtx,
                                            random_states: rands,
                                            weights,
                                            ..spec_default_event()
                                        },
                                    ),
                                }
                            },
                        },
                    }
                },
            },
        },
    }
}

/// Parse an `E` line into a fresh event with empty vertex and name lists,
/// default cross section, PDF info and units.
pub fn parse_event_line(line: &str) -> (r: Result<Event, ParseError>)
    requires
        line@.len() >= 1,
    ensures
        match (r, spec_parse_event_line(line@)) {
            (Ok(e), Ok(em)) => e@ == em && wf_event(e@),
            (Err(pe), Err(pm)) => pe@ == pm,
            _ => false,
        },
{
    let (number, i1) = match read_i32_at(line, 1) {
        Some(p) => p,
        None => {
            return Err(ParseError::Parse(rest_string(line, 1)));
        },
    };
    let (mpi, i2) = match read_i32_at(line, i1) {
        Some(p) => p,
        None => {
            return Err(ParseError::Parse(rest_string(line, i1)));
        },
    };
    let (scale, i3) = match read_float_at(line, i2) {
        Some(p) => p,
        None => {
            return Err(ParseError::Parse(rest_string(line, i2)));
        },
    };
    let (alpha_qcd, i4) = match read_float_at(line, i3) {
        Some(p) => p,
        None => {
            return Err(ParseError::Parse(rest_string(line, i3)));
        },
    };
    let (alpha_qed, i5) = match read_float_at(line, i4) {
        Some(p) => p,
        None => {
            return Err(ParseError::Parse(rest_string(line, i4)));
        },
    };
    let (signal_process_id, i6) = match read_i32_at(line, i5) {
        Some(p) => p,
        None => {
            return Err(ParseError::Parse(rest_string(line, i5)));
        },
    };
    let (signal_process_vertex, i7) = match read_i32_at(line, i6) {
        Some(p) => p,
        None => {
            return Err(ParseError::Parse(rest_string(line, i6)));
        },
    };
    let (nvtx, i8) = match read_u64_at(line, i7) {
        Some(p) => p,
        None => {
            return Err(ParseError::Parse(rest_string(line, i7)));
        },
    };
    if nvtx > usize::MAX as u64 {
        return Err(ParseError::ConvertInt);
    }
    let (_beam1, i9) = match take_token(line, i8) {
        Some(p) => p,
        None => {
            return Err(ParseError::Parse(rest_string(line, i8)));
        },
    };
    let (_beam2, i10) = match take_token(line, i9) {
        Some(p) => p,
        None => {
            return Err(ParseError::Parse(rest_string(line, i9)));
        },
    };
    let (nrand, i11) = match read_u64_at(line, i10) {
        Some(p) => p,
        None => {
            return Err(ParseError::Parse(rest_string(line, i10)));
        },
    };
    if nrand > usize::MAX as u64 {
        return Err(ParseError::ConvertInt);
    }
    let (random_states, i12) = match read_i32_list(line, i11, nrand) {
        Some(p) => p,
        None => {
            return Err(ParseError::Parse(rest_string(line, i11)));
        },
    };
    let (nweights, i13) = match read_u64_at(line, i12) {
        Some(p) => p,
        None => {
            return Err(ParseError::Parse(rest_string(line, i12)));
        },
    };
    if nweights > usize::MAX as u64 {
        return Err(ParseError::ConvertInt);
    }
    let (weights, _i14) = match read_float_list(line, i13, nweights) {
        Some(p) => p,
        None => {
            return Err(ParseError::Parse(rest_string(line, i13)));
        },
    };
    let e = Event {
        number,
        mpi,
        scale,
        alpha_qcd,
        alpha_qed,
        signal_process_id,
        signal_process_vertex,
        random_states,
        weights,
        weight_names: Vec::new(),
        vertices: Vec::new(),
        xs: CrossSection::default(),
        pdf_info: PdfInfo::default(),
        energy_unit: EnergyUnit::default(),
        length_unit: LengthUnit::default(),
        heavy_ion_info: None,
    };
    proof {
        crate::event::lemma_zero_text_wf();
        assert(e@.weight_names =~= Seq::<Seq<char>>::empty());
        assert(e@.vertices =~= Seq::<VertexModel>::empty());
        let em = spec_parse_event_line(line@)->Ok_0;
        assert(e@ =~~= em);
    }
    Ok(e)
}

/// What parsing a `V` line yields: the vertex appended to the event's vertex
/// list with empty particle lists; the orphan count and the outgoing-particle
/// count are validated and discarded.
pub open spec fn spec_parse_vertex_line(s: Seq<char>, e: EventModel) -> Result<
    EventModel,
    ParseErrorModel,
> {
    match tok_i32(s, 1) {
        None => Err(ParseErrorModel::Parse(rest_of(s, 1))),
        Some((barcode, i1)) => match tok_i32(s, i1) {
            None => Err(ParseErrorModel::Parse(rest_of(s, i1))),
            Some((status, i2)) => match tok_float(s, i2) {
                None => Err(ParseErrorModel::Parse(rest_of(s, i2))),
                Some((x, i3)) => match tok_float(s, i3) {
                    None => Err(ParseErrorModel::Parse(rest_of(s, i3))),
                    Some((y, i4)) => match tok_float(s, i4) {
                        None => Err(ParseErrorModel::Parse(rest_of(s, i4))),
                        Some((z, i5)) => match tok_float(s, i5) {
                            None => Err(ParseErrorModel::Parse(rest_of(s, i5))),
                            Some((t, i6)) => match tok_i32(s, i6) {
                                None => Err(ParseErrorModel::Parse(rest_of(s, i6))),
                                Some((_orphans, i7)) => match tok_u64(s, i7) {
                                    None => Err(ParseErrorModel::Parse(rest_of(s, i7))),
                                    Some((nout, i8)) => if nout > usize::MAX as nat {
                                        Err(ParseErrorModel::ConvertInt)
                                    } else {
                                        match tok_u64(s, i8) {
                                            None => Err(ParseErrorModel::Parse(rest_of(s, i8))),
                                            Some((nweights, i9)) => if nweights > usize::MAX as nat {
                                                Err(ParseErrorModel::ConvertInt)
                                            } else {
                                                match tok_float_list(s, i9, nweights) {
                                                    None => Err(
                                                        ParseErrorModel::Parse(rest_of(s, i9)),
                                                    ),
                                                    Some((weights, _i10)) => Ok(
                                                        EventModel {
                                                            vertices: e.vertices.push(
                                                                VertexModel {
                                                                    barcode,
                                                                    status,
                                                                    x,
                                                                    y,
                                                                    z,
                                                                    t,
                                                                    weights,
                                                                    particles_in: Seq::empty(),
                                                                    particles_out: Seq::empty(),
                                                                },
                                                            ),
                                                            ..e
                                                        },
                                                    ),
                                                }
                                            },
                                        }
                                    },
                                },
                            },
                        },
                    },
                },
            },
        },
    }
}

/// Parse a `V` line and append the vertex to the event; it becomes the
/// current vertex for the particle records that follow.
pub fn parse_vertex_line(line: &str, event: &mut Event) -> (r: Result<(), ParseError>)
    requires
        line@.len() >= 1,
    ensures
        match (r, spec_parse_vertex_line(line@, old(event)@)) {
            (Ok(()), Ok(em)) => final(event)@ == em && (wf_event(old(event)@) ==> wf_event(
                final(event)@,
            )),
            (Err(pe), Err(pm)) => pe@ == pm && final(event)@ == old(event)@,
            _ => false,
        },
{
    let (barcode, i1) = match read_i32_at(line, 1) {
        Some(p) => p,
        None => {
            return Err(ParseError::Parse(rest_string(line, 1)));
        },
    };
    let (status, i2) = match read_i32_at(line, i1) {
        Some(p) => p,
        None => {
            return Err(ParseError::Parse(rest_string(line, i1)));
        },
    };
    let (x, i3) = match read_float_at(line, i2) {
        Some(p) => p,
        None => {
            return Err(ParseError::Parse(rest_string(line, i2)));
        },
    };
    let (y, i4) = match read_float_at(line, i3) {
        Some(p) => p,
        None => {
            return Err(ParseError::Parse(rest_string(line, i3)));
        },
    };
    let (z, i5) = match read_float_at(line, i4) {
        Some(p) => p,
        None => {
            return Err(ParseError::Parse(rest_string(line, i4)));
        },
    };
    let (t, i6) = match read_float_at(line, i5) {
        Some(p) => p,
        None => {
            return Err(ParseError::Parse(rest_string(line, i5)));
        },
    };
    let (_orphans, i7) = match read_i32_at(line, i6) {
        Some(p) => p,
        None => {
            return Err(ParseError::Parse(rest_string(line, i6)));
        },
    };
    let (nout, i8) = match read_u64_at(line, i7) {
        Some(p) => p,
        None => {
            return Err(ParseError::Parse(rest_string(line, i7)));
        },
    };
    if nout > usize::MAX as u64 {
        return Err(ParseError::ConvertInt);
    }
    let (nweights, i9) = match read_u64_at(line, i8) {
        Some(p) => p,
        None => {
            return Err(ParseError::Parse(rest_string(line, i8)));
        },
    };
    if nweights > usize::MAX as u64 {
        return Err(ParseError::ConvertInt);
    }
    let (weights, _i10) = match read_float_list(line, i9, nweights) {
        Some(p) => p,
        None => {
            return Err(ParseError::Parse(rest_string(line, i9)));
        },
    };
    let vertex = Vertex {
        barcode,
        status,
        x,
        y,
        z,
        t,
        weights,
        particles_in: Vec::new(),
        particles_out: Vec::new(),
    };
    let ghost pre = event@;
    event.vertices.push(vertex);
    proof {
        let em = spec_parse_vertex_line(line@, pre)->Ok_0;
        assert(event@.vertices =~~= em.vertices);
        assert(event@ =~~= em);
    }
    Ok(())
}

/// The number of flow pairs announced by a (possibly negative) flow count.
pub open spec fn flow_count(n: int) -> nat {
    if n <= 0 {
        0
    } else {
        n as nat
    }
}

/// What parsing a `P` line yields: the particle appended to the current (last)
/// vertex, to its incoming list exactly when the particle's end-vertex barcode
/// equals that vertex's barcode, else to its outgoing list.  Without a vertex
/// the record is a structural error.  The leading particle barcode is
/// validated and discarded.
pub open spec fn spec_parse_particle_line(s: Seq<char>, e: EventModel) -> Result<
    EventModel,
    ParseErrorModel,
> {
    match tok_i32(s, 1) {
        None => Err(ParseErrorModel::Parse(rest_of(s, 1))),
        Some((_barcode, i1)) => match tok_i32(s, i1) {
            None => Err(ParseErrorModel::Parse(rest_of(s, i1))),
            Some((id, i2)) => match tok_float(s, i2) {
                None => Err(ParseErrorModel::Parse(rest_of(s, i2))),
                Some((px, i3)) => match tok_float(s, i3) {
                    None => Err(ParseErrorModel::Parse(rest_of(s, i3))),
                    Some((py, i4)) => match tok_float(s, i4) {
                        None => Err(ParseErrorModel::Parse(rest_of(s, i4))),
                        Some((pz, i5)) => match tok_float(s, i5) {
                            None => Err(ParseErrorModel::Parse(rest_of(s, i5))),
                            Some((pe0, i6)) => match tok_float(s, i6) {
                                None => Err(ParseErrorModel::Parse(rest_of(s, i6))),
                                Some((m, i7)) => match tok_i32(s, i7) {
                                    None => Err(ParseErrorModel::Parse(rest_of(s, i7))),
                                    Some((status, i8)) => match tok_float(s, i8) {
                                        None => Err(ParseErrorModel::Parse(rest_of(s, i8))),
                                        Some((theta, i9)) => match tok_float(s, i9) {
                                            None => Err(ParseErrorModel::Parse(rest_of(s, i9))),
                                            Some((phi, i10)) => match tok_i32(s, i10) {
                                                None => Err(
                                                    ParseErrorModel::Parse(rest_of(s, i10)),
                                                ),
                                                Some((end_vtx, i11)) => match tok_i32(s, i11) {
                                                    None => Err(
                                                        ParseErrorModel::Parse(rest_of(s, i11)),
                                                    ),
                                                    Some((flowsize, i12)) => match tok_flow_list(
                                                        s,
                                                        i12,
                                                        flow_count(flowsize),
                                                    ) {
                                                        None => Err(
                                                            ParseErrorModel::Parse(
                                                                rest_of(s, i12),
                                                            ),
                                                        ),
                                                        Some((pairs, _i13)) => spec_link_particle(
                                                            e,
                                                            ParticleModel {
                                                                id,
                                                                p: FourVectorModel {
                                                                    t: pe0,
                                                                    x: px,
                                                                    y: py,
                                                                    z: pz,
                                                                },
                                                                m,
                                                                status,
                                                                theta,
                                                                phi,
                                                                flows: flow_fold(pairs),
                                                                end_vtx,
                                                            },
                                                        ),
                                                    },
                                                },
                                            },
                                        },
                                    },
                                },
                            },
                        },
                    },
                },
            },
        },
    }
}

/// The linking heuristic: a parsed particle joins the last vertex, incoming
/// exactly when its `end_vtx` equals that vertex's barcode; without a vertex
/// it is a structural error.
pub open spec fn spec_link_particle(e: EventModel, p: ParticleModel) -> Result<
    EventModel,
    ParseErrorModel,
> {
    if e.vertices.len() == 0 {
        Err(ParseErrorModel::NoVertex)
    } else {
        let n = e.vertices.len() as int;
        let v = e.vertices[n - 1];
        let v2 = if p.end_vtx == v.barcode {
            VertexModel { particles_in: v.particles_in.push(p), ..v }
        } else {
            VertexModel { particles_out: v.particles_out.push(p), ..v }
        };
        Ok(EventModel { vertices: e.vertices.update(n - 1, v2), ..e })
    }
}

/// Parse a `P` line and attach the particle to the current vertex.
pub fn parse_particle_line(line: &str, event: &mut Event) -> (r: Result<(), ParseError>)
    requires
        line@.len() >= 1,
    ensures
        match (r, spec_parse_particle_line(line@, old(event)@)) {
            (Ok(()), Ok(em)) => final(event)@ == em && (wf_event(old(event)@) ==> wf_event(
                final(event)@,
            )),
            (Err(pe), Err(pm)) => pe@ == pm && final(event)@ == old(event)@,
            _ => false,
        },
{
    let (_barcode, i1) = match read_i32_at(line, 1) {
        Some(p) => p,
        None => {
            return Err(ParseError::Parse(rest_string(line, 1)));
        },
    };
    let (id, i2) = match read_i32_at(line, i1) {
        Some(p) => p,
        None => {
            return Err(ParseError::Parse(rest_string(line, i1)));
        },
    };
    let (px, i3) = match read_float_at(line, i2) {
        Some(p) => p,
        None => {
            return Err(ParseError::Parse(rest_string(line, i2)));
        },
    };
    let (py, i4) = match read_float_at(line, i3) {
        Some(p) => p,
        None => {
            return Err(ParseError::Parse(rest_string(line, i3)));
        },
    };
    let (pz, i5) = match read_float_at(line, i4) {
        Some(p) => p,
        None => {
            return Err(ParseError::Parse(rest_string(line, i4)));
        },
    };
    let (pe0, i6) = match read_float_at(line, i5) {
        Some(p) => p,
        None => {
            return Err(ParseError::Parse(rest_string(line, i5)));
        },
    };
    let (m, i7) = match read_float_at(line, i6) {
        Some(p) => p,
        None => {
            return Err(ParseError::Parse(rest_string(line, i6)));
        },
    };
    let (status, i8) = match read_i32_at(line, i7) {
        Some(p) => p,
        None => {
            return Err(ParseError::Parse(rest_string(line, i7)));
        },
    };
    let (theta, i9) = match read_float_at(line, i8) {
        Some(p) => p,
        None => {
            return Err(ParseError::Parse(rest_string(line, i8)));
        },
    };
    let (phi, i10) = match read_float_at(line, i9) {
        Some(p) => p,
        None => {
            return Err(ParseError::Parse(rest_string(line, i9)));
        },
    };
    let (end_vtx, i11) = match read_i32_at(line, i10) {
        Some(p) => p,
        None => {
            return Err(ParseError::Parse(rest_string(line, i10)));
        },
    };
    let (flowsize, i12) = match read_i32_at(line, i11) {
        Some(p) => p,
        None => {
            return Err(ParseError::Parse(rest_string(line, i11)));
        },
    };
    let npairs: u64 = if flowsize <= 0 {
        0
    } else {
        flowsize as u64
    };
    let (flows, _i13) = match read_flows(line, i12, npairs) {
        Some(p) => p,
        None => {
            return Err(ParseError::Parse(rest_string(line, i12)));
        },
    };
    let particle = Particle {
        id,
        p: FourVector { t: pe0, x: px, y: py, z: pz },
        m,
        status,
        theta,
        phi,
        flows,
        end_vtx,
    };
    let n = event.vertices.len();
    if n == 0 {
        return Err(ParseError::NoVertex);
    }
    let ghost pre = event@;
    let ghost pm = particle@;
    let mut vertex = match event.vertices.pop() {
        Some(v) => v,
        None => {
            return Err(ParseError::NoVertex);
        },
    };
    if particle.end_vtx == vertex.barcode {
        vertex.particles_in.push(particle);
    } else {
        vertex.particles_out.push(particle);
    }
    event.vertices.push(vertex);
    proof {
        let em = spec_parse_particle_line(line@, pre)->Ok_0;
        assert(event@.vertices =~~= em.vertices);
        assert(event@ =~~= em);
    }
    Ok(())
}

/// What parsing a `U` line yields: both unit tokens read, then both converted;
/// an unrecognized token is an error, not a string.
pub open spec fn spec_parse_units_line(s: Seq<char>, e: EventModel) -> Result<
    EventModel,
    ParseErrorModel,
> {
    match spec_take_token(s, 1) {
        None => Err(ParseErrorModel::Parse(rest_of(s, 1))),
        Some((t1, i1)) => match spec_take_token(s, i1) {
            None => Err(ParseErrorModel::Parse(rest_of(s, i1))),
            Some((t2, _i2)) => match spec_energy_unit_of(t1) {
                None => Err(ParseErrorModel::BadUnit),
                Some(eu) => match spec_length_unit_of(t2) {
                    None => Err(ParseErrorModel::BadUnit),
                    Some(lu) => Ok(EventModel { energy_unit: eu, length_unit: lu, ..e }),
                },
            },
        },
    }
}

/// Parse a `U` line into the event's energy and length units.
pub fn parse_units_line(line: &str, event: &mut Event) -> (r: Result<(), ParseError>)
    requires
        line@.len() >= 1,
    ensures
        match (r, spec_parse_units_line(line@, old(event)@)) {
            (Ok(()), Ok(em)) => final(event)@ == em && (wf_event(old(event)@) ==> wf_event(
                final(event)@,
            )),
            (Err(pe), Err(pm)) => pe@ == pm && final(event)@ == old(event)@,
            _ => false,
        },
{
    let (t1, i1) = match take_token(line, 1) {
        Some(p) => p,
        None => {
            return Err(ParseError::Parse(rest_string(line, 1)));
        },
    };
    let (t2, _i2) = match take_token(line, i1) {
        Some(p) => p,
        None => {
            return Err(ParseError::Parse(rest_string(line, i1)));
        },
    };
    let eu = match EnergyUnit::from_token(t1.as_str()) {
        Some(u) => u,
        None => {
            return Err(ParseError::BadUnit);
        },
    };
    let lu = match LengthUnit::from_token(t2.as_str()) {
        Some(u) => u,
        None => {
            return Err(ParseError::BadUnit);
        },
    };
    let ghost pre = event@;
    event.energy_unit = eu;
    event.length_unit = lu;
    proof {
        let em = spec_parse_units_line(line@, pre)->Ok_0;
        assert(event@ =~~= em);
    }
    Ok(())
}

/// What parsing an `F` line yields: seven required fields and two optional
/// trailing PDF-set ids, each zero when absent.
pub open spec fn spec_parse_pdf_info_line(s: Seq<char>, e: EventModel) -> Result<
    EventModel,
    ParseErrorModel,
> {
    match tok_i32(s, 1) {
        None => Err(ParseErrorModel::Parse(rest_of(s, 1))),
        Some((id0, i1)) => match tok_i32(s, i1) {
            None => Err(ParseErrorModel::Parse(rest_of(s, i1))),
            Some((id1, i2)) => match tok_float(s, i2) {
                None => Err(ParseErrorModel::Parse(rest_of(s, i2))),
                Some((x0, i3)) => match tok_float(s, i3) {
                    None => Err(ParseErrorModel::Parse(rest_of(s, i3))),
                    Some((x1, i4)) => match tok_float(s, i4) {
                        None => Err(ParseErrorModel::Parse(rest_of(s, i4))),
                        Some((scale, i5)) => match tok_float(s, i5) {
                            None => Err(ParseErrorModel::Parse(rest_of(s, i5))),
                            Some((xf0, i6)) => match tok_float(s, i6) {
                                None => Err(ParseErrorModel::Parse(rest_of(s, i6))),
                                Some((xf1, i7)) => match spec_parse_pdf_ids(s, i7) {
                                    Err(pm) => Err(pm),
                                    Ok((pdf_id0, pdf_id1)) => Ok(
                                        EventModel {
                                            pdf_info: PdfInfoModel {
                                                parton_id0: id0,
                                                parton_id1: id1,
                                                x0,
                                                x1,
                                                scale,
                                                xf0,
                                                xf1,
                                                pdf_id0,
                                                pdf_id1,
                                            },
                                            ..e
                                        },
                                    ),
                                },
                            },
                        },
                    },
                },
            },
        },
    }
}

/// The optional trailing PDF-set ids: absent tokens count as zero, a present
/// token must be a numeral.
pub open spec fn spec_parse_pdf_ids(s: Seq<char>, i: int) -> Result<(int, int), ParseErrorModel> {
    match spec_take_token(s, i) {
        None => Ok((0, 0)),
        Some(_) => match tok_i32(s, i) {
            None => Err(ParseErrorModel::Parse(rest_of(s, i))),
            Some((id0, j)) => match spec_take_token(s, j) {
                None => Ok((id0, 0)),
                Some(_) => match tok_i32(s, j) {
                    None => Err(ParseErrorModel::Parse(rest_of(s, j))),
                    Some((id1, _)) => Ok((id0, id1)),
                },
            },
        },
    }
}

/// Parse an `F` line into the event's PDF information.
pub fn parse_pdf_info_line(line: &str, event: &mut Event) -> (r: Result<(), ParseError>)
    requires
        line@.len() >= 1,
    ensures
        match (r, spec_parse_pdf_info_line(line@, old(event)@)) {
            (Ok(()), Ok(em)) => final(event)@ == em && (wf_event(old(event)@) ==> wf_event(
                final(event)@,
            )),
            (Err(pe), Err(pm)) => pe@ == pm && final(event)@ == old(event)@,
            _ => false,
        },
{
    let (parton_id0, i1) = match read_i32_at(line, 1) {
        Some(p) => p,
        None => {
            return Err(ParseError::Parse(rest_string(line, 1)));
        },
    };
    let (parton_id1, i2) = match read_i32_at(line, i1) {
        Some(p) => p,
        None => {
            return Err(ParseError::Parse(rest_string(line, i1)));
        },
    };
    let (x0, i3) = match read_float_at(line, i2) {
        Some(p) => p,
        None => {
            return Err(ParseError::Parse(rest_string(line, i2)));
        },
    };
    let (x1, i4) = match read_float_at(line, i3) {
        Some(p) => p,
        None => {
            return Err(ParseError::Parse(rest_string(line, i3)));
        },
    };
    let (scale, i5) = match read_float_at(line, i4) {
        Some(p) => p,
        None => {
            return Err(ParseError::Parse(rest_string(line, i4)));
        },
    };
    let (xf0, i6) = match read_float_at(line, i5) {
        Some(p) => p,
        None => {
            return Err(ParseError::Parse(rest_string(line, i5)));
        },
    };
    let (xf1, i7) = match read_float_at(line, i6) {
        Some(p) => p,
        None => {
            return Err(ParseError::Parse(rest_string(line, i6)));
        },
    };
    let (pdf_id0, pdf_id1): (i32, i32) = match take_token(line, i7) {
        None => (0, 0),
        Some(_) => {
            let (id0, j) = match read_i32_at(line, i7) {
                Some(p) => p,
                None => {
                    return Err(ParseError::Parse(rest_string(line, i7)));
                },
            };
            match take_token(line, j) {
                None => (id0, 0),
                Some(_) => {
                    let (id1, _) = match read_i32_at(line, j) {
                        Some(p) => p,
                        None => {
                            return Err(ParseError::Parse(rest_string(line, j)));
                        },
                    };
                    (id0, id1)
                },
            }
        },
    };
    let ghost pre = event@;
    event.pdf_info = PdfInfo {
        parton_id0,
        parton_id1,
        x0,
        x1,
        scale,
        xf0,
        xf1,
        pdf_id0,
        pdf_id1,
    };
    proof {
        let em = spec_parse_pdf_info_line(line@, pre)->Ok_0;
        assert(event@ =~~= em);
    }
    Ok(())
}

/// What parsing an `H` line yields: thirteen fields of heavy-ion information.
pub open spec fn spec_parse_heavy_ion_line(s: Seq<char>, e: EventModel) -> Result<
    EventModel,
    ParseErrorModel,
> {
    match tok_i32_list(s, 1, 9) {
        None => Err(ParseErrorModel::Parse(rest_of(s, 1))),
        Some((ints, i9)) => match tok_float_list(s, i9, 4) {
            None => Err(ParseErrorModel::Parse(rest_of(s, i9))),
            Some((floats, _i13)) => Ok(
                EventModel {
                    heavy_ion_info: Some(
                        HeavyIonInfoModel {
                            ncoll_hard: ints[0],
                            npart_proj: ints[1],
                            npart_targ: ints[2],
                            ncoll: ints[3],
                            spectator_neutrons: ints[4],
                            spectator_protons: ints[5],
                            n_nwounded_collisions: ints[6],
                            nwounded_n_collisions: ints[7],
                            nwounded_nwounded_collisions: ints[8],
                            impact_parameter: floats[0],
                            event_plane_angle: floats[1],
                            eccentricity: floats[2],
                            sigma_inel_nn: floats[3],
                        },
                    ),
                    ..e
                },
            ),
        },
    }
}

/// Parse an `H` line into the event's heavy-ion information.
pub fn parse_heavy_ion_line(line: &str, event: &mut Event) -> (r: Result<(), ParseError>)
    requires
        line@.len() >= 1,
    ensures
        match (r, spec_parse_heavy_ion_line(line@, old(event)@)) {
            (Ok(()), Ok(em)) => final(event)@ == em && (wf_event(old(event)@) ==> wf_event(
                final(event)@,
            )),
            (Err(pe), Err(pm)) => pe@ == pm && final(event)@ == old(event)@,
            _ => false,
        },
{
    let (ints, i9) = match read_i32_list(line, 1, 9) {
        Some(p) => p,
        None => {
            return Err(ParseError::Parse(rest_string(line, 1)));
        },
    };
    let (mut floats, _i13) = match read_float_list(line, i9, 4) {
        Some(p) => p,
        None => {
            return Err(ParseError::Parse(rest_string(line, i9)));
        },
    };
    proof {
        assert(tok_i32_list(line@, 1, 9).unwrap().0.len() == 9) by {
            crate::reader::lemma_tok_i32_list_len(line@, 1, 9);
        };
        assert(tok_float_list(line@, i9 as int, 4).unwrap().0.len() == 4) by {
            crate::reader::lemma_tok_float_list_len(line@, i9 as int, 4);
        };
    }
    let sigma_inel_nn = match floats.pop() {
        Some(v) => v,
        None => {
            return Err(ParseError::Parse(rest_string(line, i9)));
        },
    };
    let eccentricity = match floats.pop() {
        Some(v) => v,
        None => {
            return Err(ParseError::Parse(rest_string(line, i9)));
        },
    };
    let event_plane_angle = match floats.pop() {
        Some(v) => v,
        None => {
            return Err(ParseError::Parse(rest_string(line, i9)));
        },
    };
    let impact_parameter = match floats.pop() {
        Some(v) => v,
        None => {
            return Err(ParseError::Parse(rest_string(line, i9)));
        },
    };
    let hi = HeavyIonInfo {
        ncoll_hard: ints[0],
        npart_proj: ints[1],
        npart_targ: ints[2],
        ncoll: ints[3],
        spectator_neutrons: ints[4],
        spectator_protons: ints[5],
        n_nwounded_collisions: ints[6],
        nwounded_n_collisions: ints[7],
        nwounded_nwounded_collisions: ints[8],
        impact_parameter,
        event_plane_angle,
        eccentricity,
        sigma_inel_nn,
    };
    let ghost pre = event@;
    event.heavy_ion_info = Some(hi);
    proof {
        let em = spec_parse_heavy_ion_line(line@, pre)->Ok_0;
        assert(event@ =~~= em);
    }
    Ok(())
}

/// A successful integer list holds exactly as many values as were asked for.
pub proof fn lemma_tok_i32_list_len(s: Seq<char>, i: int, n: nat)
    ensures
        tok_i32_list(s, i, n) is Some ==> tok_i32_list(s, i, n).unwrap().0.len() == n,
    decreases n,
{
    if n > 0 {
        match tok_i32(s, i) {
            None => {},
            Some((_, j)) => {
                lemma_tok_i32_list_len(s, j, (n - 1) as nat);
            },
        }
    }
}

/// A successful floating-point list holds exactly as many tokens as asked for.
pub proof fn lemma_tok_float_list_len(s: Seq<char>, i: int, n: nat)
    ensures
        tok_float_list(s, i, n) is Some ==> tok_float_list(s, i, n).unwrap().0.len() == n,
    decreases n,
{
    if n > 0 {
        match tok_float(s, i) {
            None => {},
            Some((_, j)) => {
                lemma_tok_float_list_len(s, j, (n - 1) as nat);
            },
        }
    }
}

/// What parsing an `N` line yields: a count-prefixed list of quoted weight
/// names replacing the event's name list.
pub open spec fn spec_parse_weight_names_line(s: Seq<char>, e: EventModel) -> Result<
    EventModel,
    ParseErrorModel,
> {
    match tok_u64(s, 1) {
        None => Err(ParseErrorModel::Parse(rest_of(s, 1))),
        Some((nnames, i1)) => if nnames > usize::MAX as nat {
            Err(ParseErrorModel::ConvertInt)
        } else {
            match tok_quoted_list(s, i1, nnames) {
                None => Err(ParseErrorModel::Parse(rest_of(s, i1))),
                Some((names, _i2)) => Ok(EventModel { weight_names: names, ..e }),
            }
        },
    }
}

/// Parse an `N` line into the event's weight names.
pub fn parse_weight_names_line(line: &str, event: &mut Event) -> (r: Result<(), ParseError>)
    requires
        line@.len() >= 1,
    ensures
        match (r, spec_parse_weight_names_line(line@, old(event)@)) {
            (Ok(()), Ok(em)) => final(event)@ == em && (wf_event(old(event)@) ==> wf_event(
                final(event)@,
            )),
            (Err(pe), Err(pm)) => pe@ == pm && final(event)@ == old(event)@,
            _ => false,
        },
{
    let (nnames, i1) = match read_u64_at(line, 1) {
        Some(p) => p,
        None => {
            return Err(ParseError::Parse(rest_string(line, 1)));
        },
    };
    if nnames > usize::MAX as u64 {
        return Err(ParseError::ConvertInt);
    }
    let (names, _i2) = match read_quoted_list(line, i1, nnames) {
        Some(p) => p,
        None => {
            return Err(ParseError::Parse(rest_string(line, i1)));
        },
    };
    let ghost pre = event@;
    event.weight_names = names;
    proof {
        let em = spec_parse_weight_names_line(line@, pre)->Ok_0;
        assert(event@ =~~= em);
    }
    Ok(())
}

/// What parsing a `C` line yields: the cross section and its uncertainty.
pub open spec fn spec_parse_xs_info_line(s: Seq<char>, e: EventModel) -> Result<
    EventModel,
    ParseErrorModel,
> {
    match tok_float(s, 1) {
        None => Err(ParseErrorModel::Parse(rest_of(s, 1))),
        Some((cs, i1)) => match tok_float(s, i1) {
            None => Err(ParseErrorModel::Parse(rest_of(s, i1))),
            Some((cse, _i2)) => Ok(
                EventModel {
                    xs: CrossSectionModel { cross_section: cs, cross_section_error: cse },
                    ..e
                },
            ),
        },
    }
}

/// Parse a `C` line into the event's cross section.
pub fn parse_xs_info_line(line: &str, event: &mut Event) -> (r: Result<(), ParseError>)
    requires
        line@.len() >= 1,
    ensures
        match (r, spec_parse_xs_info_line(line@, old(event)@)) {
            (Ok(()), Ok(em)) => final(event)@ == em && (wf_event(old(event)@) ==> wf_event(
                final(event)@,
            )),
            (Err(pe), Err(pm)) => pe@ == pm && final(event)@ == old(event)@,
            _ => false,
        },
{
    let (cross_section, i1) = match read_float_at(line, 1) {
        Some(p) => p,
        None => {
            return Err(ParseError::Parse(rest_string(line, 1)));
        },
    };
    let (cross_section_error, _i2) = match read_float_at(line, i1) {
        Some(p) => p,
        None => {
            return Err(ParseError::Parse(rest_string(line, i1)));
        },
    };
    let ghost pre = event@;
    event.xs = CrossSection { cross_section, cross_section_error };
    proof {
        let em = spec_parse_xs_info_line(line@, pre)->Ok_0;
        assert(event@ =~~= em);
    }
    Ok(())
}


// ---------------------------------------------------------------------------
// the Reader
// ---------------------------------------------------------------------------

/// A line of nothing but whitespace, skipped wherever it occurs.
pub open spec fn spec_blank(s: Seq<char>) -> bool {
    forall|m: int| 0 <= m < s.len() ==> is_ws_char(#[trigger] s[m])
}

/// A framing line: the version banner or a listing marker, all of which begin
/// with the literal prefix `HepMC`.
pub open spec fn spec_banner(s: Seq<char>) -> bool {
    s.len() >= 5 && s.subrange(0, 5) == seq!['H', 'e', 'p', 'M', 'C']
}

/// Decide whether a line is blank.
pub fn is_blank(line: &str) -> (r: bool)
    ensures
        r == spec_blank(line@),
{
    let len = line.unicode_len();
    let mut m: usize = 0;
    loop
        invariant
            m <= len,
            len == line@.len(),
            forall|q: int| 0 <= q < m ==> is_ws_char(#[trigger] line@[q]),
        ensures
            m <= len == line@.len(),
            forall|q: int| 0 <= q < m ==> is_ws_char(#[trigger] line@[q]),
            m == len || !is_ws_char(line@[m as int]),
        decreases len - m,
    {
        if m == len {
            break ;
        }
        let c = line.get_char(m);
        if c == ' ' || c == '\t' || c == '\n' || c == '\r' || c == '\u{c}' {
            m = m + 1;
        } else {
            break ;
        }
    }
    m == len
}

/// Decide whether a line is a `HepMC` framing line.
pub fn is_banner(line: &str) -> (r: bool)
    ensures
        r == spec_banner(line@),
{
    let len = line.unicode_len();
    if len < 5 {
        return false;
    }
    let r = line.get_char(0) == 'H' && line.get_char(1) == 'e' && line.get_char(2) == 'p'
        && line.get_char(3) == 'M' && line.get_char(4) == 'C';
    proof {
        if r {
            assert(line@.subrange(0, 5) =~= seq!['H', 'e', 'p', 'M', 'C']);
        } else {
            assert(line@.subrange(0, 5) != seq!['H', 'e', 'p', 'M', 'C']) by {
                let sub = line@.subrange(0, 5);
                let lit = seq!['H', 'e', 'p', 'M', 'C'];
                if sub == lit {
                    assert(sub[0] == 'H' && sub[1] == 'e' && sub[2] == 'p' && sub[3] == 'M'
                        && sub[4] == 'C');
                }
            };
        }
    }
    r
}

/// Where the framing skip stops: the first line from the current one on that
/// is neither blank nor a banner, or the cleared buffer at the end of input.
pub open spec fn spec_skip(lines: Seq<Seq<char>>, pos: int, line: Seq<char>) -> (int, Seq<char>)
    decreases lines.len() - pos when 0 <= pos <= lines.len()
{
    if !(spec_blank(line) || spec_banner(line)) {
        (pos, line)
    } else if pos == lines.len() {
        (pos, Seq::empty())
    } else {
        spec_skip(lines, pos + 1, lines[pos])
    }
}

/// What parsing one event block from the current line on yields: the event or
/// the first error, the new position, and the line left in the buffer (a fresh
/// `E` line, the cleared buffer at the end of input, or the erroneous line).
pub open spec fn spec_parse_body(lines: Seq<Seq<char>>, pos: int, e: EventModel) -> (
    Result<EventModel, ParseErrorModel>,
    int,
    Seq<char>,
)
    decreases lines.len() - pos when 0 <= pos <= lines.len()
{
    if pos == lines.len() {
        (Ok(e), pos, Seq::empty())
    } else {
        let l = lines[pos];
        let p2 = pos + 1;
        if l.len() > 0 && l[0] == 'E' {
            (Ok(e), p2, l)
        } else if l.len() > 0 && l[0] == 'V' {
            match spec_parse_vertex_line(l, e) {
                Ok(e2) => spec_parse_body(lines, p2, e2),
                Err(pm) => (Err(pm), p2, l),
            }
        } else if l.len() > 0 && l[0] == 'P' {
            match spec_parse_particle_line(l, e) {
                Ok(e2) => spec_parse_body(lines, p2, e2),
                Err(pm) => (Err(pm), p2, l),
            }
        } else if l.len() > 0 && l[0] == 'U' {
            match spec_parse_units_line(l, e) {
                Ok(e2) => spec_parse_body(lines, p2, e2),
                Err(pm) => (Err(pm), p2, l),
            }
        } else if l.len() > 0 && l[0] == 'F' {
            match spec_parse_pdf_info_line(l, e) {
                Ok(e2) => spec_parse_body(lines, p2, e2),
                Err(pm) => (Err(pm), p2, l),
            }
        } else if l.len() > 0 && l[0] == 'H' {
            if spec_banner(l) {
                spec_parse_body(lines, p2, e)
            } else {
                match spec_parse_heavy_ion_line(l, e) {
                    Ok(e2) => spec_parse_body(lines, p2, e2),
                    Err(pm) => (Err(pm), p2, l),
                }
            }
        } else if l.len() > 0 && l[0] == 'N' {
            match spec_parse_weight_names_line(l, e) {
                Ok(e2) => spec_parse_body(lines, p2, e2),
                Err(pm) => (Err(pm), p2, l),
            }
        } else if l.len() > 0 && l[0] == 'C' {
            match spec_parse_xs_info_line(l, e) {
                Ok(e2) => spec_parse_body(lines, p2, e2),
                Err(pm) => (Err(pm), p2, l),
            }
        } else {
            if spec_blank(l) {
                spec_parse_body(lines, p2, e)
            } else {
                (Err(ParseErrorModel::BadPrefix), p2, l)
            }
        }
    }
}

/// One whole event block: the `E` line in the buffer, then the body lines.
pub open spec fn spec_parse_block(lines: Seq<Seq<char>>, pos: int, line: Seq<char>) -> (
    Result<EventModel, ParseErrorModel>,
    int,
    Seq<char>,
) {
    match spec_parse_event_line(line) {
        Err(pm) => (Err(pm), pos, line),
        Ok(e0) => spec_parse_body(lines, pos, e0),
    }
}

/// What one pull of the reader yields: nothing at the end of input, a bad
/// prefix where the first substantive line is not an `E` line, or the parsed
/// event block; each error carries the offending line and its 1-based number.
pub open spec fn spec_next(lines: Seq<Seq<char>>, pos: int, line: Seq<char>) -> (
    Option<Result<EventModel, LineParseErrorModel>>,
    int,
    Seq<char>,
) {
    let (p2, l2) = spec_skip(lines, pos, line);
    if l2.len() == 0 {
        (None, p2, l2)
    } else if l2[0] != 'E' {
        (
            Some(
                Err(
                    LineParseErrorModel {
                        err: ParseErrorModel::BadPrefix,
                        line: l2,
                        line_nr: p2,
                    },
                ),
            ),
            p2,
            l2,
        )
    } else {
        let (res, p3, l3) = spec_parse_block(lines, p2, l2);
        match res {
            Ok(em) => (Some(Ok(em)), p3, l3),
            Err(pm) => (
                Some(Err(LineParseErrorModel { err: pm, line: l3, line_nr: p3 })),
                p3,
                l3,
            ),
        }
    }
}

/// Reader for the HepMC2 format: a pull-based sequence of parsed events over
/// a buffered sequence of input lines.
#[derive(Debug, PartialEq, Eq, Default)]
pub struct Reader {
    lines: Vec<String>,
    pos: usize,
    line: String,
}

#[verifier::ext_equal]
pub ghost struct ReaderModel {
    /// All input lines.
    pub lines: Seq<Seq<char>>,
    /// How many lines have been consumed; also the 1-based number of the
    /// buffered line.
    pub pos: int,
    /// The buffered current line; empty before the first pull and at the end
    /// of input.
    pub line: Seq<char>,
}

impl View for Reader {
    type V = ReaderModel;

    closed spec fn view(&self) -> ReaderModel {
        ReaderModel { lines: self.lines.deep_view(), pos: self.pos as int, line: self.line@ }
    }
}

impl Reader {
    /// The buffered position never runs past the input.
    pub open spec fn wf(self) -> bool {
        0 <= self@.pos <= self@.lines.len()
    }

    /// Construct a new Reader over the input lines.
    pub fn new(lines: Vec<String>) -> (r: Reader)
        ensures
            r@.lines == lines.deep_view(),
            r@.pos == 0,
            r@.line == Seq::<char>::empty(),
            r.wf(),
    {
        Reader { lines, pos: 0, line: String::new() }
    }

    /// Retrieve the underlying input lines.
    pub fn into_inner(self) -> (r: Vec<String>)
        ensures
            r.deep_view() == self@.lines,
    {
        self.lines
    }

    /// Advance past blank lines and `HepMC` framing lines, leaving the first
    /// substantive line in the buffer, or a cleared buffer at end of input.
    pub fn skip_headers(&mut self)
        requires
            old(self).wf(),
        ensures
            final(self).wf(),
            final(self)@.lines == old(self)@.lines,
            (final(self)@.pos, final(self)@.line) == spec_skip(
                old(self)@.lines,
                old(self)@.pos,
                old(self)@.line,
            ),
    {
        let ghost lines0 = self@.lines;
        let ghost pos0 = self@.pos;
        let ghost line0 = self@.line;
        loop
            invariant
                self.wf(),
                self@.lines == lines0,
                spec_skip(lines0, pos0, line0) == spec_skip(lines0, self@.pos, self@.line),
            ensures
                self.wf(),
                self@.lines == lines0,
                (self@.pos, self@.line) == spec_skip(lines0, pos0, line0),
            decreases lines0.len() - self@.pos + (if spec_blank(self@.line) || spec_banner(
                self@.line,
            ) {
                1int
            } else {
                0int
            }),
        {
            let blank = is_blank(self.line.as_str());
            let banner = is_banner(self.line.as_str());
            if !(blank || banner) {
                break ;
            }
            if self.pos == self.lines.len() {
                self.line = String::new();
                proof {
                    assert(self@.line =~= Seq::<char>::empty());
                }
                break ;
            }
            let l = self.lines[self.pos].clone();
            self.line = l;
            self.pos = self.pos + 1;
            proof {
                assert(self@.line =~= lines0[self@.pos - 1]);
            }
        }
    }

    /// Parse the event block that starts with the buffered `E` line.
    #[verifier::rlimit(60)]
    fn parse_event_inner(&mut self) -> (r: Result<Event, ParseError>)
        requires
            old(self).wf(),
            old(self)@.line.len() > 0,
        ensures
            final(self).wf(),
            final(self)@.lines == old(self)@.lines,
            ({
                let (res, p2, l2) = spec_parse_block(
                    old(self)@.lines,
                    old(self)@.pos,
                    old(self)@.line,
                );
                &&& final(self)@.pos == p2
                &&& final(self)@.line == l2
                &&& match (r, res) {
                    (Ok(e), Ok(em)) => e@ == em && wf_event(e@),
                    (Err(pe), Err(pm)) => pe@ == pm,
                    _ => false,
                }
            }),
    {
        let ghost lines0 = self@.lines;
        let ghost pos0 = self@.pos;
        let ghost line0 = self@.line;
        let mut event = match parse_event_line(self.line.as_str()) {
            Ok(e) => e,
            Err(pe) => {
                return Err(pe);
            },
        };
        loop
            invariant_except_break
                spec_parse_body(lines0, pos0, spec_parse_event_line(line0)->Ok_0)
                    == spec_parse_body(lines0, self@.pos, event@),
            invariant
                self.wf(),
                self@.lines == lines0,
                wf_event(event@),
                spec_parse_event_line(line0) is Ok,
                lines0 == old(self)@.lines,
                pos0 == old(self)@.pos,
                line0 == old(self)@.line,
            ensures
                self.wf(),
                self@.lines == lines0,
                wf_event(event@),
                ({
                    let (res, p2, l2) = spec_parse_body(
                        lines0,
                        pos0,
                        spec_parse_event_line(line0)->Ok_0,
                    );
                    &&& res == Ok::<EventModel, ParseErrorModel>(event@)
                    &&& self@.pos == p2
                    &&& self@.line == l2
                }),
            decreases lines0.len() - self@.pos,
        {
            if self.pos == self.lines.len() {
                self.line = String::new();
                proof {
                    assert(self@.line =~= Seq::<char>::empty());
                }
                break ;
            }
            let l = self.lines[self.pos].clone();
            self.line = l;
            self.pos = self.pos + 1;
            proof {
                assert(self@.line =~= lines0[self@.pos - 1]);
            }
            let line_len = self.line.as_str().unicode_len();
            if line_len == 0 {
                continue ;
            }
            let c0 = self.line.as_str().get_char(0);
            if c0 == 'E' {
                break ;
            } else if c0 == 'V' {
                let res = parse_vertex_line(self.line.as_str(), &mut event);
                if let Err(pe) = res {
                    return Err(pe);
                }
            } else if c0 == 'P' {
                let res = parse_particle_line(self.line.as_str(), &mut event);
                if let Err(pe) = res {
                    return Err(pe);
                }
            } else if c0 == 'U' {
                let res = parse_units_line(self.line.as_str(), &mut event);
                if let Err(pe) = res {
                    return Err(pe);
                }
            } else if c0 == 'F' {
                let res = parse_pdf_info_line(self.line.as_str(), &mut event);
                if let Err(pe) = res {
                    return Err(pe);
                }
            } else if c0 == 'H' {
                if is_banner(self.line.as_str()) {
                    continue ;
                }
                let res = parse_heavy_ion_line(self.line.as_str(), &mut event);
                if let Err(pe) = res {
                    return Err(pe);
                }
            } else if c0 == 'N' {
                let res = parse_weight_names_line(self.line.as_str(), &mut event);
                if let Err(pe) = res {
                    return Err(pe);
                }
            } else if c0 == 'C' {
                let res = parse_xs_info_line(self.line.as_str(), &mut event);
                if let Err(pe) = res {
                    return Err(pe);
                }
            } else {
                if is_blank(self.line.as_str()) {
                    continue ;
                }
                return Err(ParseError::BadPrefix);
            }
        }
        Ok(event)
    }

    /// Parse the buffered event block, wrapping any error with the offending
    /// line and its number.
    fn parse_event(&mut self) -> (r: Result<Event, LineParseError>)
        requires
            old(self).wf(),
            old(self)@.line.len() > 0,
        ensures
            final(self).wf(),
            final(self)@.lines == old(self)@.lines,
            ({
                let (res, p2, l2) = spec_parse_block(
                    old(self)@.lines,
                    old(self)@.pos,
                    old(self)@.line,
                );
                &&& final(self)@.pos == p2
                &&& final(self)@.line == l2
                &&& match (r, res) {
                    (Ok(e), Ok(em)) => e@ == em && wf_event(e@),
                    (Err(le), Err(pm)) => le@.err == pm && le@.line == l2 && le@.line_nr == p2,
                    _ => false,
                }
            }),
    {
        match self.parse_event_inner() {
            Ok(e) => Ok(e),
            Err(err) => {
                let line = self.line.clone();
                Err(LineParseError { err, line, line_nr: self.pos })
            },
        }
    }

    /// Pull the next event: `None` at the end of input, otherwise the parsed
    /// event or the first diagnostic error of its block.
    pub fn next(&mut self) -> (r: Option<Result<Event, LineParseError>>)
        requires
            old(self).wf(),
        ensures
            final(self).wf(),
            final(self)@.lines == old(self)@.lines,
            ({
                let (res, p2, l2) = spec_next(old(self)@.lines, old(self)@.pos, old(self)@.line);
                &&& final(self)@.pos == p2
                &&& final(self)@.line == l2
                &&& match (r, res) {
                    (None, None) => true,
                    (Some(Ok(e)), Some(Ok(em))) => e@ == em && wf_event(e@),
                    (Some(Err(le)), Some(Err(lm))) => le@ == lm,
                    _ => false,
                }
            }),
    {
        self.skip_headers();
        if self.line.as_str().is_empty() {
            return None;
        }
        let c0 = self.line.as_str().get_char(0);
        if c0 != 'E' {
            let line = self.line.clone();
            return Some(Err(LineParseError { err: ParseError::BadPrefix, line, line_nr: self.pos }));
        }
        Some(self.parse_event())
    }
}


} // verus!
