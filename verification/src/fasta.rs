//! Sequence supplier: turns FASTA text into an ordered list of named byte
//! sequences. Header lines name a sequence; body lines are normalized to the
//! uppercase alphabet {A,C,G,T,N} with every other byte stripped. A gzipped
//! input is decompressed first.

use vstd::prelude::*;

use crate::ipc::ProcessError;

verus! {

/// ASCII whitespace, as header tokens are split on it.
pub open spec fn is_ws(b: u8) -> bool {
    b == 32 || b == 9 || b == 10 || b == 13 || b == 11 || b == 12
}

/// ASCII uppercasing of one byte.
pub open spec fn upper(b: u8) -> u8 {
    if 97 <= b <= 122 {
        (b - 32) as u8
    } else {
        b
    }
}

/// The sequence alphabet: uppercase A, C, G, T, N.
pub open spec fn is_base(b: u8) -> bool {
    b == 65 || b == 67 || b == 71 || b == 84 || b == 78
}

/// The decimal digit character for `d` in `0 .. 10`.
pub open spec fn digit_char(d: int) -> char {
    ((48 + d) as u8) as char
}

/// The decimal digits of a non-negative number.
pub open spec fn dec_of(n: int) -> Seq<char>
    decreases n,
    when n >= 0
{
    if n < 10 {
        seq![digit_char(n)]
    } else {
        dec_of(n / 10).push(digit_char(n % 10))
    }
}

/// The fallback name of the `k`-th sequence whose header holds no token.
pub open spec fn unnamed_name(k: int) -> Seq<char> {
    "UnnamedSequence"@ + dec_of(k)
}

/// `h` without its leading whitespace.
pub open spec fn skip_ws(h: Seq<u8>) -> Seq<u8>
    decreases h.len(),
{
    if h.len() == 0 {
        h
    } else if is_ws(h[0]) {
        skip_ws(h.drop_first())
    } else {
        h
    }
}

/// The leading run of non-whitespace bytes of `h`.
pub open spec fn take_token(h: Seq<u8>) -> Seq<u8>
    decreases h.len(),
{
    if h.len() == 0 || is_ws(h[0]) {
        Seq::empty()
    } else {
        seq![h[0]] + take_token(h.drop_first())
    }
}

/// The first whitespace-separated token of `h` (empty if there is none).
pub open spec fn first_token(h: Seq<u8>) -> Seq<u8> {
    take_token(skip_ws(h))
}

/// Bytes read as characters, one for one.
pub open spec fn chars_of(bs: Seq<u8>) -> Seq<char> {
    bs.map_values(|b: u8| b as char)
}

/// Where in a line the scanner stands.
#[derive(Clone, Copy, PartialEq, Eq, Structural, Debug)]
pub enum LineMode {
    /// At the start of a line.
    Start,
    /// Inside a header line ('>' seen at line start).
    Header,
    /// Inside a body line.
    Body,
}

/// The scanner's state: finished records, the record being collected, the
/// pending header line, and the line mode.
#[verifier::ext_equal]
pub struct ParseState {
    pub done: Seq<(Seq<char>, Seq<u8>)>,
    pub cur_name: Option<Seq<char>>,
    pub cur_seq: Seq<u8>,
    pub line: Seq<u8>,
    pub mode: LineMode,
}

/// The state before any byte is read.
pub open spec fn init_state() -> ParseState {
    ParseState {
        done: Seq::empty(),
        cur_name: None,
        cur_seq: Seq::empty(),
        line: Seq::empty(),
        mode: LineMode::Start,
    }
}

/// The finished records, with the record being collected appended if it has
/// a name and a non-empty sequence.
pub open spec fn flush(st: ParseState) -> Seq<(Seq<char>, Seq<u8>)> {
    match st.cur_name {
        Some(nm) => if st.cur_seq.len() > 0 {
            st.done.push((nm, st.cur_seq))
        } else {
            st.done
        },
        None => st.done,
    }
}

/// A finished header line: the current record is flushed, and a new record
/// starts, named by the header's first token — or by a numbered fallback
/// name when the header holds none.
pub open spec fn apply_header(st: ParseState) -> ParseState {
    let done2 = flush(st);
    let tok = first_token(st.line);
    let nm = if tok.len() == 0 {
        unnamed_name(done2.len() as int + 1)
    } else {
        chars_of(tok)
    };
    ParseState {
        done: done2,
        cur_name: Some(nm),
        cur_seq: Seq::empty(),
        line: Seq::empty(),
        mode: LineMode::Start,
    }
}

/// A body byte: kept (uppercased) only when a header has been seen and the
/// byte is one of the five bases; everything else is stripped.
pub open spec fn step_body(st: ParseState, b: u8) -> ParseState {
    if st.cur_name is Some && is_base(upper(b)) {
        ParseState { cur_seq: st.cur_seq.push(upper(b)), ..st }
    } else {
        st
    }
}

/// One byte of input.
pub open spec fn step(st: ParseState, b: u8) -> ParseState {
    match st.mode {
        LineMode::Start => {
            if b == 10 {
                st
            } else if b == 62 {
                ParseState { line: Seq::empty(), mode: LineMode::Header, ..st }
            } else {
                step_body(ParseState { mode: LineMode::Body, ..st }, b)
            }
        },
        LineMode::Header => {
            if b == 10 {
                apply_header(st)
            } else {
                ParseState { line: st.line.push(b), ..st }
            }
        },
        LineMode::Body => {
            if b == 10 {
                ParseState { mode: LineMode::Start, ..st }
            } else {
                step_body(st, b)
            }
        },
    }
}

/// The scanner's state after reading all of `bytes`.
pub open spec fn scan(bytes: Seq<u8>) -> ParseState
    decreases bytes.len(),
{
    if bytes.len() == 0 {
        init_state()
    } else {
        step(scan(bytes.drop_last()), bytes.last())
    }
}

/// The parse of a whole FASTA text: scan every byte; the end of input ends a
/// pending header line, and the last record is flushed.
pub open spec fn parse_fasta_spec(bytes: Seq<u8>) -> Seq<(Seq<char>, Seq<u8>)> {
    let st = scan(bytes);
    let st2 = if st.mode is Header {
        apply_header(st)
    } else {
        st
    };
    flush(st2)
}

/// Relies on std's `String::push`: appends one character.
#[verifier::external_body]
fn push_char(s: &mut String, c: char)
    ensures
        final(s)@ == old(s)@.push(c),
{
    s.push(c);
}

/// Appends the decimal digits of `n`.
fn push_decimal(s: &mut String, n: usize)
    ensures
        final(s)@ == old(s)@ + dec_of(n as int),
    decreases n,
{
    if n < 10 {
        push_char(s, (48 + n as u8) as char);
        proof {
            assert(old(s)@ + dec_of(n as int) =~= old(s)@.push(digit_char(n as int)));
        }
    } else {
        push_decimal(s, n / 10);
        push_char(s, (48 + (n % 10) as u8) as char);
        proof {
            assert(old(s)@ + dec_of(n as int) =~= (old(s)@ + dec_of(n as int / 10)).push(
                digit_char(n as int % 10),
            ));
        }
    }
}

proof fn lemma_skip_ws_at(h: Seq<u8>, m: int)
    requires
        0 <= m <= h.len(),
        forall|k: int| 0 <= k < m ==> is_ws(h[k]),
        m == h.len() || !is_ws(h[m]),
    ensures
        skip_ws(h) == h.skip(m),
    decreases m,
{
    if m == 0 {
        assert(h.skip(0) =~= h);
    } else {
        lemma_skip_ws_at(h.drop_first(), m - 1);
        assert(h.drop_first().skip(m - 1) =~= h.skip(m));
    }
}

proof fn lemma_take_token_at(h: Seq<u8>, m: int)
    requires
        0 <= m <= h.len(),
        forall|k: int| 0 <= k < m ==> !is_ws(h[k]),
        m == h.len() || is_ws(h[m]),
    ensures
        take_token(h) == h.take(m),
    decreases m,
{
    if m == 0 {
        assert(h.take(0) =~= Seq::<u8>::empty());
    } else {
        lemma_take_token_at(h.drop_first(), m - 1);
        assert(seq![h[0]] + h.drop_first().take(m - 1) =~= h.take(m));
    }
}

/// The name a finished header line gives: its first token, read bytes as
/// characters — or the numbered fallback name when it holds no token, with
/// `count` finished records before it.
fn header_name(line: &Vec<u8>, count: usize) -> (r: String)
    requires
        count < usize::MAX,
    ensures
        first_token(line@).len() == 0 ==> r@ == unnamed_name(count + 1),
        first_token(line@).len() > 0 ==> r@ == chars_of(first_token(line@)),
{
    let len: usize = line.len();
    let mut i: usize = 0;
    while i < len && (line[i] == 32 || line[i] == 9 || line[i] == 10 || line[i] == 13 || line[i]
        == 11 || line[i] == 12)
        invariant
            i <= len,
            len == line@.len(),
            forall|k: int| 0 <= k < i ==> is_ws(line@[k]),
        decreases len - i,
    {
        i += 1;
    }
    proof {
        lemma_skip_ws_at(line@, i as int);
    }
    let mut j: usize = i;
    let mut name = String::new();
    while j < len && !(line[j] == 32 || line[j] == 9 || line[j] == 10 || line[j] == 13 || line[j]
        == 11 || line[j] == 12)
        invariant
            i <= j <= len,
            len == line@.len(),
            forall|k: int| i <= k < j ==> !is_ws(line@[k]),
            name@ == chars_of(line@.subrange(i as int, j as int)),
        decreases len - j,
    {
        let b: u8 = line[j];
        push_char(&mut name, b as char);
        proof {
            assert(chars_of(line@.subrange(i as int, j + 1)) =~= chars_of(
                line@.subrange(i as int, j as int),
            ).push(line@[j as int] as char));
        }
        j += 1;
    }
    proof {
        lemma_take_token_at(line@.skip(i as int), j - i);
        assert(line@.skip(i as int).take(j - i) =~= line@.subrange(i as int, j as int));
        assert(first_token(line@) == line@.subrange(i as int, j as int));
    }
    if j == i {
        let mut fallback = String::new();
        fallback.append("UnnamedSequence");
        push_decimal(&mut fallback, count + 1);
        proof {
            assert(fallback@ =~= unnamed_name(count + 1));
        }
        fallback
    } else {
        name
    }
}

/// The view of the running record's name.
pub open spec fn opt_view(o: Option<String>) -> Option<Seq<char>> {
    match o {
        Some(s) => Some(s@),
        None => None,
    }
}

/// Parses FASTA text held in memory into its named sequences: one record per
/// header whose following body lines hold at least one base; body bytes are
/// uppercased and every byte outside {A,C,G,T,N} is stripped.
pub fn parse_fasta_from_bytes(data: &[u8]) -> (r: Vec<(String, Vec<u8>)>)
    ensures
        r.deep_view() == parse_fasta_spec(data@),
{
    let mut done: Vec<(String, Vec<u8>)> = Vec::new();
    let mut cur_name: Option<String> = None;
    let mut cur_seq: Vec<u8> = Vec::new();
    let mut line: Vec<u8> = Vec::new();
    let mut mode: LineMode = LineMode::Start;
    let len: usize = data.len();
    let mut p: usize = 0;
    proof {
        assert(data@.take(0) =~= Seq::<u8>::empty());
        assert(done.deep_view() =~= Seq::<(Seq<char>, Seq<u8>)>::empty());
        assert(scan(data@.take(0)) =~~= (ParseState {
            done: done.deep_view(),
            cur_name: opt_view(cur_name),
            cur_seq: cur_seq@,
            line: line@,
            mode: mode,
        }));
    }
    while p < len
        invariant
            p <= len,
            len == data@.len(),
            2 * done@.len() + (if mode == LineMode::Header {
                1int
            } else {
                0int
            }) <= p,
            scan(data@.take(p as int)) == (ParseState {
                done: done.deep_view(),
                cur_name: opt_view(cur_name),
                cur_seq: cur_seq@,
                line: line@,
                mode: mode,
            }),
        decreases len - p,
    {
        let ghost st0 = scan(data@.take(p as int));
        proof {
            assert(data@.take(p + 1).drop_last() =~= data@.take(p as int));
            assert(data@.take(p + 1).last() == data@[p as int]);
        }
        let b: u8 = data[p];
        match mode {
            LineMode::Start => {
                if b == 10 {
                    // empty line: nothing changes
                } else if b == 62 {
                    line.clear();
                    mode = LineMode::Header;
                } else {
                    mode = LineMode::Body;
                    let up: u8 = if 97 <= b && b <= 122 {
                        b - 32
                    } else {
                        b
                    };
                    if cur_name.is_some() && (up == 65 || up == 67 || up == 71 || up == 84 || up
                        == 78) {
                        cur_seq.push(up);
                    }
                }
            },
            LineMode::Header => {
                if b == 10 {
                    match cur_name {
                        Some(nm) => {
                            cur_name = None;
                            if cur_seq.len() > 0 {
                                let sq = cur_seq;
                                cur_seq = Vec::new();
                                done.push((nm, sq));
                                proof {
                                    assert(done.deep_view() =~~= flush(st0));
                                }
                            }
                        },
                        None => {},
                    }
                    proof {
                        assert(done.deep_view() =~~= flush(st0));
                        assert(done@.len() < usize::MAX);
                    }
                    let nm2 = header_name(&line, done.len());
                    cur_name = Some(nm2);
                    cur_seq = Vec::new();
                    line.clear();
                    mode = LineMode::Start;
                } else {
                    line.push(b);
                }
            },
            LineMode::Body => {
                if b == 10 {
                    mode = LineMode::Start;
                } else {
                    let up: u8 = if 97 <= b && b <= 122 {
                        b - 32
                    } else {
                        b
                    };
                    if cur_name.is_some() && (up == 65 || up == 67 || up == 71 || up == 84 || up
                        == 78) {
                        cur_seq.push(up);
                    }
                }
            },
        }
        proof {
            assert(scan(data@.take(p + 1)) =~~= (ParseState {
                done: done.deep_view(),
                cur_name: opt_view(cur_name),
                cur_seq: cur_seq@,
                line: line@,
                mode: mode,
            }));
        }
        p += 1;
    }
    proof {
        assert(data@.take(len as int) =~= data@);
    }
    let ghost st_end = scan(data@);
    if matches!(mode, LineMode::Header) {
        match cur_name {
            Some(nm) => {
                cur_name = None;
                if cur_seq.len() > 0 {
                    let sq = cur_seq;
                    cur_seq = Vec::new();
                    done.push((nm, sq));
                    proof {
                        assert(done.deep_view() =~~= flush(st_end));
                    }
                }
            },
            None => {},
        }
        proof {
            assert(done.deep_view() =~~= flush(st_end));
            assert(done@.len() < usize::MAX);
        }
        let nm2 = header_name(&line, done.len());
        cur_name = Some(nm2);
        cur_seq = Vec::new();
        proof {
            assert(done.deep_view() =~~= apply_header(st_end).done);
            assert(opt_view(cur_name) == apply_header(st_end).cur_name);
            assert(cur_seq@ =~= apply_header(st_end).cur_seq);
        }
    }
    let ghost st_fin = if st_end.mode is Header {
        apply_header(st_end)
    } else {
        st_end
    };
    match cur_name {
        Some(nm) => {
            if cur_seq.len() > 0 {
                done.push((nm, cur_seq));
                proof {
                    assert(done.deep_view() =~~= flush(st_fin));
                }
            }
        },
        None => {},
    }
    proof {
        assert(done.deep_view() =~~= parse_fasta_spec(data@));
    }
    done
}

/// What decompressing a gzip stream yields: a function of the input alone.
pub uninterp spec fn gunzip_of(data: Seq<u8>) -> Seq<u8>;

/// Whether a buffer decompresses at all: decoding is deterministic, so
/// success too is a function of the input alone.
pub uninterp spec fn gunzip_ok(data: Seq<u8>) -> bool;

/// Relies on flate2's `read::GzDecoder`, drained with `Read::read_to_end`:
/// decompresses one gzip stream held in memory. Decoding is a deterministic
/// function of the bytes: it succeeds exactly on well-formed input
/// (`gunzip_ok`) and fails on a malformed stream, never panicking.
#[verifier::external_body]
fn gunzip(data: &[u8]) -> (r: Result<Vec<u8>, String>)
    ensures
        r is Ok <==> gunzip_ok(data@),
        r matches Ok(out) ==> out@ == gunzip_of(data@),
{
    let mut decoder = flate2::read::GzDecoder::new(data);
    let mut out: Vec<u8> = Vec::new();
    match std::io::Read::read_to_end(&mut decoder, &mut out) {
        Ok(_) => Ok(out),
        Err(e) => Err(e.to_string()),
    }
}

/// The FASTA text a supplied buffer holds: the buffer itself, or what it
/// decompresses to.
pub open spec fn supplied_text(data: Seq<u8>, is_gzipped: bool) -> Seq<u8> {
    if is_gzipped {
        gunzip_of(data)
    } else {
        data
    }
}

/// The supplied buffer can be read at all: always for plain input, and
/// exactly for well-formed streams when compressed.
pub open spec fn supplied_ok(data: Seq<u8>, is_gzipped: bool) -> bool {
    !is_gzipped || gunzip_ok(data)
}

/// Loads the named sequences of a FASTA buffer, decompressing it first when
/// `is_gzipped`. It succeeds exactly when the buffer can be read: plain input
/// always loads; compressed input fails exactly on a malformed stream.
pub fn load_chromosomes_from_bytes(fasta_data: &[u8], is_gzipped: bool) -> (r: Result<
    Vec<(String, Vec<u8>)>,
    ProcessError,
>)
    ensures
        r matches Ok(v) ==> v.deep_view() == parse_fasta_spec(
            supplied_text(fasta_data@, is_gzipped),
        ),
        (r is Ok) <==> supplied_ok(fasta_data@, is_gzipped),
        r matches Err(e) ==> is_gzipped && e is Decompress,
{
    if is_gzipped {
        match gunzip(fasta_data) {
            Ok(raw) => Ok(parse_fasta_from_bytes(raw.as_slice())),
            Err(m) => Err(ProcessError::Decompress(m)),
        }
    } else {
        Ok(parse_fasta_from_bytes(fasta_data))
    }
}

} // verus!
