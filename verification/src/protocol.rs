//! The messages between the two peers and their layout in a datagram.
//!
//! A message is a 32-bit tag followed by its payload. Integers are
//! little-endian and of fixed width; a body is a 64-bit count followed by
//! that many cells; a cell is its row, then its column.
use vstd::prelude::*;
use crate::game::{Game, MODE};
use crate::geometry::Field;
use crate::render::{COLOR_PAIR_SNK1, COLOR_PAIR_SNK2, RenderOp};
use crate::snake::Snake;
use crate::wire::{
    i32_at, i32_le, lemma_i32_reads_back, lemma_i32_writes_back, lemma_u32_reads_back,
    lemma_u32_writes_back, lemma_u64_reads_back, lemma_u64_writes_back, push_i32, push_u32,
    push_u64, read_i32, read_u32, read_u64, u32_at, u32_le, u64_at, u64_le,
};

verus! {

/// One snapshot of the game, relative to the arena: both bodies and the
/// food.
#[derive(Clone, Debug, PartialEq, Eq)]
pub struct UdpFrame {
    pub snake1: Vec<Field>,
    pub snake2: Vec<Field>,
    pub food: Field,
}

/// A message.
#[derive(Clone, Debug, PartialEq, Eq)]
pub enum COMMANDS {
    /// The client's first datagram, by which the server learns its address.
    Connect,
    /// The server's word that the game is over.
    Endgame,
    /// The client's latest key code.
    Key(i32),
    /// The server's snapshot.
    ServerData(UdpFrame),
}

/// Why a datagram is no message.
#[derive(Clone, Copy, Debug, PartialEq, Eq, Structural)]
pub enum DecodeError {
    /// The bytes end before the message does.
    Truncated,
    /// The tag names no message.
    UnknownTag(u32),
}

/// A snapshot as a value.
pub struct FrameView {
    pub snake1: Seq<Field>,
    pub snake2: Seq<Field>,
    pub food: Field,
}

/// A message as a value.
pub enum CommandView {
    Connect,
    Endgame,
    Key(i32),
    ServerData(FrameView),
}

impl View for UdpFrame {
    type V = FrameView;

    open spec fn view(&self) -> FrameView {
        FrameView { snake1: self.snake1@, snake2: self.snake2@, food: self.food }
    }
}

impl View for COMMANDS {
    type V = CommandView;

    open spec fn view(&self) -> CommandView {
        match self {
            COMMANDS::Connect => CommandView::Connect,
            COMMANDS::Endgame => CommandView::Endgame,
            COMMANDS::Key(code) => CommandView::Key(*code),
            COMMANDS::ServerData(frame) => CommandView::ServerData(frame@),
        }
    }
}

/// The tag of `Connect`.
pub const TAG_CONNECT: u32 = 0;

/// The tag of `Endgame`.
pub const TAG_ENDGAME: u32 = 1;

/// The tag of `Key`.
pub const TAG_KEY: u32 = 2;

/// The tag of `ServerData`.
pub const TAG_SERVER_DATA: u32 = 3;

/// The eight bytes of a cell: row, then column.
pub open spec fn field_le(f: Field) -> Seq<u8> {
    i32_le(f.y) + i32_le(f.x)
}

/// The bytes of the cells of `s`, one after the other.
pub open spec fn fields_le(s: Seq<Field>) -> Seq<u8> {
    Seq::new(8 * s.len(), |j: int| field_le(s[j / 8])[j % 8])
}

/// The bytes of a body: its length, then its cells.
pub open spec fn body_le(s: Seq<Field>) -> Seq<u8> {
    u64_le(s.len() as u64) + fields_le(s)
}

/// The bytes of a snapshot: first body, second body, food.
pub open spec fn frame_le(f: FrameView) -> Seq<u8> {
    body_le(f.snake1) + body_le(f.snake2) + field_le(f.food)
}

/// The bytes of a message: its tag, then its payload.
pub open spec fn command_le(c: CommandView) -> Seq<u8> {
    match c {
        CommandView::Connect => u32_le(TAG_CONNECT),
        CommandView::Endgame => u32_le(TAG_ENDGAME),
        CommandView::Key(code) => u32_le(TAG_KEY) + i32_le(code),
        CommandView::ServerData(f) => u32_le(TAG_SERVER_DATA) + frame_le(f),
    }
}

/// The cell that the eight bytes of `b` from `at` on spell.
pub open spec fn field_at(b: Seq<u8>, at: int) -> Field {
    Field { y: i32_at(b, at), x: i32_at(b, at + 4) }
}

/// The `n` cells that stand in `b` from `at` on.
pub open spec fn fields_at(b: Seq<u8>, at: int, n: nat) -> Seq<Field> {
    Seq::new(n, |k: int| field_at(b, at + 8 * k))
}

/// Whether a whole body stands in `b` from `at` on.
pub open spec fn body_fits(b: Seq<u8>, at: int) -> bool {
    &&& 0 <= at
    &&& at + 8 <= b.len()
    &&& at + 8 + 8 * u64_at(b, at) <= b.len()
}

/// The body that stands in `b` from `at` on.
pub open spec fn body_at(b: Seq<u8>, at: int) -> Seq<Field> {
    fields_at(b, at + 8, u64_at(b, at) as nat)
}

/// Where the body that stands in `b` from `at` on ends.
pub open spec fn body_end(b: Seq<u8>, at: int) -> int {
    at + 8 + 8 * u64_at(b, at)
}

/// The snapshot that stands in `b` from `at` on, if a whole one does.
pub open spec fn frame_at(b: Seq<u8>, at: int) -> Option<FrameView> {
    if !body_fits(b, at) {
        None
    } else if !body_fits(b, body_end(b, at)) {
        None
    } else if body_end(b, body_end(b, at)) + 8 > b.len() {
        None
    } else {
        Some(
            FrameView {
                snake1: body_at(b, at),
                snake2: body_at(b, body_end(b, at)),
                food: field_at(b, body_end(b, body_end(b, at))),
            },
        )
    }
}

/// The message that `b` begins with, or why it begins with none. Bytes
/// after the message are ignored.
pub open spec fn parse(b: Seq<u8>) -> Result<CommandView, DecodeError> {
    if b.len() < 4 {
        Err(DecodeError::Truncated)
    } else if u32_at(b, 0) == TAG_CONNECT {
        Ok(CommandView::Connect)
    } else if u32_at(b, 0) == TAG_ENDGAME {
        Ok(CommandView::Endgame)
    } else if u32_at(b, 0) == TAG_KEY {
        if b.len() < 8 {
            Err(DecodeError::Truncated)
        } else {
            Ok(CommandView::Key(i32_at(b, 4)))
        }
    } else if u32_at(b, 0) == TAG_SERVER_DATA {
        match frame_at(b, 4) {
            Some(f) => Ok(CommandView::ServerData(f)),
            None => Err(DecodeError::Truncated),
        }
    } else {
        Err(DecodeError::UnknownTag(u32_at(b, 0)))
    }
}

/// Appends the bytes of a cell.
fn push_field(out: &mut Vec<u8>, f: Field)
    ensures
        final(out)@ == old(out)@ + field_le(f),
{
    push_i32(out, f.y);
    push_i32(out, f.x);
    assert(out@ =~= old(out)@ + field_le(f));
}

/// Appends the bytes of a body.
fn push_body(out: &mut Vec<u8>, cells: &Vec<Field>)
    ensures
        final(out)@ == old(out)@ + body_le(cells@),
{
    push_u64(out, cells.len() as u64);
    let ghost base = out@;
    let mut i: usize = 0;
    while i < cells.len()
        invariant
            i <= cells.len(),
            out@ == base + fields_le(cells@.take(i as int)),
        decreases cells.len() - i,
    {
        push_field(out, cells[i]);
        assert(out@ =~= base + fields_le(cells@.take(i + 1))) by {
            let prev = cells@.take(i as int);
            let next = cells@.take(i + 1);
            assert forall|j: int| 0 <= j < 8 * next.len() implies #[trigger] fields_le(next)[j] == (
            fields_le(prev) + field_le(cells@[i as int]))[j] by {
                if j < 8 * i {
                    assert(next[j / 8] == prev[j / 8]);
                } else {
                    assert(j / 8 == i && j % 8 == j - 8 * i);
                }
            }
            assert(fields_le(next) =~= fields_le(prev) + field_le(cells@[i as int]));
        }
        i += 1;
    }
    assert(cells@.take(cells@.len() as int) =~= cells@);
    assert(out@ =~= old(out)@ + body_le(cells@));
}

/// The datagram for a message.
pub fn encode_command(command: &COMMANDS) -> (bytes: Vec<u8>)
    ensures
        bytes@ == command_le(command@),
{
    let mut out: Vec<u8> = Vec::new();
    match command {
        COMMANDS::Connect => {
            push_u32(&mut out, TAG_CONNECT);
            assert(out@ =~= command_le(command@));
        },
        COMMANDS::Endgame => {
            push_u32(&mut out, TAG_ENDGAME);
            assert(out@ =~= command_le(command@));
        },
        COMMANDS::Key(code) => {
            push_u32(&mut out, TAG_KEY);
            push_i32(&mut out, *code);
            assert(out@ =~= command_le(command@));
        },
        COMMANDS::ServerData(frame) => {
            push_u32(&mut out, TAG_SERVER_DATA);
            push_body(&mut out, &frame.snake1);
            push_body(&mut out, &frame.snake2);
            push_field(&mut out, frame.food);
            assert(out@ =~= command_le(command@));
        },
    }
    out
}

/// Reads a cell.
fn read_field(b: &[u8], at: usize) -> (f: Field)
    requires
        at + 8 <= b@.len(),
    ensures
        f == field_at(b@, at as int),
{
    let len: usize = b.len();
    assert(at + 8 <= len);
    Field { y: read_i32(b, at), x: read_i32(b, at + 4) }
}

/// Reads a body and says where it ends; `None` when the bytes end first.
fn read_body(b: &[u8], at: usize) -> (r: Option<(Vec<Field>, usize)>)
    requires
        at <= b@.len(),
    ensures
        match r {
            Some((cells, end)) => {
                &&& body_fits(b@, at as int)
                &&& cells@ == body_at(b@, at as int)
                &&& end == body_end(b@, at as int)
            },
            None => !body_fits(b@, at as int),
        },
{
    if b.len() - at < 8 {
        return None;
    }
    let count: u64 = read_u64(b, at);
    let room: usize = (b.len() - at - 8) / 8;
    if count > room as u64 {
        return None;
    }
    let n: usize = count as usize;
    let mut cells: Vec<Field> = Vec::new();
    let mut k: usize = 0;
    while k < n
        invariant
            k <= n,
            at + 8 + 8 * n <= b@.len() <= usize::MAX,
            cells@ == fields_at(b@, at + 8, k as nat),
        decreases n - k,
    {
        cells.push(read_field(b, at + 8 + 8 * k));
        assert(cells@ =~= fields_at(b@, at + 8, (k + 1) as nat));
        k += 1;
    }
    Some((cells, at + 8 + 8 * n))
}

/// Reads a snapshot; `None` when the bytes end first.
fn read_frame(b: &[u8], at: usize) -> (r: Option<UdpFrame>)
    requires
        at <= b@.len(),
    ensures
        match r {
            Some(frame) => frame_at(b@, at as int) == Some(frame@),
            None => frame_at(b@, at as int) is None,
        },
{
    match read_body(b, at) {
        None => None,
        Some((snake1, mid)) => match read_body(b, mid) {
            None => None,
            Some((snake2, end)) => {
                if b.len() - end < 8 {
                    None
                } else {
                    let food = read_field(b, end);
                    Some(UdpFrame { snake1, snake2, food })
                }
            },
        },
    }
}

/// Eight bytes that were written for a cell read back as that cell.
pub proof fn lemma_field_reads_back(b: Seq<u8>, at: int, f: Field)
    requires
        0 <= at,
        at + 8 <= b.len(),
        b.subrange(at, at + 8) == field_le(f),
    ensures
        field_at(b, at) == f,
{
    let w = b.subrange(at, at + 8);
    assert(b.subrange(at, at + 4) =~= i32_le(f.y)) by {
        assert forall|j: int| 0 <= j < 4 implies #[trigger] b.subrange(at, at + 4)[j] == i32_le(
            f.y,
        )[j] by {
            assert(b[at + j] == w[j]);
        }
    }
    assert(b.subrange(at + 4, at + 8) =~= i32_le(f.x)) by {
        assert forall|j: int| 0 <= j < 4 implies #[trigger] b.subrange(at + 4, at + 8)[j]
            == i32_le(f.x)[j] by {
            assert(b[at + 4 + j] == w[4 + j]);
        }
    }
    lemma_i32_reads_back(b, at, f.y);
    lemma_i32_reads_back(b, at + 4, f.x);
}

/// The bytes that were written for a run of cells read back as those cells.
pub proof fn lemma_fields_read_back(b: Seq<u8>, at: int, s: Seq<Field>)
    requires
        0 <= at,
        at + 8 * s.len() <= b.len(),
        b.subrange(at, at + 8 * s.len()) == fields_le(s),
    ensures
        fields_at(b, at, s.len()) == s,
{
    let w = b.subrange(at, at + 8 * s.len());
    assert forall|k: int| 0 <= k < s.len() implies field_at(b, at + 8 * k) == s[k] by {
        assert(b.subrange(at + 8 * k, at + 8 * k + 8) =~= field_le(s[k])) by {
            assert forall|j: int| 0 <= j < 8 implies #[trigger] b.subrange(
                at + 8 * k,
                at + 8 * k + 8,
            )[j] == field_le(s[k])[j] by {
                assert(b[at + 8 * k + j] == w[8 * k + j]);
                assert((8 * k + j) / 8 == k && (8 * k + j) % 8 == j);
            }
        }
        lemma_field_reads_back(b, at + 8 * k, s[k]);
    }
    assert(fields_at(b, at, s.len()) =~= s);
}

/// The bytes that were written for a body read back as that body, and the
/// reading ends where the writing did.
pub proof fn lemma_body_reads_back(b: Seq<u8>, at: int, s: Seq<Field>)
    requires
        0 <= at,
        s.len() <= u64::MAX,
        at + 8 + 8 * s.len() <= b.len(),
        b.subrange(at, at + 8 + 8 * s.len()) == body_le(s),
    ensures
        body_fits(b, at),
        body_at(b, at) == s,
        body_end(b, at) == at + 8 + 8 * s.len(),
{
    let w = b.subrange(at, at + 8 + 8 * s.len());
    assert(b.subrange(at, at + 8) =~= u64_le(s.len() as u64)) by {
        assert forall|j: int| 0 <= j < 8 implies #[trigger] b.subrange(at, at + 8)[j] == u64_le(
            s.len() as u64,
        )[j] by {
            assert(b[at + j] == w[j]);
        }
    }
    lemma_u64_reads_back(b, at, s.len() as u64);
    assert(b.subrange(at + 8, at + 8 + 8 * s.len()) =~= fields_le(s)) by {
        assert forall|j: int| 0 <= j < 8 * s.len() implies #[trigger] b.subrange(
            at + 8,
            at + 8 + 8 * s.len(),
        )[j] == fields_le(s)[j] by {
            assert(b[at + 8 + j] == w[8 + j]);
        }
    }
    lemma_fields_read_back(b, at + 8, s);
}

/// Where the parts of a sequence put together from five lie in it.
proof fn lemma_parts(p: Seq<u8>, q: Seq<u8>, r: Seq<u8>, s: Seq<u8>, t: Seq<u8>)
    ensures
        ({
            let b = p + (q + r + s) + t;
            let i: int = p.len() as int;
            let j: int = i + q.len();
            let k: int = j + r.len();
            &&& b.len() == k + s.len() + t.len()
            &&& b.subrange(0, i) == p
            &&& b.subrange(i, j) == q
            &&& b.subrange(j, k) == r
            &&& b.subrange(k, k + s.len()) == s
        }),
{
    let b = p + (q + r + s) + t;
    let i: int = p.len() as int;
    let j: int = i + q.len();
    let k: int = j + r.len();
    assert(b.subrange(0, i) =~= p);
    assert(b.subrange(i, j) =~= q);
    assert(b.subrange(j, k) =~= r);
    assert(b.subrange(k, k + s.len()) =~= s);
}

/// Where the parts of a sequence put together from three lie in it.
proof fn lemma_parts_of_three(p: Seq<u8>, q: Seq<u8>, t: Seq<u8>)
    ensures
        (p + q + t).len() == p.len() + q.len() + t.len(),
        (p + q + t).subrange(0, p.len() as int) == p,
        (p + q + t).subrange(p.len() as int, (p.len() + q.len()) as int) == q,
{
    let b = p + q + t;
    assert(b.subrange(0, p.len() as int) =~= p);
    assert(b.subrange(p.len() as int, (p.len() + q.len()) as int) =~= q);
}

/// How many bytes a body and a cell take.
proof fn lemma_lengths(cells: Seq<Field>, f: Field)
    ensures
        body_le(cells).len() == 8 + 8 * cells.len(),
        field_le(f).len() == 8,
{
}

/// A snapshot's bytes, behind a tag and before anything at all, read back
/// as that snapshot.
#[verifier::rlimit(50)]
#[verifier::spinoff_prover]
proof fn lemma_frame_reads_back(tag: Seq<u8>, f: FrameView, rest: Seq<u8>)
    requires
        tag.len() == 4,
        f.snake1.len() <= u64::MAX,
        f.snake2.len() <= u64::MAX,
    ensures
        frame_at(tag + frame_le(f) + rest, 4) == Some(f),
{
    let b = tag + frame_le(f) + rest;
    let mid: int = 12 + 8 * (f.snake1.len() as int);
    let end: int = mid + 8 + 8 * (f.snake2.len() as int);
    lemma_lengths(f.snake1, f.food);
    lemma_lengths(f.snake2, f.food);
    lemma_parts(tag, body_le(f.snake1), body_le(f.snake2), field_le(f.food), rest);
    assert(b.subrange(4, mid) == body_le(f.snake1));
    assert(b.subrange(mid, end) == body_le(f.snake2));
    assert(b.subrange(end, end + 8) == field_le(f.food));
    lemma_body_reads_back(b, 4, f.snake1);
    lemma_body_reads_back(b, mid, f.snake2);
    lemma_field_reads_back(b, end, f.food);
    assert(body_end(b, 4) == mid);
    assert(body_end(b, mid) == end);
    assert(frame_at(b, 4) == Some(
        FrameView { snake1: f.snake1, snake2: f.snake2, food: f.food },
    ));
}

/// Decoding undoes encoding: the bytes of a message, with anything at all
/// after them, parse back to that message.
pub proof fn lemma_round_trip(c: CommandView, rest: Seq<u8>)
    requires
        c matches CommandView::ServerData(f) ==> f.snake1.len() <= u64::MAX && f.snake2.len()
            <= u64::MAX,
    ensures
        parse(command_le(c) + rest) == Ok::<CommandView, DecodeError>(c),
{
    let b = command_le(c) + rest;
    match c {
        CommandView::Connect => {
            assert(b.subrange(0, 4) =~= u32_le(TAG_CONNECT));
            lemma_u32_reads_back(b, 0, TAG_CONNECT);
        },
        CommandView::Endgame => {
            assert(b.subrange(0, 4) =~= u32_le(TAG_ENDGAME));
            lemma_u32_reads_back(b, 0, TAG_ENDGAME);
        },
        CommandView::Key(code) => {
            lemma_parts_of_three(u32_le(TAG_KEY), i32_le(code), rest);
            lemma_u32_reads_back(b, 0, TAG_KEY);
            lemma_i32_reads_back(b, 4, code);
        },
        CommandView::ServerData(f) => {
            let tag = u32_le(TAG_SERVER_DATA);
            lemma_parts_of_three(tag, frame_le(f), rest);
            lemma_u32_reads_back(b, 0, TAG_SERVER_DATA);
            lemma_frame_reads_back(tag, f, rest);
        },
    }
}

/// Two messages with the same bytes are the same message.
pub proof fn lemma_encoding_injective(c: CommandView, d: CommandView)
    requires
        c matches CommandView::ServerData(f) ==> f.snake1.len() <= u64::MAX && f.snake2.len()
            <= u64::MAX,
        d matches CommandView::ServerData(f) ==> f.snake1.len() <= u64::MAX && f.snake2.len()
            <= u64::MAX,
        command_le(c) == command_le(d),
    ensures
        c == d,
{
    lemma_round_trip(c, Seq::empty());
    lemma_round_trip(d, Seq::empty());
}

/// Eight bytes spell the cell whose eight bytes they are.
pub proof fn lemma_field_writes_back(b: Seq<u8>, at: int)
    requires
        0 <= at,
        at + 8 <= b.len(),
    ensures
        field_le(field_at(b, at)) == b.subrange(at, at + 8),
{
    lemma_i32_writes_back(b, at);
    lemma_i32_writes_back(b, at + 4);
    assert(b.subrange(at, at + 4) + b.subrange(at + 4, at + 8) =~= b.subrange(at, at + 8));
}

/// The bytes of a run of cells spell the cells whose bytes they are.
pub proof fn lemma_fields_write_back(b: Seq<u8>, at: int, n: nat)
    requires
        0 <= at,
        at + 8 * n <= b.len(),
    ensures
        fields_le(fields_at(b, at, n)) == b.subrange(at, at + 8 * n),
{
    let s = fields_at(b, at, n);
    assert forall|j: int| 0 <= j < 8 * n implies #[trigger] fields_le(s)[j] == b[at + j] by {
        let k = j / 8;
        assert(0 <= k < n && j == 8 * k + j % 8);
        lemma_field_writes_back(b, at + 8 * k);
        assert(s[k] == field_at(b, at + 8 * k));
        assert(b.subrange(at + 8 * k, at + 8 * k + 8)[j % 8] == b[at + 8 * k + j % 8]);
    }
    assert(fields_le(s) =~= b.subrange(at, at + 8 * n));
}

/// The bytes of a body spell the body whose bytes they are.
pub proof fn lemma_body_writes_back(b: Seq<u8>, at: int)
    requires
        body_fits(b, at),
    ensures
        body_le(body_at(b, at)) == b.subrange(at, body_end(b, at)),
{
    let n = u64_at(b, at);
    lemma_u64_writes_back(b, at);
    lemma_fields_write_back(b, at + 8, n as nat);
    assert(body_at(b, at).len() as u64 == n);
    assert(b.subrange(at, at + 8) + b.subrange(at + 8, at + 8 + 8 * n) =~= b.subrange(
        at,
        body_end(b, at),
    ));
}

/// The bytes of a snapshot spell the snapshot whose bytes they are.
proof fn lemma_frame_writes_back(b: Seq<u8>, at: int, f: FrameView)
    requires
        0 <= at,
        frame_at(b, at) == Some(f),
    ensures
        at + frame_le(f).len() <= b.len(),
        frame_le(f) == b.subrange(at, at + frame_le(f).len()),
{
    let mid = body_end(b, at);
    let end = body_end(b, mid);
    lemma_body_writes_back(b, at);
    lemma_body_writes_back(b, mid);
    lemma_field_writes_back(b, end);
    lemma_lengths(f.snake1, f.food);
    lemma_lengths(f.snake2, f.food);
    assert(b.subrange(at, mid) + b.subrange(mid, end) + b.subrange(end, end + 8) =~= b.subrange(
        at,
        end + 8,
    ));
}

/// Decoding reads nothing into a datagram: a datagram that parses to a
/// message begins with exactly the bytes of that message.
pub proof fn lemma_parse_reads_a_prefix(b: Seq<u8>, c: CommandView)
    requires
        parse(b) == Ok::<CommandView, DecodeError>(c),
    ensures
        command_le(c).is_prefix_of(b),
{
    lemma_u32_writes_back(b, 0);
    match c {
        CommandView::Connect => {
            assert(command_le(c) =~= b.subrange(0, 4));
        },
        CommandView::Endgame => {
            assert(command_le(c) =~= b.subrange(0, 4));
        },
        CommandView::Key(code) => {
            lemma_i32_writes_back(b, 4);
            assert(command_le(c) =~= b.subrange(0, 4) + b.subrange(4, 8));
            assert(b.subrange(0, 4) + b.subrange(4, 8) =~= b.subrange(0, 8));
        },
        CommandView::ServerData(f) => {
            lemma_frame_writes_back(b, 4, f);
            let n = frame_le(f).len() as int;
            assert(command_le(c) == b.subrange(0, 4) + b.subrange(4, 4 + n));
            assert(b.subrange(0, 4) + b.subrange(4, 4 + n) =~= b.subrange(0, 4 + n));
        },
    }
}

/// Decoding is the inverse of encoding: a datagram parses to a message
/// exactly when it begins with the bytes of that message.
pub proof fn lemma_parse_inverts_encoding(b: Seq<u8>, c: CommandView)
    requires
        c matches CommandView::ServerData(f) ==> f.snake1.len() <= u64::MAX && f.snake2.len()
            <= u64::MAX,
    ensures
        parse(b) == Ok::<CommandView, DecodeError>(c) <==> command_le(c).is_prefix_of(b),
{
    if parse(b) == Ok::<CommandView, DecodeError>(c) {
        lemma_parse_reads_a_prefix(b, c);
    }
    if command_le(c).is_prefix_of(b) {
        let n = command_le(c).len() as int;
        let rest = b.subrange(n, b.len() as int);
        assert(command_le(c) + rest =~= b);
        lemma_round_trip(c, rest);
    }
}

/// The message that a datagram begins with, or why it begins with none:
/// it ends before the message does, or its tag names no message. A
/// datagram that holds a message begins with exactly that message's bytes;
/// what follows them is ignored.
pub fn decode_command(bytes: &[u8]) -> (r: Result<COMMANDS, DecodeError>)
    ensures
        match r {
            Ok(command) => {
                &&& parse(bytes@) == Ok::<CommandView, DecodeError>(command@)
                &&& command_le(command@).is_prefix_of(bytes@)
            },
            Err(e) => parse(bytes@) == Err::<CommandView, DecodeError>(e),
        },
{
    if bytes.len() < 4 {
        return Err(DecodeError::Truncated);
    }
    let tag: u32 = read_u32(bytes, 0);
    let r = if tag == TAG_CONNECT {
        Ok(COMMANDS::Connect)
    } else if tag == TAG_ENDGAME {
        Ok(COMMANDS::Endgame)
    } else if tag == TAG_KEY {
        if bytes.len() < 8 {
            Err(DecodeError::Truncated)
        } else {
            Ok(COMMANDS::Key(read_i32(bytes, 4)))
        }
    } else if tag == TAG_SERVER_DATA {
        match read_frame(bytes, 4) {
            Some(frame) => Ok(COMMANDS::ServerData(frame)),
            None => Err(DecodeError::Truncated),
        }
    } else {
        Err(DecodeError::UnknownTag(tag))
    };
    proof {
        if let Ok(command) = &r {
            lemma_parse_reads_a_prefix(bytes@, command@);
        }
    }
    r
}

/// What a peer sends once its socket is set up: the watching peer
/// announces itself, so that the server learns its address; the others
/// send nothing.
pub fn opening_message(mode: MODE) -> (send: Option<COMMANDS>)
    ensures
        mode == MODE::Client ==> (send matches Some(c) && c@ == CommandView::Connect),
        mode != MODE::Client ==> send is None,
{
    match mode {
        MODE::Client => Some(COMMANDS::Connect),
        _ => None,
    }
}

/// What a peer sends once its game is over: the server tells the watching
/// peer, which cannot know by itself; the others send nothing.
pub fn closing_message(mode: MODE) -> (send: Option<COMMANDS>)
    ensures
        mode == MODE::Server ==> (send matches Some(c) && c@ == CommandView::Endgame),
        mode != MODE::Server ==> send is None,
{
    match mode {
        MODE::Server => Some(COMMANDS::Endgame),
        _ => None,
    }
}

/// What a snapshot changes for the peer that only watches.
#[derive(Clone, Debug, PartialEq, Eq)]
pub struct ClientUpdate {
    /// What to redraw, in order.
    pub ops: Vec<RenderOp>,
    /// The length of the first snake.
    pub score1: usize,
    /// The length of the second snake.
    pub score2: usize,
}

/// Whether the game can show `frame`: what is on screen and what the
/// snapshot brings all have screen cells.
pub open spec fn can_show(game: Game, frame: FrameView) -> bool {
    &&& game.fits_screen(game.food)
    &&& game.fits_screen(frame.food)
    &&& game.all_on_screen(game.clear1_buffer@)
    &&& game.all_on_screen(game.clear2_buffer@)
    &&& game.all_on_screen(frame.snake1)
    &&& game.all_on_screen(frame.snake2)
}

/// A copy of `cells`.
fn copy_cells(cells: &Vec<Field>) -> (copy: Vec<Field>)
    ensures
        copy@ == cells@,
{
    let mut copy: Vec<Field> = Vec::new();
    let mut i: usize = 0;
    while i < cells.len()
        invariant
            i <= cells.len(),
            copy@ == cells@.take(i as int),
        decreases cells.len() - i,
    {
        copy.push(cells[i]);
        assert(copy@ =~= cells@.take(i + 1));
        i += 1;
    }
    assert(cells@.take(cells@.len() as int) =~= cells@);
    copy
}

/// Whether a snapshot of the game can be taken: there are two snakes, and
/// their cells and the food can be written relative to the arena.
pub open spec fn can_snapshot(game: Game, snakes: Seq<Snake>) -> bool {
    &&& snakes.len() >= 2
    &&& game.all_in_arena(snakes[0].body@)
    &&& game.all_in_arena(snakes[1].body@)
    &&& game.fits_arena(game.food)
}

/// The snapshot of a game: the bodies of the first two snakes and the food,
/// all rewritten relative to the arena.
pub open spec fn snapshot(game: Game, snakes: Seq<Snake>) -> FrameView {
    FrameView {
        snake1: snakes[0].body@.map_values(game.arena_map()),
        snake2: snakes[1].body@.map_values(game.arena_map()),
        food: game.to_arena(game.food),
    }
}

/// Whether a snapshot of the game can be taken.
pub fn is_snapshot_ready(game: &Game, snakes: &Vec<Snake>) -> (ok: bool)
    ensures
        ok == can_snapshot(*game, snakes@),
{
    if snakes.len() < 2 {
        return false;
    }
    let mut food: Vec<Field> = Vec::new();
    food.push(game.food);
    assert(game.all_in_arena(food@) == game.fits_arena(game.food)) by {
        assert(food@[0] == game.food);
    }
    game.all_fit_arena(&snakes[0].body) && game.all_fit_arena(&snakes[1].body)
        && game.all_fit_arena(&food)
}

/// The server's snapshot of a running game.
pub fn build_frame(game: &mut Game, snakes: &Vec<Snake>) -> (frame: UdpFrame)
    requires
        can_snapshot(*old(game), snakes@),
    ensures
        *final(game) == *old(game),
        frame@ == snapshot(*old(game), snakes@),
{
    let mut snake1 = copy_cells(&snakes[0].body);
    let mut snake2 = copy_cells(&snakes[1].body);
    game.transform_coords(&mut snake1);
    game.transform_coords(&mut snake2);
    let food = game.get_food_win();
    UdpFrame { snake1, snake2, food: Field { y: food.0, x: food.1 } }
}

/// What showing a snapshot does: the food moves, both bodies are redrawn
/// and remembered, and the scores are the bodies' lengths; a snapshot that
/// the screen cannot hold changes nothing.
pub open spec fn shown(before: Game, frame: FrameView, after: Game, update: Option<ClientUpdate>) -> bool {
    match update {
        Some(u) => {
            &&& can_show(before, frame)
            &&& u.ops@ == seq![
                RenderOp::Clear(before.to_screen(before.food)),
                RenderOp::Food(before.to_screen(frame.food)),
            ] + before.redraw(before.clear1_buffer@, frame.snake1, COLOR_PAIR_SNK1) + before.redraw(
                before.clear2_buffer@,
                frame.snake2,
                COLOR_PAIR_SNK2,
            )
            &&& u.score1 == frame.snake1.len()
            &&& u.score2 == frame.snake2.len()
            &&& after.food == frame.food
            &&& after.clear1_buffer@ == frame.snake1
            &&& after.clear2_buffer@ == frame.snake2
            &&& after.mode == before.mode
            &&& after.game_area_height == before.game_area_height
            &&& after.game_area_width == before.game_area_width
            &&& after.game_area_start_y == before.game_area_start_y
            &&& after.game_area_start_x == before.game_area_start_x
        },
        None => !can_show(before, frame) && after == before,
    }
}

/// Shows a snapshot on the watching peer. A snapshot that the screen
/// cannot hold is dropped and nothing changes.
pub fn apply_frame(game: &mut Game, frame: UdpFrame) -> (update: Option<ClientUpdate>)
    ensures
        shown(*old(game), frame@, *final(game), update),
{
    let mut both: Vec<Field> = Vec::new();
    both.push(game.food);
    both.push(frame.food);
    assert(game.all_on_screen(both@) == (game.fits_screen(game.food) && game.fits_screen(
        frame.food,
    ))) by {
        assert(both@[0] == game.food && both@[1] == frame.food);
    }
    if !(game.all_fit_screen(&both) && game.all_fit_screen(&game.clear1_buffer)
        && game.all_fit_screen(&game.clear2_buffer) && game.all_fit_screen(&frame.snake1)
        && game.all_fit_screen(&frame.snake2)) {
        return None;
    }
    let score1 = frame.snake1.len();
    let score2 = frame.snake2.len();
    let (cleared, drawn) = game.set_food(frame.food.y, frame.food.x);
    let mut ops: Vec<RenderOp> = Vec::new();
    ops.push(cleared);
    ops.push(drawn);
    let ghost head = ops@;
    let ghost mid = *game;
    let ghost view = frame@;
    let mut bodies = game.draw_snake(frame.snake1, frame.snake2);
    ops.append(&mut bodies);
    proof {
        let before = *old(game);
        assert(head =~= seq![cleared, drawn]);
        assert(mid.clear_map() == before.clear_map());
        assert(mid.block_map(COLOR_PAIR_SNK1) == before.block_map(COLOR_PAIR_SNK1));
        assert(mid.block_map(COLOR_PAIR_SNK2) == before.block_map(COLOR_PAIR_SNK2));
        assert(mid.redraw(before.clear1_buffer@, view.snake1, COLOR_PAIR_SNK1) == before.redraw(
            before.clear1_buffer@,
            view.snake1,
            COLOR_PAIR_SNK1,
        ));
        assert(mid.redraw(before.clear2_buffer@, view.snake2, COLOR_PAIR_SNK2) == before.redraw(
            before.clear2_buffer@,
            view.snake2,
            COLOR_PAIR_SNK2,
        ));
        assert(ops@ =~= seq![cleared, drawn] + before.redraw(
            before.clear1_buffer@,
            view.snake1,
            COLOR_PAIR_SNK1,
        ) + before.redraw(before.clear2_buffer@, view.snake2, COLOR_PAIR_SNK2));
    }
    Some(ClientUpdate { ops, score1, score2 })
}

} // verus!
