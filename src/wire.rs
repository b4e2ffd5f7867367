use vstd::prelude::*;

use crate::bytes::{be32, from_be32, get_u32, lemma_be32_round_trip, put_u32};

verus! {

/// The opcode of a registration request.
pub const REGISTER_OPCODE: u32 = 0;

/// Size of the reserved body of a registration request and of the body of a
/// registration response.
pub const BODY_LEN: usize = 256;

/// Size of a registration request and of a registration response.
pub const FRAME_LEN: usize = 260;

/// Size of an encoded position record.
pub const RECORD_LEN: usize = 16;

/// Size of a position publish.
pub const PUBLISH_LEN: usize = 20;

/// Size of the fixed part of a snapshot, before its position records.
pub const SNAPSHOT_HEADER_LEN: usize = 11;

/// Size of the registration payload at the start of a response body.
pub const PAYLOAD_LEN: usize = 24;

/// A message whose byte count or embedded payload does not match its layout.
#[derive(Debug, Clone, Copy, PartialEq, Eq, Structural)]
pub enum WireError {
    MalformedMessage,
}

/// A position record as it travels: `x`, `y`, `dx`, `dy`, each the bit
/// pattern of an IEEE-754 single-precision float.
#[derive(Debug, Clone, Copy, PartialEq, Eq, Structural)]
pub struct Position {
    pub x: u32,
    pub y: u32,
    pub dx: u32,
    pub dy: u32,
}

/// A position publish: the sender's identifier and its own position.
#[derive(Debug, Clone, Copy, PartialEq, Eq, Structural)]
pub struct PositionMessage {
    pub id: u32,
    pub position: Position,
}

/// A registration request: an opcode and a reserved, zeroed body.
#[derive(Debug, Clone, Copy, PartialEq, Eq, Structural)]
pub struct TcpRequest {
    pub opcode: u32,
}

/// A registration response: a status code and a body of `BODY_LEN` bytes.
#[derive(Debug, Clone, Copy)]
pub struct TcpResponse {
    pub statuscode: u32,
    pub msg: [u8; BODY_LEN],
}

/// The identity and session configuration carried by a registration
/// response; the last three fields are float bit patterns.
#[derive(Debug, Clone, Copy, PartialEq, Eq, Structural)]
pub struct RegisterResponseMessage {
    pub id: u32,
    pub width: u32,
    pub height: u32,
    pub speed: u32,
    pub radius: u32,
    pub paddle: u32,
}

/// An authoritative snapshot. Slot 0 of `positions` is the ball, slot `k`
/// the player whose identifier is `k`.
#[derive(Debug, Clone)]
pub struct SnapshotMessage {
    pub left_score: u8,
    pub right_score: u8,
    pub active: bool,
    pub countdown: i32,
    pub positions: Vec<Position>,
}

/// What a snapshot holds, with its positions as a sequence.
pub struct SnapshotView {
    pub left_score: u8,
    pub right_score: u8,
    pub active: bool,
    pub countdown: i32,
    pub positions: Seq<Position>,
}

impl View for SnapshotMessage {
    type V = SnapshotView;

    open spec fn view(&self) -> SnapshotView {
        SnapshotView {
            left_score: self.left_score,
            right_score: self.right_score,
            active: self.active,
            countdown: self.countdown,
            positions: self.positions@,
        }
    }
}

pub open spec fn zeros(n: nat) -> Seq<u8> {
    Seq::new(n, |i: int| 0u8)
}

// ---- layouts ----

pub open spec fn request_bytes(r: TcpRequest) -> Seq<u8> {
    be32(r.opcode) + zeros(BODY_LEN as nat)
}

pub open spec fn response_bytes(statuscode: u32, msg: Seq<u8>) -> Seq<u8> {
    be32(statuscode) + msg
}

pub open spec fn payload_bytes(m: RegisterResponseMessage) -> Seq<u8> {
    be32(m.id) + be32(m.width) + be32(m.height) + be32(m.speed) + be32(m.radius) + be32(m.paddle)
}

/// The response body that carries `m`: its payload, then zeros.
pub open spec fn body_bytes(m: RegisterResponseMessage) -> Seq<u8> {
    payload_bytes(m) + zeros((BODY_LEN - PAYLOAD_LEN) as nat)
}

pub open spec fn position_bytes(p: Position) -> Seq<u8> {
    be32(p.x) + be32(p.y) + be32(p.dx) + be32(p.dy)
}

pub open spec fn positions_bytes(ps: Seq<Position>) -> Seq<u8>
    decreases ps.len(),
{
    if ps.len() == 0 {
        seq![]
    } else {
        positions_bytes(ps.drop_last()) + position_bytes(ps.last())
    }
}

pub open spec fn publish_bytes(m: PositionMessage) -> Seq<u8> {
    be32(m.id) + position_bytes(m.position)
}

pub open spec fn flag_byte(b: bool) -> u8 {
    if b {
        1u8
    } else {
        0u8
    }
}

pub open spec fn snapshot_bytes(s: SnapshotView) -> Seq<u8> {
    seq![s.left_score, s.right_score, flag_byte(s.active)] + be32(s.countdown as u32) + be32(
        s.positions.len() as u32,
    ) + positions_bytes(s.positions)
}

// ---- readings ----

pub open spec fn u32_at(b: Seq<u8>, at: int) -> u32 {
    from_be32(b.subrange(at, at + 4))
}

pub open spec fn position_at(b: Seq<u8>, at: int) -> Position {
    Position {
        x: u32_at(b, at),
        y: u32_at(b, at + 4),
        dx: u32_at(b, at + 8),
        dy: u32_at(b, at + 12),
    }
}

pub open spec fn payload_of(b: Seq<u8>) -> RegisterResponseMessage {
    RegisterResponseMessage {
        id: u32_at(b, 0),
        width: u32_at(b, 4),
        height: u32_at(b, 8),
        speed: u32_at(b, 12),
        radius: u32_at(b, 16),
        paddle: u32_at(b, 20),
    }
}

/// The number of position records that a snapshot announces.
pub open spec fn snapshot_count(b: Seq<u8>) -> u32 {
    u32_at(b, 7)
}

/// A snapshot's byte count matches the record count it announces.
pub open spec fn snapshot_len_ok(b: Seq<u8>) -> bool {
    b.len() >= SNAPSHOT_HEADER_LEN && b.len() == SNAPSHOT_HEADER_LEN + RECORD_LEN
        * snapshot_count(b)
}

pub open spec fn records_of(b: Seq<u8>, n: nat) -> Seq<Position> {
    Seq::new(n, |i: int| position_at(b, SNAPSHOT_HEADER_LEN + RECORD_LEN * i))
}

pub open spec fn snapshot_of(b: Seq<u8>) -> SnapshotView {
    SnapshotView {
        left_score: b[0],
        right_score: b[1],
        active: b[2] != 0,
        countdown: countdown_field(b) as i32,
        positions: records_of(b, snapshot_count(b) as nat),
    }
}

pub open spec fn countdown_field(b: Seq<u8>) -> u32 {
    u32_at(b, 3)
}

/// Appends `n` zero bytes to `out`.
fn put_zeros(out: &mut Vec<u8>, n: usize)
    ensures
        final(out)@ == old(out)@ + zeros(n as nat),
{
    let mut i: usize = 0;
    while i < n
        invariant
            i <= n,
            out@ == old(out)@ + zeros(i as nat),
        decreases n - i,
    {
        out.push(0u8);
        i = i + 1;
        assert(out@ =~= old(out)@ + zeros(i as nat));
    }
}

fn put_position(out: &mut Vec<u8>, p: &Position)
    ensures
        final(out)@ == old(out)@ + position_bytes(*p),
{
    put_u32(out, p.x);
    put_u32(out, p.y);
    put_u32(out, p.dx);
    put_u32(out, p.dy);
    assert(final(out)@ =~= old(out)@ + position_bytes(*p));
}

fn get_position(b: &[u8], at: usize) -> (r: Position)
    requires
        at + RECORD_LEN <= b@.len(),
    ensures
        r == position_at(b@, at as int),
{
    let n: usize = b.len();
    assert(at + 12 <= n);
    Position {
        x: get_u32(b, at),
        y: get_u32(b, at + 4),
        dx: get_u32(b, at + 8),
        dy: get_u32(b, at + 12),
    }
}

impl TcpRequest {
    /// The request's bytes: the opcode, then a zeroed body.
    pub fn encode(&self) -> (r: Vec<u8>)
        ensures
            r@ == request_bytes(*self),
    {
        let mut out: Vec<u8> = Vec::new();
        put_u32(&mut out, self.opcode);
        put_zeros(&mut out, BODY_LEN);
        out
    }

    /// Reads a request; the body is reserved and not inspected.
    pub fn decode(b: &[u8]) -> (r: Result<TcpRequest, WireError>)
        ensures
            match r {
                Ok(req) => b@.len() == FRAME_LEN && req.opcode == u32_at(b@, 0),
                Err(e) => b@.len() != FRAME_LEN && e == WireError::MalformedMessage,
            },
    {
        if b.len() != FRAME_LEN {
            return Err(WireError::MalformedMessage);
        }
        Ok(TcpRequest { opcode: get_u32(b, 0) })
    }
}

impl TcpResponse {
    /// The response's bytes: the status code, then the body.
    pub fn encode(&self) -> (r: Vec<u8>)
        ensures
            r@ == response_bytes(self.statuscode, self.msg@),
    {
        let mut out: Vec<u8> = Vec::new();
        put_u32(&mut out, self.statuscode);
        let mut i: usize = 0;
        while i < BODY_LEN
            invariant
                i <= BODY_LEN,
                self.msg@.len() == BODY_LEN,
                out@ == be32(self.statuscode) + self.msg@.subrange(0, i as int),
            decreases BODY_LEN - i,
        {
            out.push(self.msg[i]);
            i = i + 1;
            assert(out@ =~= be32(self.statuscode) + self.msg@.subrange(0, i as int));
        }
        assert(self.msg@.subrange(0, self.msg@.len() as int) =~= self.msg@);
        out
    }

    /// Reads a response of exactly `FRAME_LEN` bytes.
    pub fn decode(b: &[u8]) -> (r: Result<TcpResponse, WireError>)
        ensures
            match r {
                Ok(resp) => b@.len() == FRAME_LEN && resp.statuscode == u32_at(b@, 0)
                    && resp.msg@ == b@.subrange(4, FRAME_LEN as int),
                Err(e) => b@.len() != FRAME_LEN && e == WireError::MalformedMessage,
            },
    {
        if b.len() != FRAME_LEN {
            return Err(WireError::MalformedMessage);
        }
        let mut msg: [u8; BODY_LEN] = [0u8; BODY_LEN];
        let mut i: usize = 0;
        while i < BODY_LEN
            invariant
                i <= BODY_LEN,
                b@.len() == FRAME_LEN,
                msg@.len() == BODY_LEN,
                forall|j: int| 0 <= j < i ==> msg@[j] == b@[4 + j],
            decreases BODY_LEN - i,
        {
            msg[i] = b[i + 4];
            i = i + 1;
        }
        assert(msg@ =~= b@.subrange(4, FRAME_LEN as int));
        Ok(TcpResponse { statuscode: get_u32(b, 0), msg })
    }
}

impl RegisterResponseMessage {
    /// The response body that carries this message: its payload, then zeros.
    pub fn encode_body(&self) -> (r: [u8; BODY_LEN])
        ensures
            r@ == body_bytes(*self),
    {
        let mut payload: Vec<u8> = Vec::new();
        put_u32(&mut payload, self.id);
        put_u32(&mut payload, self.width);
        put_u32(&mut payload, self.height);
        put_u32(&mut payload, self.speed);
        put_u32(&mut payload, self.radius);
        put_u32(&mut payload, self.paddle);
        assert(payload@ =~= payload_bytes(*self));
        let mut body: [u8; BODY_LEN] = [0u8; BODY_LEN];
        let mut i: usize = 0;
        while i < PAYLOAD_LEN
            invariant
                i <= PAYLOAD_LEN,
                payload@ == payload_bytes(*self),
                body@.len() == BODY_LEN,
                forall|j: int| 0 <= j < i ==> body@[j] == payload@[j],
                forall|j: int| i <= j < BODY_LEN ==> body@[j] == 0,
            decreases PAYLOAD_LEN - i,
        {
            body[i] = payload[i];
            i = i + 1;
        }
        assert(body@ =~= body_bytes(*self));
        body
    }

    /// Reads the registration payload from the body of a response; a body of
    /// `BODY_LEN` bytes always holds one.
    pub fn from_tcp_response(tcp_response: TcpResponse) -> (r: Result<RegisterResponseMessage, WireError>)
        ensures
            r == Ok::<RegisterResponseMessage, WireError>(payload_of(tcp_response.msg@)),
    {
        let b = tcp_response.msg.as_slice();
        Ok(RegisterResponseMessage {
            id: get_u32(b, 0),
            width: get_u32(b, 4),
            height: get_u32(b, 8),
            speed: get_u32(b, 12),
            radius: get_u32(b, 16),
            paddle: get_u32(b, 20),
        })
    }
}

impl PositionMessage {
    /// The publish's bytes: the sender identifier, then the position record.
    pub fn encode(&self) -> (r: Vec<u8>)
        ensures
            r@ == publish_bytes(*self),
    {
        let mut out: Vec<u8> = Vec::new();
        put_u32(&mut out, self.id);
        put_position(&mut out, &self.position);
        assert(out@ =~= publish_bytes(*self));
        out
    }

    /// Reads a publish of exactly `PUBLISH_LEN` bytes.
    pub fn decode(b: &[u8]) -> (r: Result<PositionMessage, WireError>)
        ensures
            match r {
                Ok(m) => b@.len() == PUBLISH_LEN && m == (PositionMessage {
                    id: u32_at(b@, 0),
                    position: position_at(b@, 4),
                }),
                Err(e) => b@.len() != PUBLISH_LEN && e == WireError::MalformedMessage,
            },
    {
        if b.len() != PUBLISH_LEN {
            return Err(WireError::MalformedMessage);
        }
        Ok(PositionMessage { id: get_u32(b, 0), position: get_position(b, 4) })
    }
}

impl SnapshotMessage {
    /// The snapshot's bytes: scores, active flag, countdown, record count, then
    /// one record per position.
    pub fn encode(&self) -> (r: Vec<u8>)
        requires
            self.positions@.len() <= u32::MAX,
        ensures
            r@ == snapshot_bytes(self@),
    {
        let mut out: Vec<u8> = Vec::new();
        out.push(self.left_score);
        out.push(self.right_score);
        out.push(if self.active {
            1u8
        } else {
            0u8
        });
        put_u32(&mut out, self.countdown as u32);
        put_u32(&mut out, self.positions.len() as u32);
        let ghost head = out@;
        let mut i: usize = 0;
        while i < self.positions.len()
            invariant
                i <= self.positions@.len(),
                out@ == head + positions_bytes(self.positions@.subrange(0, i as int)),
            decreases self.positions@.len() - i,
        {
            put_position(&mut out, &self.positions[i]);
            let ghost done = self.positions@.subrange(0, i + 1);
            assert(done.drop_last() =~= self.positions@.subrange(0, i as int));
            i = i + 1;
            assert(out@ =~= head + positions_bytes(done));
        }
        assert(self.positions@.subrange(0, i as int) =~= self.positions@);
        assert(head =~= seq![self.left_score, self.right_score, flag_byte(self.active)] + be32(
            self.countdown as u32,
        ) + be32(self.positions@.len() as u32));
        out
    }

    /// Reads a snapshot whose byte count matches the record count it
    /// announces.
    pub fn decode(b: &[u8]) -> (r: Result<SnapshotMessage, WireError>)
        ensures
            match r {
                Ok(s) => snapshot_len_ok(b@) && s@ == snapshot_of(b@),
                Err(e) => !snapshot_len_ok(b@) && e == WireError::MalformedMessage,
            },
    {
        let n: usize = b.len();
        if n < SNAPSHOT_HEADER_LEN {
            return Err(WireError::MalformedMessage);
        }
        let count: u32 = get_u32(b, 7);
        if (n - SNAPSHOT_HEADER_LEN) as u64 != 16u64 * (count as u64) {
            return Err(WireError::MalformedMessage);
        }
        let mut positions: Vec<Position> = Vec::new();
        let mut i: usize = 0;
        while i < count as usize
            invariant
                n == b@.len(),
                snapshot_len_ok(b@),
                count == snapshot_count(b@),
                i <= count,
                positions@ == records_of(b@, i as nat),
            decreases count - i,
        {
            let at: usize = SNAPSHOT_HEADER_LEN + RECORD_LEN * i;
            positions.push(get_position(b, at));
            i = i + 1;
            assert(positions@ =~= records_of(b@, i as nat));
        }
        Ok(
            SnapshotMessage {
                left_score: b[0],
                right_score: b[1],
                active: b[2] != 0,
                countdown: get_u32(b, 3) as i32,
                positions,
            },
        )
    }
}

// ---- round trips ----

proof fn lemma_u32_at(b: Seq<u8>, at: int, v: u32)
    requires
        0 <= at,
        at + 4 <= b.len(),
        b.subrange(at, at + 4) == be32(v),
    ensures
        u32_at(b, at) == v,
{
    lemma_be32_round_trip(v);
}

proof fn lemma_position_at(b: Seq<u8>, at: int, p: Position)
    requires
        0 <= at,
        at + 16 <= b.len(),
        b.subrange(at, at + 16) == position_bytes(p),
    ensures
        position_at(b, at) == p,
{
    let r = b.subrange(at, at + 16);
    lemma_be32_round_trip(p.x);
    lemma_be32_round_trip(p.y);
    lemma_be32_round_trip(p.dx);
    lemma_be32_round_trip(p.dy);
    assert(b.subrange(at, at + 4) =~= r.subrange(0, 4));
    assert(b.subrange(at + 4, at + 8) =~= r.subrange(4, 8));
    assert(b.subrange(at + 8, at + 12) =~= r.subrange(8, 12));
    assert(b.subrange(at + 12, at + 16) =~= r.subrange(12, 16));
    assert(r.subrange(0, 4) =~= be32(p.x));
    assert(r.subrange(4, 8) =~= be32(p.y));
    assert(r.subrange(8, 12) =~= be32(p.dx));
    assert(r.subrange(12, 16) =~= be32(p.dy));
    lemma_u32_at(b, at, p.x);
    lemma_u32_at(b, at + 4, p.y);
    lemma_u32_at(b, at + 8, p.dx);
    lemma_u32_at(b, at + 12, p.dy);
}

proof fn lemma_positions_bytes(ps: Seq<Position>)
    ensures
        positions_bytes(ps).len() == RECORD_LEN * ps.len(),
        forall|i: int|
            0 <= i < ps.len() ==> #[trigger] positions_bytes(ps).subrange(
                RECORD_LEN * i,
                RECORD_LEN * i + RECORD_LEN,
            ) == position_bytes(ps[i]),
    decreases ps.len(),
{
    if ps.len() > 0 {
        let init = ps.drop_last();
        lemma_positions_bytes(init);
        lemma_be32_round_trip(ps.last().x);
        lemma_be32_round_trip(ps.last().y);
        lemma_be32_round_trip(ps.last().dx);
        lemma_be32_round_trip(ps.last().dy);
        let all = positions_bytes(ps);
        assert(all == positions_bytes(init) + position_bytes(ps.last()));
        assert forall|i: int| 0 <= i < ps.len() implies #[trigger] all.subrange(
            RECORD_LEN * i,
            RECORD_LEN * i + RECORD_LEN,
        ) == position_bytes(ps[i]) by {
            if i < init.len() {
                assert(positions_bytes(init).subrange(RECORD_LEN * i, RECORD_LEN * i + RECORD_LEN)
                    == position_bytes(init[i]));
                assert(all.subrange(RECORD_LEN * i, RECORD_LEN * i + RECORD_LEN)
                    =~= positions_bytes(init).subrange(RECORD_LEN * i, RECORD_LEN * i + RECORD_LEN));
            } else {
                assert(all.subrange(RECORD_LEN * i, RECORD_LEN * i + RECORD_LEN)
                    =~= position_bytes(ps.last()));
            }
        }
    }
}

/// Decoding an encoded registration request gives the request back.
pub proof fn lemma_request_round_trip(r: TcpRequest)
    ensures
        request_bytes(r).len() == FRAME_LEN,
        u32_at(request_bytes(r), 0) == r.opcode,
{
    let b = request_bytes(r);
    lemma_be32_round_trip(r.opcode);
    assert(b.subrange(0, 4) =~= be32(r.opcode));
    lemma_u32_at(b, 0, r.opcode);
}

/// Decoding an encoded registration response gives its status code and its
/// body back, for a body of `BODY_LEN` bytes.
pub proof fn lemma_response_round_trip(statuscode: u32, msg: Seq<u8>)
    requires
        msg.len() == BODY_LEN,
    ensures
        response_bytes(statuscode, msg).len() == FRAME_LEN,
        u32_at(response_bytes(statuscode, msg), 0) == statuscode,
        response_bytes(statuscode, msg).subrange(4, FRAME_LEN as int) == msg,
{
    let b = response_bytes(statuscode, msg);
    lemma_be32_round_trip(statuscode);
    assert(b.subrange(0, 4) =~= be32(statuscode));
    lemma_u32_at(b, 0, statuscode);
    assert(b.subrange(4, FRAME_LEN as int) =~= msg);
}

/// Reading the payload of the body that carries a registration message gives
/// the message back.
pub proof fn lemma_registration_round_trip(m: RegisterResponseMessage)
    ensures
        body_bytes(m).len() == BODY_LEN,
        payload_of(body_bytes(m)) == m,
{
    let b = body_bytes(m);
    lemma_be32_round_trip(m.id);
    lemma_be32_round_trip(m.width);
    lemma_be32_round_trip(m.height);
    lemma_be32_round_trip(m.speed);
    lemma_be32_round_trip(m.radius);
    lemma_be32_round_trip(m.paddle);
    assert(b.subrange(0, 4) =~= be32(m.id));
    assert(b.subrange(4, 8) =~= be32(m.width));
    assert(b.subrange(8, 12) =~= be32(m.height));
    assert(b.subrange(12, 16) =~= be32(m.speed));
    assert(b.subrange(16, 20) =~= be32(m.radius));
    assert(b.subrange(20, 24) =~= be32(m.paddle));
    lemma_u32_at(b, 0, m.id);
    lemma_u32_at(b, 4, m.width);
    lemma_u32_at(b, 8, m.height);
    lemma_u32_at(b, 12, m.speed);
    lemma_u32_at(b, 16, m.radius);
    lemma_u32_at(b, 20, m.paddle);
}

/// Decoding an encoded position publish gives the publish back.
pub proof fn lemma_publish_round_trip(m: PositionMessage)
    ensures
        publish_bytes(m).len() == PUBLISH_LEN,
        u32_at(publish_bytes(m), 0) == m.id,
        position_at(publish_bytes(m), 4) == m.position,
{
    let b = publish_bytes(m);
    lemma_be32_round_trip(m.id);
    lemma_be32_round_trip(m.position.x);
    lemma_be32_round_trip(m.position.y);
    lemma_be32_round_trip(m.position.dx);
    lemma_be32_round_trip(m.position.dy);
    assert(b.subrange(0, 4) =~= be32(m.id));
    lemma_u32_at(b, 0, m.id);
    assert(b.subrange(4, 20) =~= position_bytes(m.position));
    lemma_position_at(b, 4, m.position);
}

/// Decoding an encoded snapshot gives the snapshot back, for one with at most
/// `u32::MAX` positions.
pub proof fn lemma_snapshot_round_trip(s: SnapshotView)
    requires
        s.positions.len() <= u32::MAX,
    ensures
        snapshot_len_ok(snapshot_bytes(s)),
        snapshot_of(snapshot_bytes(s)) == s,
{
    let b = snapshot_bytes(s);
    let n = s.positions.len();
    let c = s.countdown;
    lemma_be32_round_trip(c as u32);
    lemma_be32_round_trip(n as u32);
    lemma_positions_bytes(s.positions);
    let body = positions_bytes(s.positions);
    assert(b.subrange(3, 7) =~= be32(c as u32));
    assert(b.subrange(7, 11) =~= be32(n as u32));
    lemma_u32_at(b, 3, c as u32);
    lemma_u32_at(b, 7, n as u32);
    assert((c as u32) as i32 == c) by (bit_vector);
    assert forall|i: int| 0 <= i < n implies #[trigger] records_of(b, n)[i] == s.positions[i] by {
        let at = SNAPSHOT_HEADER_LEN + RECORD_LEN * i;
        assert(body.subrange(RECORD_LEN * i, RECORD_LEN * i + RECORD_LEN) == position_bytes(
            s.positions[i],
        ));
        assert(b.subrange(at, at + 16) =~= body.subrange(RECORD_LEN * i, RECORD_LEN * i + RECORD_LEN));
        lemma_position_at(b, at, s.positions[i]);
    }
    assert(records_of(b, n) =~= s.positions);
    assert(b[2] != 0 <==> s.active);
}

} // verus!
