//! The remote console (RCON) protocols of Source and GoldSrc servers:
//! the packets, and the exchange that sends a command and collects its
//! answer, first over TCP (Source), then, where that fails, over UDP
//! (GoldSrc).
use vstd::prelude::*;
use vstd::utf8::{decode_utf8, encode_utf8, valid_utf8};
use byteorder::{LittleEndian, ReadBytesExt, WriteBytesExt};
use crate::text::{chars_of, starts_with, starts_with_exec, subvec, trim, trim_exec, trim_nul, trim_nul_exec};

verus! {

// ---------------------------------------------------------------------
// Integers and text as bytes
// ---------------------------------------------------------------------

/// The four bytes of `n`, least significant first.
pub open spec fn le_bytes(n: i32) -> Seq<u8> {
    let u = n as u32;
    seq![
        (u & 0xff) as u8,
        ((u >> 8u32) & 0xff) as u8,
        ((u >> 16u32) & 0xff) as u8,
        ((u >> 24u32) & 0xff) as u8,
    ]
}

/// The number whose four bytes, least significant first, are `b0` to `b3`.
pub open spec fn le_value(b0: u8, b1: u8, b2: u8, b3: u8) -> i32 {
    ((b0 as u32) | ((b1 as u32) << 8u32) | ((b2 as u32) << 16u32) | ((b3 as u32) << 24u32)) as i32
}

/// The number that the first four bytes of `b` hold, least significant first.
pub open spec fn read_le(b: Seq<u8>) -> i32 {
    le_value(b[0], b[1], b[2], b[3])
}

/// The text that `String::from_utf8_lossy` makes of `bytes`.
pub uninterp spec fn lossy_utf8(bytes: Seq<u8>) -> Seq<char>;

/// The text of `bytes`: their decoding where they are valid UTF-8, and
/// otherwise what `String::from_utf8_lossy` makes of them.
pub open spec fn text_of(bytes: Seq<u8>) -> Seq<char> {
    if valid_utf8(bytes) {
        decode_utf8(bytes)
    } else {
        lossy_utf8(bytes)
    }
}

/// `WriteBytesExt::write_i32::<LittleEndian>` on a vector: appends the
/// four bytes of `n`, least significant first. Writing to a vector does
/// not fail.
#[verifier::external_body]
fn write_i32_le(out: &mut Vec<u8>, n: i32)
    ensures
        final(out)@ == old(out)@ + le_bytes(n),
{
    out.write_i32::<LittleEndian>(n).unwrap();
}

/// `ReadBytesExt::read_i32::<LittleEndian>` on a byte slice: the number
/// that the first four bytes hold, least significant first; `None`
/// where fewer than four bytes are left.
#[verifier::external_body]
fn read_i32_le(bytes: &[u8]) -> (r: Option<i32>)
    ensures
        r is Some <==> bytes@.len() >= 4,
        r matches Some(v) ==> v == read_le(bytes@),
{
    let mut cursor = bytes;
    cursor.read_i32::<LittleEndian>().ok()
}

/// `String::from_utf8_lossy`: the text of `bytes`, where each invalid
/// sequence becomes U+FFFD. Valid UTF-8 is decoded as it stands.
#[verifier::external_body]
fn utf8_lossy(bytes: &[u8]) -> (s: String)
    ensures
        s@ == lossy_utf8(bytes@),
        valid_utf8(bytes@) ==> s@ == decode_utf8(bytes@),
{
    String::from_utf8_lossy(bytes).into_owned()
}

/// `std::str::from_utf8`: the text of `bytes` where they are valid UTF-8.
#[verifier::external_body]
fn utf8_strict(bytes: &[u8]) -> (s: Option<String>)
    ensures
        s is Some <==> valid_utf8(bytes@),
        s matches Some(t) ==> t@ == decode_utf8(bytes@),
{
    match std::str::from_utf8(bytes) {
        Ok(t) => Some(t.to_string()),
        Err(_) => None,
    }
}

/// Appends `b` to `out`.
fn push_bytes(out: &mut Vec<u8>, b: &[u8])
    ensures
        final(out)@ == old(out)@ + b@,
{
    let ghost start = out@;
    let mut i: usize = 0;
    while i < b.len()
        invariant
            i <= b.len(),
            out@ == start + b@.take(i as int),
        decreases b.len() - i,
    {
        out.push(b[i]);
        assert(start + b@.take(i as int) + seq![b@[i as int]] =~= start + b@.take(i + 1));
        i = i + 1;
    }
    assert(b@.take(b.len() as int) =~= b@);
}

/// The bytes of `b` from position `a` on.
fn bytes_from(b: &[u8], a: usize) -> (r: Vec<u8>)
    requires
        a <= b.len(),
    ensures
        r@ == b@.skip(a as int),
{
    let mut r: Vec<u8> = Vec::new();
    let mut i = a;
    while i < b.len()
        invariant
            a <= i <= b.len(),
            r@ == b@.subrange(a as int, i as int),
        decreases b.len() - i,
    {
        r.push(b[i]);
        assert(b@.subrange(a as int, i as int).push(b@[i as int]) =~= b@.subrange(
            a as int,
            i + 1,
        ));
        i = i + 1;
    }
    assert(b@.subrange(a as int, b.len() as int) =~= b@.skip(a as int));
    r
}

// ---------------------------------------------------------------------
// Source packets
// ---------------------------------------------------------------------

/// The body of a Source RCON packet: id, type, the text and two NULs.
pub open spec fn payload(id: i32, ty: i32, body: Seq<char>) -> Seq<u8> {
    le_bytes(id) + le_bytes(ty) + encode_utf8(body) + seq![0u8, 0u8]
}

/// A Source RCON packet: the length of its body, then the body.
pub open spec fn packet(id: i32, ty: i32, body: Seq<char>) -> Seq<u8> {
    le_bytes(payload(id, ty, body).len() as i32) + payload(id, ty, body)
}

/// What a packet body (the bytes after its length) holds: id, type and
/// the text without surrounding NULs; `None` where it is shorter than
/// the id and the type.
pub open spec fn decoded(b: Seq<u8>) -> Option<(i32, i32, Seq<char>)> {
    if b.len() < 8 {
        None
    } else {
        Some((read_le(b), read_le(b.skip(4)), trim_nul(text_of(b.skip(8)))))
    }
}

/// Builds the Source RCON packet with this id, type and text.
pub fn pkt(id: i32, ty: i32, body: &str) -> (p: Vec<u8>)
    ensures
        p@ == packet(id, ty, body@),
{
    let mut inner: Vec<u8> = Vec::new();
    write_i32_le(&mut inner, id);
    write_i32_le(&mut inner, ty);
    push_bytes(&mut inner, body.as_bytes());
    inner.push(0);
    inner.push(0);
    assert(inner@ =~= payload(id, ty, body@));
    let mut out: Vec<u8> = Vec::new();
    write_i32_le(&mut out, inner.len() as i32);
    push_bytes(&mut out, inner.as_slice());
    assert(out@ =~= packet(id, ty, body@));
    out
}

/// Reads a packet body (the bytes after its length): its id, its type
/// and its text, decoded leniently and without surrounding NULs.
pub fn decode_packet(buf: &[u8]) -> (r: Option<(i32, i32, String)>)
    ensures
        match r {
            Some((id, ty, body)) => decoded(buf@) == Some((id, ty, body@)),
            None => decoded(buf@) is None,
        },
{
    let id = match read_i32_le(buf) {
        Some(v) => v,
        None => return None,
    };
    let rest = bytes_from(buf, 4);
    let ty = match read_i32_le(rest.as_slice()) {
        Some(v) => v,
        None => return None,
    };
    let body = bytes_from(buf, 8);
    let text = utf8_lossy(body.as_slice());
    let chars = chars_of(text.as_str());
    let trimmed = trim_nul_exec(&chars);
    Some((id, ty, crate::text::string_of(&trimmed)))
}

// ---------------------------------------------------------------------
// GoldSrc datagrams
// ---------------------------------------------------------------------

/// The four bytes that begin every GoldSrc datagram.
pub open spec fn marker() -> Seq<u8> {
    seq![0xffu8, 0xffu8, 0xffu8, 0xffu8]
}

/// The datagram that asks a GoldSrc server for a challenge.
pub open spec fn challenge_request() -> Seq<u8> {
    marker() + encode_utf8("challenge rcon"@)
}

/// The datagram that runs `cmd` with the challenge and the password.
pub open spec fn command_datagram(ch: Seq<char>, pass: Seq<char>, cmd: Seq<char>) -> Seq<u8> {
    marker() + encode_utf8("rcon "@) + encode_utf8(ch) + encode_utf8(" "@) + encode_utf8(pass)
        + encode_utf8(" "@) + encode_utf8(cmd) + seq![0u8]
}

/// The text of a challenge answer after its prefix, trimmed, if the
/// answer is UTF-8 and has the prefix.
pub open spec fn challenge_text(d: Seq<u8>) -> Option<Seq<char>> {
    let b = d.skip(4);
    if !valid_utf8(b) {
        None
    } else {
        let t = decode_utf8(b);
        let p = "challenge rcon "@;
        if starts_with(t, p) {
            Some(trim(t.skip(p.len() as int)))
        } else {
            None
        }
    }
}

/// Whether a challenge answer can be read: it has the marker's length,
/// and where it is a challenge, its trimmed text ends in a line feed
/// and a NUL.
pub open spec fn challenge_readable(d: Seq<u8>) -> bool {
    &&& d.len() >= 4
    &&& challenge_text(d) matches Some(t) ==> t.len() >= 2 && t.skip(t.len() - 2) == "\n\0"@
}

/// The challenge that an answer carries.
pub open spec fn challenge_of(d: Seq<u8>) -> Option<Seq<char>> {
    match challenge_text(d) {
        Some(t) => Some(t.take(t.len() - 2)),
        None => None,
    }
}

/// Builds the datagram that asks for a challenge.
pub fn challenge_request_exec() -> (d: Vec<u8>)
    ensures
        d@ == challenge_request(),
{
    let mut d: Vec<u8> = Vec::new();
    d.push(0xff);
    d.push(0xff);
    d.push(0xff);
    d.push(0xff);
    push_bytes(&mut d, "challenge rcon".as_bytes());
    assert(d@ =~= challenge_request());
    d
}

/// Builds the datagram that runs `cmd`.
pub fn command_datagram_exec(ch: &str, pass: &str, cmd: &str) -> (d: Vec<u8>)
    ensures
        d@ == command_datagram(ch@, pass@, cmd@),
{
    let mut d: Vec<u8> = Vec::new();
    d.push(0xff);
    d.push(0xff);
    d.push(0xff);
    d.push(0xff);
    push_bytes(&mut d, "rcon ".as_bytes());
    push_bytes(&mut d, ch.as_bytes());
    push_bytes(&mut d, " ".as_bytes());
    push_bytes(&mut d, pass.as_bytes());
    push_bytes(&mut d, " ".as_bytes());
    push_bytes(&mut d, cmd.as_bytes());
    d.push(0);
    assert(d@ =~= command_datagram(ch@, pass@, cmd@));
    d
}

/// Reads the challenge from a GoldSrc answer.
pub fn read_challenge(d: &[u8]) -> (r: Option<String>)
    requires
        challenge_readable(d@),
    ensures
        match r {
            Some(c) => challenge_of(d@) == Some(c@),
            None => challenge_of(d@) is None,
        },
{
    let body = bytes_from(d, 4);
    let text = match utf8_strict(body.as_slice()) {
        Some(t) => t,
        None => return None,
    };
    let t = chars_of(text.as_str());
    let prefix = chars_of("challenge rcon ");
    if !starts_with_exec(&t, &prefix) {
        return None;
    }
    let rest = subvec(&t, prefix.len(), t.len());
    assert(rest@ =~= t@.skip(prefix@.len() as int));
    let trimmed = trim_exec(&rest);
    assert(trimmed.len() >= 2);
    let ch = subvec(&trimmed, 0, trimmed.len() - 2);
    assert(ch@ =~= trimmed@.take(trimmed@.len() - 2));
    Some(crate::text::string_of(&ch))
}

/// Whether a challenge answer can be read.
pub fn challenge_readable_exec(d: &[u8]) -> (b: bool)
    ensures
        b == challenge_readable(d@),
{
    if d.len() < 4 {
        return false;
    }
    let body = bytes_from(d, 4);
    let text = match utf8_strict(body.as_slice()) {
        Some(t) => t,
        None => return true,
    };
    let t = chars_of(text.as_str());
    let prefix = chars_of("challenge rcon ");
    if !starts_with_exec(&t, &prefix) {
        return true;
    }
    let rest = subvec(&t, prefix.len(), t.len());
    assert(rest@ =~= t@.skip(prefix@.len() as int));
    let trimmed = trim_exec(&rest);
    if trimmed.len() < 2 {
        return false;
    }
    let end = subvec(&trimmed, trimmed.len() - 2, trimmed.len());
    assert(end@ =~= trimmed@.skip(trimmed@.len() - 2));
    let expected = chars_of("\n\0");
    crate::text::same_text(&end, &expected)
}

/// The text of a GoldSrc answer to a command, decoded leniently.
pub fn read_reply_datagram(d: &[u8]) -> (s: String)
    requires
        d@.len() >= 4,
    ensures
        s@ == text_of(d@.skip(4)),
{
    let body = bytes_from(d, 4);
    utf8_lossy(body.as_slice())
}


// ---------------------------------------------------------------------
// The exchange
// ---------------------------------------------------------------------

/// Where an exchange stands.
#[derive(Clone, Copy, Debug, PartialEq, Eq, Structural)]
pub enum RconStage {
    /// Connecting over TCP.
    Connect,
    /// Sending the password.
    AuthSend,
    /// Waiting for the answer to the password.
    AuthReply,
    /// Sending the command.
    CommandSend,
    /// Sending the empty packet that marks the end of the answer.
    EndSend,
    /// Collecting the answer to the command.
    CommandReply,
    /// Opening a UDP socket.
    UdpOpen,
    /// Sending the challenge request.
    ChallengeSend,
    /// Waiting for the challenge.
    ChallengeReply,
    /// Sending the command datagram.
    DatagramSend,
    /// Waiting for the answer datagram.
    DatagramReply,
    /// Done.
    Finished,
}

/// What the caller is to do next.
#[derive(Debug)]
pub enum RconAction {
    /// Connect over TCP to the address.
    TcpConnect,
    /// Write these bytes to the connection.
    TcpWrite(Vec<u8>),
    /// Read one packet: its length, then that many bytes.
    TcpRead,
    /// Open a UDP socket.
    UdpOpen,
    /// Send this datagram to the address.
    UdpSend(Vec<u8>),
    /// Receive one datagram.
    UdpRecv,
    /// The exchange is over, with this answer.
    Finish(Option<String>),
}

/// What came of the last action.
#[derive(Debug)]
pub enum RconEvent {
    /// It succeeded (connecting, opening or sending).
    Done,
    /// It failed.
    Failed,
    /// A packet was read: the bytes after its length.
    Frame(Vec<u8>),
    /// A datagram was received.
    Datagram(Vec<u8>),
}

/// An RCON exchange in progress.
pub struct RconExchange {
    pub addr: String,
    pub pass: String,
    pub cmd: String,
    pub stage: RconStage,
    /// The answer collected so far over TCP.
    pub reply: String,
    /// The answer, once finished.
    pub result: Option<String>,
}

/// The model of an [`RconAction`].
pub enum ActionModel {
    TcpConnect,
    TcpWrite(Seq<u8>),
    TcpRead,
    UdpOpen,
    UdpSend(Seq<u8>),
    UdpRecv,
    Finish(Option<Seq<char>>),
}

/// The model of an [`RconEvent`].
pub enum EventModel {
    Done,
    Failed,
    Frame(Seq<u8>),
    Datagram(Seq<u8>),
}

/// The model of an [`RconExchange`].
pub struct ExchangeModel {
    pub addr: Seq<char>,
    pub pass: Seq<char>,
    pub cmd: Seq<char>,
    pub stage: RconStage,
    pub reply: Seq<char>,
    pub result: Option<Seq<char>>,
}

impl View for RconAction {
    type V = ActionModel;

    open spec fn view(&self) -> ActionModel {
        match self {
            RconAction::TcpConnect => ActionModel::TcpConnect,
            RconAction::TcpWrite(b) => ActionModel::TcpWrite(b@),
            RconAction::TcpRead => ActionModel::TcpRead,
            RconAction::UdpOpen => ActionModel::UdpOpen,
            RconAction::UdpSend(b) => ActionModel::UdpSend(b@),
            RconAction::UdpRecv => ActionModel::UdpRecv,
            RconAction::Finish(r) => ActionModel::Finish(
                match r {
                    Some(s) => Some(s@),
                    None => None,
                },
            ),
        }
    }
}

impl View for RconEvent {
    type V = EventModel;

    open spec fn view(&self) -> EventModel {
        match self {
            RconEvent::Done => EventModel::Done,
            RconEvent::Failed => EventModel::Failed,
            RconEvent::Frame(b) => EventModel::Frame(b@),
            RconEvent::Datagram(b) => EventModel::Datagram(b@),
        }
    }
}

impl View for RconExchange {
    type V = ExchangeModel;

    open spec fn view(&self) -> ExchangeModel {
        ExchangeModel {
            addr: self.addr@,
            pass: self.pass@,
            cmd: self.cmd@,
            stage: self.stage,
            reply: self.reply@,
            result: match self.result {
                Some(s) => Some(s@),
                None => None,
            },
        }
    }
}

/// The exchange moved to `stage`, asking for `a`.
pub open spec fn go(m: ExchangeModel, stage: RconStage, a: ActionModel) -> (ExchangeModel, ActionModel) {
    (ExchangeModel { stage, ..m }, a)
}

/// The Source attempt failed: try GoldSrc.
pub open spec fn fall_back(m: ExchangeModel) -> (ExchangeModel, ActionModel) {
    go(m, RconStage::UdpOpen, ActionModel::UdpOpen)
}

/// The exchange ends with `r`.
pub open spec fn finish(m: ExchangeModel, r: Option<Seq<char>>) -> (ExchangeModel, ActionModel) {
    (ExchangeModel { stage: RconStage::Finished, result: r, ..m }, ActionModel::Finish(r))
}

/// The packet types and ids of the Source exchange.
pub open spec fn auth_type() -> i32 {
    3
}

/// The type of the answer to the password, and of a command packet.
pub open spec fn command_type() -> i32 {
    2
}

/// The id of the password packet.
pub open spec fn auth_id() -> i32 {
    1
}

/// The id of the command packet, and of the packets of its answer.
pub open spec fn command_id() -> i32 {
    2
}

/// The id of the empty packet after the command, whose echo ends the answer.
pub open spec fn end_id() -> i32 {
    3
}

/// One step of an exchange: what follows `e` in the state `m`. An event
/// of another kind than the last action calls for counts as a failure.
pub open spec fn rcon_step(m: ExchangeModel, e: EventModel) -> (ExchangeModel, ActionModel) {
    match m.stage {
        RconStage::Connect => match e {
            EventModel::Done => go(
                m,
                RconStage::AuthSend,
                ActionModel::TcpWrite(packet(auth_id(), auth_type(), m.pass)),
            ),
            _ => fall_back(m),
        },
        RconStage::AuthSend => match e {
            EventModel::Done => go(m, RconStage::AuthReply, ActionModel::TcpRead),
            _ => fall_back(m),
        },
        RconStage::AuthReply => match e {
            EventModel::Frame(b) => match decoded(b) {
                Some((id, ty, _)) => if ty == command_type() {
                    if id == -1 {
                        fall_back(m)
                    } else {
                        go(
                            m,
                            RconStage::CommandSend,
                            ActionModel::TcpWrite(packet(command_id(), command_type(), m.cmd)),
                        )
                    }
                } else {
                    go(m, RconStage::AuthReply, ActionModel::TcpRead)
                },
                None => fall_back(m),
            },
            _ => fall_back(m),
        },
        RconStage::CommandSend => match e {
            EventModel::Done => go(
                m,
                RconStage::EndSend,
                ActionModel::TcpWrite(packet(end_id(), command_type(), seq![])),
            ),
            _ => fall_back(m),
        },
        RconStage::EndSend => match e {
            EventModel::Done => (
                ExchangeModel { stage: RconStage::CommandReply, reply: seq![], ..m },
                ActionModel::TcpRead,
            ),
            _ => fall_back(m),
        },
        RconStage::CommandReply => match e {
            EventModel::Frame(b) => match decoded(b) {
                Some((id, _, body)) => if id == end_id() {
                    finish(m, Some(m.reply))
                } else if id == command_id() {
                    (ExchangeModel { reply: m.reply + body, ..m }, ActionModel::TcpRead)
                } else {
                    go(m, RconStage::CommandReply, ActionModel::TcpRead)
                },
                None => fall_back(m),
            },
            _ => fall_back(m),
        },
        RconStage::UdpOpen => match e {
            EventModel::Done => go(
                m,
                RconStage::ChallengeSend,
                ActionModel::UdpSend(challenge_request()),
            ),
            _ => finish(m, None),
        },
        RconStage::ChallengeSend => match e {
            EventModel::Done => go(m, RconStage::ChallengeReply, ActionModel::UdpRecv),
            _ => finish(m, None),
        },
        RconStage::ChallengeReply => match e {
            EventModel::Datagram(d) => match challenge_of(d) {
                Some(ch) => go(
                    m,
                    RconStage::DatagramSend,
                    ActionModel::UdpSend(command_datagram(ch, m.pass, m.cmd)),
                ),
                None => finish(m, None),
            },
            _ => finish(m, None),
        },
        RconStage::DatagramSend => match e {
            EventModel::Done => go(m, RconStage::DatagramReply, ActionModel::UdpRecv),
            _ => finish(m, None),
        },
        RconStage::DatagramReply => match e {
            EventModel::Datagram(d) => finish(m, Some(text_of(d.skip(4)))),
            _ => finish(m, None),
        },
        RconStage::Finished => (m, ActionModel::Finish(m.result)),
    }
}

/// Whether an event can be taken in the state `m`: a datagram must be at
/// least as long as the marker, and a challenge answer readable.
pub open spec fn accepts(m: ExchangeModel, e: EventModel) -> bool {
    match e {
        EventModel::Datagram(d) => match m.stage {
            RconStage::ChallengeReply => challenge_readable(d),
            RconStage::DatagramReply => d.len() >= 4,
            _ => true,
        },
        _ => true,
    }
}

/// Starts an exchange that runs `cmd` on the server at `addr` with the
/// password `pass`; the first action is to connect over TCP.
pub fn rcon(addr: &str, pass: &str, cmd: &str) -> (r: (RconExchange, RconAction))
    ensures
        r.0@ == (ExchangeModel {
            addr: addr@,
            pass: pass@,
            cmd: cmd@,
            stage: RconStage::Connect,
            reply: seq![],
            result: None,
        }),
        r.1@ == ActionModel::TcpConnect,
{
    let ex = RconExchange {
        addr: addr.to_owned(),
        pass: pass.to_owned(),
        cmd: cmd.to_owned(),
        stage: RconStage::Connect,
        reply: String::new(),
        result: None,
    };
    (ex, RconAction::TcpConnect)
}

impl RconExchange {
    /// Whether `e` can be taken now.
    pub fn accepts(&self, e: &RconEvent) -> (b: bool)
        ensures
            b == accepts(self@, e@),
    {
        match e {
            RconEvent::Datagram(d) => match self.stage {
                RconStage::ChallengeReply => challenge_readable_exec(d.as_slice()),
                RconStage::DatagramReply => d.len() >= 4,
                _ => true,
            },
            _ => true,
        }
    }

    fn go(&mut self, stage: RconStage, a: RconAction) -> (r: RconAction)
        ensures
            (final(self)@, r@) == go(old(self)@, stage, a@),
    {
        self.stage = stage;
        a
    }

    fn fall_back(&mut self) -> (r: RconAction)
        ensures
            (final(self)@, r@) == fall_back(old(self)@),
    {
        self.go(RconStage::UdpOpen, RconAction::UdpOpen)
    }

    fn finish(&mut self, result: Option<String>) -> (r: RconAction)
        ensures
            (final(self)@, r@) == finish(
                old(self)@,
                match result {
                    Some(s) => Some(s@),
                    None => None,
                },
            ),
    {
        self.stage = RconStage::Finished;
        let copy = match &result {
            Some(s) => Some(s.clone()),
            None => None,
        };
        self.result = result;
        RconAction::Finish(copy)
    }

    /// Takes the outcome of the last action and says what to do next, as
    /// [`rcon_step`] defines.
    pub fn step(&mut self, e: RconEvent) -> (a: RconAction)
        requires
            accepts(old(self)@, e@),
        ensures
            (final(self)@, a@) == rcon_step(old(self)@, e@),
    {
        match self.stage {
            RconStage::Connect => match e {
                RconEvent::Done => {
                    let p = pkt(1, 3, self.pass.as_str());
                    self.go(RconStage::AuthSend, RconAction::TcpWrite(p))
                },
                _ => self.fall_back(),
            },
            RconStage::AuthSend => match e {
                RconEvent::Done => self.go(RconStage::AuthReply, RconAction::TcpRead),
                _ => self.fall_back(),
            },
            RconStage::AuthReply => match e {
                RconEvent::Frame(b) => match decode_packet(b.as_slice()) {
                    Some((id, ty, _)) => {
                        if ty == 2 {
                            if id == -1 {
                                self.fall_back()
                            } else {
                                let p = pkt(2, 2, self.cmd.as_str());
                                self.go(RconStage::CommandSend, RconAction::TcpWrite(p))
                            }
                        } else {
                            self.go(RconStage::AuthReply, RconAction::TcpRead)
                        }
                    },
                    None => self.fall_back(),
                },
                _ => self.fall_back(),
            },
            RconStage::CommandSend => match e {
                RconEvent::Done => {
                    let p = pkt(3, 2, "");
                    proof {
                        reveal_strlit("");
                    }
                    assert(""@ =~= Seq::<char>::empty());
                    self.go(RconStage::EndSend, RconAction::TcpWrite(p))
                },
                _ => self.fall_back(),
            },
            RconStage::EndSend => match e {
                RconEvent::Done => {
                    self.reply = String::new();
                    self.go(RconStage::CommandReply, RconAction::TcpRead)
                },
                _ => self.fall_back(),
            },
            RconStage::CommandReply => match e {
                RconEvent::Frame(b) => match decode_packet(b.as_slice()) {
                    Some((id, _, body)) => {
                        if id == 3 {
                            let out = self.reply.clone();
                            self.finish(Some(out))
                        } else if id == 2 {
                            self.reply.append(body.as_str());
                            RconAction::TcpRead
                        } else {
                            self.go(RconStage::CommandReply, RconAction::TcpRead)
                        }
                    },
                    None => self.fall_back(),
                },
                _ => self.fall_back(),
            },
            RconStage::UdpOpen => match e {
                RconEvent::Done => {
                    let d = challenge_request_exec();
                    self.go(RconStage::ChallengeSend, RconAction::UdpSend(d))
                },
                _ => self.finish(None),
            },
            RconStage::ChallengeSend => match e {
                RconEvent::Done => self.go(RconStage::ChallengeReply, RconAction::UdpRecv),
                _ => self.finish(None),
            },
            RconStage::ChallengeReply => match e {
                RconEvent::Datagram(d) => match read_challenge(d.as_slice()) {
                    Some(ch) => {
                        let out = command_datagram_exec(
                            ch.as_str(),
                            self.pass.as_str(),
                            self.cmd.as_str(),
                        );
                        self.go(RconStage::DatagramSend, RconAction::UdpSend(out))
                    },
                    None => self.finish(None),
                },
                _ => self.finish(None),
            },
            RconStage::DatagramSend => match e {
                RconEvent::Done => self.go(RconStage::DatagramReply, RconAction::UdpRecv),
                _ => self.finish(None),
            },
            RconStage::DatagramReply => match e {
                RconEvent::Datagram(d) => {
                    let text = read_reply_datagram(d.as_slice());
                    self.finish(Some(text))
                },
                _ => self.finish(None),
            },
            RconStage::Finished => {
                let copy = match &self.result {
                    Some(s) => Some(s.clone()),
                    None => None,
                };
                RconAction::Finish(copy)
            },
        }
    }
}


// ---------------------------------------------------------------------
// Laws
// ---------------------------------------------------------------------

/// Reading back the four bytes of a number gives the number.
pub proof fn lemma_le_roundtrip(n: i32, rest: Seq<u8>)
    ensures
        read_le(le_bytes(n) + rest) == n,
{
    let b = le_bytes(n) + rest;
    assert(b[0] == le_bytes(n)[0] && b[1] == le_bytes(n)[1] && b[2] == le_bytes(n)[2] && b[3]
        == le_bytes(n)[3]);
    let u = n as u32;
    assert((((u & 0xff) as u8) as u32 | ((((u >> 8u32) & 0xff) as u8) as u32) << 8u32 | ((((u
        >> 16u32) & 0xff) as u8) as u32) << 16u32 | ((((u >> 24u32) & 0xff) as u8) as u32)
        << 24u32) == u) by (bit_vector);
    assert((u as i32) == n) by (bit_vector)
        requires
            u == n as u32,
    ;
}

/// The encoding of a concatenation is the concatenation of encodings.
pub proof fn lemma_encode_utf8_concat(a: Seq<char>, b: Seq<char>)
    ensures
        encode_utf8(a + b) == encode_utf8(a) + encode_utf8(b),
    decreases a.len(),
{
    if a.len() == 0 {
        assert(a + b =~= b);
        assert(encode_utf8(a) + encode_utf8(b) =~= encode_utf8(b));
    } else {
        assert((a + b).drop_first() =~= a.drop_first() + b);
        assert((a + b)[0] == a[0]);
        lemma_encode_utf8_concat(a.drop_first(), b);
        assert(encode_utf8(a + b) =~= encode_scalar_of(a[0]) + encode_utf8(a.drop_first() + b));
    }
}

/// The encoding of one character.
pub open spec fn encode_scalar_of(c: char) -> Seq<u8> {
    vstd::utf8::encode_scalar(c as u32)
}

/// Whether a text neither begins nor ends with NUL.
pub open spec fn no_edge_nul(body: Seq<char>) -> bool {
    body.len() == 0 || (body[0] != '\0' && body.last() != '\0')
}

/// Trimming NULs off a text that does not begin or end with NUL, after
/// two NULs were appended to it, gives back the text.
pub proof fn lemma_trim_appended_nuls(body: Seq<char>)
    requires
        no_edge_nul(body),
    ensures
        trim_nul(body + seq!['\0', '\0']) == body,
{
    let s = body + seq!['\0', '\0'];
    let f = crate::text::nul_pred();
    if body.len() == 0 {
        assert(s.drop_first().drop_first() =~= Seq::<char>::empty());
        assert(crate::text::trim_start_by(s, f) == crate::text::trim_start_by(s.drop_first(), f));
        assert(crate::text::trim_start_by(s.drop_first(), f) == crate::text::trim_start_by(
            s.drop_first().drop_first(),
            f,
        ));
        assert(crate::text::trim_start_by(s, f) =~= body);
    } else {
        assert(s[0] == body[0]);
        assert(crate::text::trim_start_by(s, f) == s);
        assert(s.drop_last().drop_last() =~= body);
        assert(s.drop_last().last() == '\0');
        assert(crate::text::trim_end_by(s, f) == crate::text::trim_end_by(s.drop_last(), f));
        assert(crate::text::trim_end_by(s.drop_last(), f) == crate::text::trim_end_by(
            body,
            f,
        ));
    }
}

/// A packet reads back as it was written: its first four bytes give the
/// length of the rest, and the rest gives the id, the type and the text,
/// where the text neither begins nor ends with NUL and the packet is
/// short enough for its length to be written.
pub proof fn lemma_packet_roundtrip(id: i32, ty: i32, body: Seq<char>)
    requires
        no_edge_nul(body),
        payload(id, ty, body).len() <= i32::MAX,
    ensures
        read_le(packet(id, ty, body)) == payload(id, ty, body).len(),
        packet(id, ty, body).skip(4) == payload(id, ty, body),
        decoded(packet(id, ty, body).skip(4)) == Some((id, ty, body)),
{
    let p = payload(id, ty, body);
    let n = p.len() as i32;
    assert(n as int == p.len()) by {
        assert(0 <= p.len() <= i32::MAX);
    }
    lemma_le_roundtrip(n, p);
    assert(packet(id, ty, body).skip(4) =~= p);
    let tail = le_bytes(ty) + encode_utf8(body) + seq![0u8, 0u8];
    assert(p =~= le_bytes(id) + tail);
    lemma_le_roundtrip(id, tail);
    assert(p.skip(4) =~= le_bytes(ty) + (encode_utf8(body) + seq![0u8, 0u8]));
    lemma_le_roundtrip(ty, encode_utf8(body) + seq![0u8, 0u8]);
    assert(p.skip(8) =~= encode_utf8(body) + seq![0u8, 0u8]);
    let nuls = seq!['\0', '\0'];
    assert(encode_utf8(nuls) =~= seq![0u8, 0u8]) by {
        assert(('\0' as u32) == 0u32);
        assert((0u32 & 0x7Fu32) as u8 == 0u8) by (bit_vector);
        assert(vstd::utf8::encode_scalar('\0' as u32) =~= seq![0u8]);
        assert(nuls.drop_first() =~= seq!['\0']);
        assert(nuls.drop_first().drop_first() =~= Seq::<char>::empty());
        reveal_with_fuel(encode_utf8, 3);
    }
    lemma_encode_utf8_concat(body, nuls);
    vstd::utf8::encode_utf8_valid_utf8(body + nuls);
    vstd::utf8::encode_utf8_decode_utf8(body + nuls);
    assert(text_of(p.skip(8)) == body + nuls);
    lemma_trim_appended_nuls(body);
}


/// The state and the last action after taking the events `es` in turn,
/// starting from `m` with `a` as the last action.
pub open spec fn run(m: ExchangeModel, a: ActionModel, es: Seq<EventModel>) -> (
    ExchangeModel,
    ActionModel,
)
    decreases es.len(),
{
    if es.len() == 0 {
        (m, a)
    } else {
        let (m2, a2) = rcon_step(m, es[0]);
        run(m2, a2, es.drop_first())
    }
}

/// The events of reading the packet bodies `fs`.
pub open spec fn frames(fs: Seq<Seq<u8>>) -> Seq<EventModel> {
    fs.map_values(|f: Seq<u8>| EventModel::Frame(f))
}

/// The text that the packet bodies `fs` add to an answer: those with
/// the command's id, in order.
pub open spec fn collected(fs: Seq<Seq<u8>>) -> Seq<char>
    decreases fs.len(),
{
    if fs.len() == 0 {
        seq![]
    } else {
        (match decoded(fs[0]) {
            Some((id, _, body)) => if id == command_id() {
                body
            } else {
                seq![]
            },
            None => seq![],
        }) + collected(fs.drop_first())
    }
}

/// Whether a packet body reads as a packet that does not end the answer.
pub open spec fn continues_answer(b: Seq<u8>) -> bool {
    match decoded(b) {
        Some((id, _, _)) => id != end_id(),
        None => false,
    }
}

/// Whether every body in `fs` reads as a packet that does not end the
/// answer.
pub open spec fn answer_frames(fs: Seq<Seq<u8>>) -> bool {
    forall|i: int| 0 <= i < fs.len() ==> #[trigger] continues_answer(fs[i])
}

/// Taking `x` and then `y` is taking `x + y`.
pub proof fn lemma_run_concat(m: ExchangeModel, a: ActionModel, x: Seq<EventModel>, y: Seq<EventModel>)
    ensures
        run(m, a, x + y) == run(run(m, a, x).0, run(m, a, x).1, y),
    decreases x.len(),
{
    if x.len() == 0 {
        assert(x + y =~= y);
    } else {
        let (m2, a2) = rcon_step(m, x[0]);
        assert((x + y)[0] == x[0]);
        assert((x + y).drop_first() =~= x.drop_first() + y);
        lemma_run_concat(m2, a2, x.drop_first(), y);
    }
}

/// While the answer is being collected, every packet of the command adds
/// its text, and every other packet that does not end the answer is
/// passed over.
pub proof fn lemma_collects(m: ExchangeModel, a: ActionModel, fs: Seq<Seq<u8>>)
    requires
        m.stage == RconStage::CommandReply,
        answer_frames(fs),
    ensures
        run(m, a, frames(fs)).0 == (ExchangeModel { reply: m.reply + collected(fs), ..m }),
        fs.len() > 0 ==> run(m, a, frames(fs)).1 == ActionModel::TcpRead,
    decreases fs.len(),
{
    if fs.len() == 0 {
        assert(m.reply + collected(fs) =~= m.reply);
    } else {
        let e = frames(fs)[0];
        assert(e == EventModel::Frame(fs[0]));
        assert(continues_answer(fs[0]));
        let (m2, a2) = rcon_step(m, e);
        assert(frames(fs).drop_first() =~= frames(fs.drop_first()));
        assert(answer_frames(fs.drop_first())) by {
            assert forall|i: int| 0 <= i < fs.drop_first().len() implies #[trigger] continues_answer(
                fs.drop_first()[i],
            ) by {
                assert(fs.drop_first()[i] == fs[i + 1]);
            }
        }
        lemma_collects(m2, a2, fs.drop_first());
        let piece = match decoded(fs[0]) {
            Some((id, _, body)) => if id == command_id() {
                body
            } else {
                seq![]
            },
            None => seq![],
        };
        assert(m2 == ExchangeModel { reply: m.reply + piece, ..m }) by {
            if piece.len() == 0 {
                assert(m.reply + piece =~= m.reply);
            }
        }
        assert(m.reply + piece + collected(fs.drop_first()) =~= m.reply + collected(fs));
    }
}

/// The state in which every exchange starts.
pub open spec fn start(addr: Seq<char>, pass: Seq<char>, cmd: Seq<char>) -> ExchangeModel {
    ExchangeModel { addr, pass, cmd, stage: RconStage::Connect, reply: seq![], result: None }
}

/// A Source server that connects, accepts the password, takes the
/// command and its end marker, answers with the packets `fs` and then
/// echoes the end marker yields exactly the text of the answer packets
/// with the command's id.
pub proof fn lemma_source_answer(
    addr: Seq<char>,
    pass: Seq<char>,
    cmd: Seq<char>,
    auth: Seq<u8>,
    fs: Seq<Seq<u8>>,
    end: Seq<u8>,
)
    requires
        decoded(auth) matches Some((id, ty, _)) && ty == command_type() && id != -1,
        answer_frames(fs),
        decoded(end) matches Some((id, _, _)) && id == end_id(),
    ensures
        run(
            start(addr, pass, cmd),
            ActionModel::TcpConnect,
            seq![
                EventModel::Done,
                EventModel::Done,
                EventModel::Frame(auth),
                EventModel::Done,
                EventModel::Done,
            ] + frames(fs) + seq![EventModel::Frame(end)],
        ).1 == ActionModel::Finish(Some(collected(fs))),
{
    let s0 = start(addr, pass, cmd);
    let head = seq![
        EventModel::Done,
        EventModel::Done,
        EventModel::Frame(auth),
        EventModel::Done,
        EventModel::Done,
    ];
    let tail = seq![EventModel::Frame(end)];
    lemma_run_concat(s0, ActionModel::TcpConnect, head + frames(fs), tail);
    lemma_run_concat(s0, ActionModel::TcpConnect, head, frames(fs));
    reveal_with_fuel(run, 6);
    let h = run(s0, ActionModel::TcpConnect, head);
    assert(h.0 == ExchangeModel { stage: RconStage::CommandReply, ..s0 });
    lemma_collects(h.0, h.1, fs);
    let c = run(h.0, h.1, frames(fs));
    assert(c.0.reply == collected(fs)) by {
        assert(Seq::<char>::empty() + collected(fs) =~= collected(fs));
    }
    assert(run(c.0, c.1, tail) == rcon_step(c.0, tail[0]));
}

/// A GoldSrc server that gives a challenge is sent the command with that
/// challenge, and its answer, after the marker, is the result.
pub proof fn lemma_goldsrc_answer(m: ExchangeModel, a: ActionModel, d1: Seq<u8>, d2: Seq<u8>)
    requires
        m.stage == RconStage::UdpOpen,
        challenge_of(d1) is Some,
        d2.len() >= 4,
    ensures
        run(m, a, seq![EventModel::Done, EventModel::Done, EventModel::Datagram(d1)]).1
            == ActionModel::UdpSend(command_datagram(challenge_of(d1)->0, m.pass, m.cmd)),
        run(
            m,
            a,
            seq![
                EventModel::Done,
                EventModel::Done,
                EventModel::Datagram(d1),
                EventModel::Done,
                EventModel::Datagram(d2),
            ],
        ).1 == ActionModel::Finish(Some(text_of(d2.skip(4)))),
{
    reveal_with_fuel(run, 6);
}

/// A failure anywhere in the Source attempt starts the GoldSrc attempt.
pub proof fn lemma_source_failure_falls_back(m: ExchangeModel)
    requires
        m.stage == RconStage::Connect || m.stage == RconStage::AuthSend || m.stage
            == RconStage::AuthReply || m.stage == RconStage::CommandSend || m.stage
            == RconStage::EndSend || m.stage == RconStage::CommandReply,
    ensures
        rcon_step(m, EventModel::Failed) == (
            ExchangeModel { stage: RconStage::UdpOpen, ..m },
            ActionModel::UdpOpen,
        ),
{
}

/// A failure anywhere in the GoldSrc attempt ends the exchange without
/// an answer.
pub proof fn lemma_goldsrc_failure_ends(m: ExchangeModel)
    requires
        m.stage == RconStage::UdpOpen || m.stage == RconStage::ChallengeSend || m.stage
            == RconStage::ChallengeReply || m.stage == RconStage::DatagramSend || m.stage
            == RconStage::DatagramReply,
    ensures
        rcon_step(m, EventModel::Failed) == (
            ExchangeModel { stage: RconStage::Finished, result: None, ..m },
            ActionModel::Finish(None),
        ),
{
}

/// A finished exchange stays finished, and keeps giving its result.
pub proof fn lemma_finished_stays(m: ExchangeModel, a: ActionModel, es: Seq<EventModel>)
    requires
        m.stage == RconStage::Finished,
        es.len() > 0,
    ensures
        run(m, a, es) == (m, ActionModel::Finish(m.result)),
    decreases es.len(),
{
    reveal_with_fuel(run, 2);
    if es.len() > 1 {
        lemma_finished_stays(m, ActionModel::Finish(m.result), es.drop_first());
    }
}

/// The stages of the Source (TCP) attempt.
pub open spec fn in_source(s: RconStage) -> bool {
    s == RconStage::Connect || s == RconStage::AuthSend || s == RconStage::AuthReply || s
        == RconStage::CommandSend || s == RconStage::EndSend || s == RconStage::CommandReply
}

/// Whether an event is a packet that ends the answer.
pub open spec fn ends_answer(e: EventModel) -> bool {
    match e {
        EventModel::Frame(b) => match decoded(b) {
            Some((id, _, _)) => id == end_id(),
            None => false,
        },
        _ => false,
    }
}

/// The state in which the GoldSrc (UDP) attempt starts.
pub open spec fn goldsrc_start(addr: Seq<char>, pass: Seq<char>, cmd: Seq<char>) -> ExchangeModel {
    ExchangeModel { addr, pass, cmd, stage: RconStage::UdpOpen, reply: seq![], result: None }
}

/// Whether two states differ in the collected Source answer at most.
pub open spec fn same_but_reply(m1: ExchangeModel, m2: ExchangeModel) -> bool {
    m1 == ExchangeModel { reply: m1.reply, ..m2 }
}

/// The exchange `es` took the Source answer at event `k`: the packet
/// that ended the answer came while it was being collected, and the
/// exchange finished with what was collected.
pub open spec fn source_answered(
    addr: Seq<char>,
    pass: Seq<char>,
    cmd: Seq<char>,
    es: Seq<EventModel>,
    k: int,
) -> bool {
    let p = run(start(addr, pass, cmd), ActionModel::TcpConnect, es.take(k));
    &&& 0 <= k < es.len()
    &&& p.0.stage == RconStage::CommandReply
    &&& ends_answer(es[k])
    &&& run(start(addr, pass, cmd), ActionModel::TcpConnect, es) == finish(p.0, Some(p.0.reply))
}

/// The Source attempt of the exchange `es` failed after `k` events, and
/// from there the exchange is the GoldSrc attempt on the events left.
pub open spec fn fell_back(
    addr: Seq<char>,
    pass: Seq<char>,
    cmd: Seq<char>,
    es: Seq<EventModel>,
    k: int,
) -> bool {
    let r = run(start(addr, pass, cmd), ActionModel::TcpConnect, es);
    let g = run(goldsrc_start(addr, pass, cmd), ActionModel::UdpOpen, es.skip(k));
    &&& 0 <= k <= es.len()
    &&& run(start(addr, pass, cmd), ActionModel::TcpConnect, es.take(k)).0.stage
        == RconStage::UdpOpen
    &&& same_but_reply(r.0, g.0)
    &&& r.1 == g.1
}

/// One step of the Source attempt stays in it, falls back to GoldSrc, or
/// ends with the collected answer on the packet that ends it.
pub proof fn lemma_source_step(m: ExchangeModel, e: EventModel)
    requires
        in_source(m.stage),
        m.result is None,
    ensures
        ({
            let n = rcon_step(m, e);
            &&& n.0.addr == m.addr && n.0.pass == m.pass && n.0.cmd == m.cmd
            &&& (in_source(n.0.stage) && n.0.result is None) || n == fall_back(m) || (m.stage
                == RconStage::CommandReply && ends_answer(e) && n == finish(m, Some(m.reply)))
        }),
{
}

/// Outside the Source attempt, a step neither depends on nor changes
/// the collected Source answer, and never goes back to that attempt.
pub proof fn lemma_step_ignores_reply(m1: ExchangeModel, m2: ExchangeModel, e: EventModel)
    requires
        same_but_reply(m1, m2),
        !in_source(m2.stage),
    ensures
        same_but_reply(rcon_step(m1, e).0, rcon_step(m2, e).0),
        rcon_step(m1, e).1 == rcon_step(m2, e).1,
        !in_source(rcon_step(m2, e).0.stage),
{
}

/// Taking one more event is one more step.
pub proof fn lemma_run_push(m: ExchangeModel, a: ActionModel, es: Seq<EventModel>, e: EventModel)
    ensures
        run(m, a, es.push(e)) == rcon_step(run(m, a, es).0, e),
{
    lemma_run_concat(m, a, es, seq![e]);
    assert(es.push(e) =~= es + seq![e]);
    reveal_with_fuel(run, 2);
}

/// A run outside the Source attempt never goes back to it.
pub proof fn lemma_outside_source_stays(m: ExchangeModel, a: ActionModel, es: Seq<EventModel>)
    requires
        !in_source(m.stage),
    ensures
        !in_source(run(m, a, es).0.stage),
    decreases es.len(),
{
    if es.len() > 0 {
        let (m2, a2) = rcon_step(m, es[0]);
        lemma_step_ignores_reply(m, m, es[0]);
        lemma_outside_source_stays(m2, a2, es.drop_first());
    }
}

/// The whole exchange that [`rcon`] starts: whatever events come, it is
/// still in its Source attempt (with no result yet); or it has the Source
/// answer, taken when the answer ended; or its Source attempt failed and
/// from then on it is the GoldSrc attempt, whose result (an answer, or
/// none where that attempt fails too) is the exchange's.
pub proof fn lemma_exchange(addr: Seq<char>, pass: Seq<char>, cmd: Seq<char>, es: Seq<EventModel>)
    ensures
        ({
            let r = run(start(addr, pass, cmd), ActionModel::TcpConnect, es);
            ||| (in_source(r.0.stage) && r.0.result is None && r.0.addr == addr && r.0.pass
                == pass && r.0.cmd == cmd)
            ||| exists|k: int| source_answered(addr, pass, cmd, es, k)
            ||| exists|k: int| fell_back(addr, pass, cmd, es, k)
        }),
    decreases es.len(),
{
    let s0 = start(addr, pass, cmd);
    let gs = goldsrc_start(addr, pass, cmd);
    if es.len() == 0 {
        return;
    }
    let rest = es.drop_last();
    let e = es.last();
    assert(es =~= rest.push(e));
    lemma_exchange(addr, pass, cmd, rest);
    lemma_run_push(s0, ActionModel::TcpConnect, rest, e);
    let prev = run(s0, ActionModel::TcpConnect, rest);
    let r = run(s0, ActionModel::TcpConnect, es);
    assert(r == rcon_step(prev.0, e));
    if in_source(prev.0.stage) && prev.0.result is None && prev.0.addr == addr && prev.0.pass
        == pass && prev.0.cmd == cmd {
        lemma_source_step(prev.0, e);
        if in_source(r.0.stage) && r.0.result is None {
        } else if r == fall_back(prev.0) {
            let k = es.len() as int;
            assert(es.take(k) =~= es);
            assert(es.skip(k) =~= Seq::<EventModel>::empty());
            assert(fell_back(addr, pass, cmd, es, k));
        } else {
            let k = es.len() - 1;
            assert(es.take(k) =~= rest);
            assert(source_answered(addr, pass, cmd, es, k));
        }
    } else if exists|k: int| source_answered(addr, pass, cmd, rest, k) {
        let k = choose|k: int| source_answered(addr, pass, cmd, rest, k);
        assert(es.take(k) =~= rest.take(k));
        assert(es[k] == rest[k]);
        assert(source_answered(addr, pass, cmd, es, k));
    } else {
        let k = choose|k: int| fell_back(addr, pass, cmd, rest, k);
        assert(es.take(k) =~= rest.take(k));
        let g_prev = run(gs, ActionModel::UdpOpen, rest.skip(k));
        lemma_outside_source_stays(gs, ActionModel::UdpOpen, rest.skip(k));
        lemma_run_push(gs, ActionModel::UdpOpen, rest.skip(k), e);
        assert(es.skip(k) =~= rest.skip(k).push(e));
        lemma_step_ignores_reply(prev.0, g_prev.0, e);
        assert(fell_back(addr, pass, cmd, es, k));
    }
}

} // verus!
