use vstd::prelude::*;
use vstd::seq_lib::lemma_concat_associative;
use vstd::string::StringSliceAdditionalSpecFns;
use vstd::utf8::{encode_utf8, valid_utf8, decode_utf8};
use crate::net_structs::{NET_TICDIFF_FORWARD, NET_TICDIFF_SIDE, NET_TICDIFF_TURN, NET_TICDIFF_BUTTONS, NET_TICDIFF_CONSISTANCY, NET_TICDIFF_CHATCHAR, NET_TICDIFF_RAVEN, NET_TICDIFF_STRIFE, TicCmd, TicDiff, FullTicCmd, ConnectData, GameSettings, WaitData, Protocol, NET_MAXPLAYERS, MAXPLAYERNAME, zero_ticdiff};

verus! {

// ---------------------------------------------------------------------
// Byte-level model of the wire format
// ---------------------------------------------------------------------

/// Little-endian bytes of a 16-bit value.
pub open spec fn le16(v: u16) -> Seq<u8> {
    seq![(v % 256) as u8, (v / 256) as u8]
}

/// Little-endian bytes of a 32-bit value.
pub open spec fn le32(v: u32) -> Seq<u8> {
    seq![(v % 256) as u8, ((v / 256) % 256) as u8, ((v / 65536) % 256) as u8, (v / 16777216) as u8]
}

/// The 16-bit value stored little-endian at `p`.
pub open spec fn get_le16(b: Seq<u8>, p: int) -> u16 {
    (b[p] + 256 * b[p + 1]) as u16
}

/// The 32-bit value stored little-endian at `p`.
pub open spec fn get_le32(b: Seq<u8>, p: int) -> u32 {
    (b[p] + 256 * b[p + 1] + 65536 * b[p + 2] + 16777216 * b[p + 3]) as u32
}

/// True when `n` bytes are available at `p`.
pub open spec fn has_bytes(b: Seq<u8>, p: int, n: int) -> bool {
    0 <= p && p + n <= b.len()
}

pub open spec fn dec_u8(b: Seq<u8>, p: int) -> Option<(u8, int)> {
    if has_bytes(b, p, 1) { Some((b[p], p + 1)) } else { None }
}

pub open spec fn dec_i8(b: Seq<u8>, p: int) -> Option<(i8, int)> {
    if has_bytes(b, p, 1) { Some((b[p] as i8, p + 1)) } else { None }
}

pub open spec fn dec_u16(b: Seq<u8>, p: int) -> Option<(u16, int)> {
    if has_bytes(b, p, 2) { Some((get_le16(b, p), p + 2)) } else { None }
}

pub open spec fn dec_i16(b: Seq<u8>, p: int) -> Option<(i16, int)> {
    if has_bytes(b, p, 2) { Some((get_le16(b, p) as i16, p + 2)) } else { None }
}

pub open spec fn dec_u32(b: Seq<u8>, p: int) -> Option<(u32, int)> {
    if has_bytes(b, p, 4) { Some((get_le32(b, p), p + 4)) } else { None }
}

pub open spec fn dec_i32(b: Seq<u8>, p: int) -> Option<(i32, int)> {
    if has_bytes(b, p, 4) { Some((get_le32(b, p) as i32, p + 4)) } else { None }
}

/// `r` and the cursor after a read agree with the decoded value `d`: on
/// success the value and the position past it, on failure `None` with the
/// cursor left where it was.
pub open spec fn read_outcome<T>(r: Option<T>, d: Option<(T, int)>, before: usize, after: usize) -> bool {
    match d {
        Some((v, q)) => r == Some(v) && after == q,
        None => r is None && after == before,
    }
}

/// NUL-terminated bytes of a string.
pub open spec fn cstring(s: Seq<u8>) -> Seq<u8> {
    s.push(0u8)
}

/// Text that `String::from_utf8_lossy` makes of some bytes.
pub uninterp spec fn utf8_lossy(b: Seq<u8>) -> Seq<char>;

/// Whether a character has Unicode's White_Space property: the 25 code
/// points U+0009..=U+000D, U+0020, U+0085, U+00A0, U+1680,
/// U+2000..=U+200A, U+2028, U+2029, U+202F, U+205F and U+3000.
pub open spec fn white_space(c: char) -> bool {
    ('\u{9}' <= c <= '\u{d}') || c == ' ' || c == '\u{85}' || c == '\u{a0}' || c == '\u{1680}'
        || ('\u{2000}' <= c <= '\u{200a}') || c == '\u{2028}' || c == '\u{2029}' || c == '\u{202f}'
        || c == '\u{205f}' || c == '\u{3000}'
}

/// Printable ASCII, space excluded.
pub open spec fn ascii_graphic(c: char) -> bool {
    '!' <= c <= '~'
}

/// The characters a safe string keeps.
pub open spec fn safe_char(c: char) -> bool {
    ascii_graphic(c) || white_space(c)
}

/// Relies on `String::from_utf8_lossy`: decodes the bytes, each invalid
/// sequence turned into U+FFFD; the text depends on the bytes alone, and
/// valid UTF-8 decodes to the text it encodes.
#[verifier::external_body]
fn lossy_chars(b: &[u8]) -> (r: Vec<char>)
    ensures
        r@ == utf8_lossy(b@),
        valid_utf8(b@) ==> r@ == decode_utf8(b@),
{
    String::from_utf8_lossy(b).chars().collect()
}

/// Relies on `FromIterator<char> for String`: the string holds the
/// characters in order.
#[verifier::external_body]
fn string_of_chars(v: &[char]) -> (r: String)
    ensures
        r@ == v@,
{
    v.iter().collect()
}

/// Whether a character has Unicode's White_Space property.
fn is_white_space(c: char) -> (r: bool)
    ensures
        r == white_space(c),
{
    ('\u{9}' <= c && c <= '\u{d}') || c == ' ' || c == '\u{85}' || c == '\u{a0}' || c == '\u{1680}'
        || ('\u{2000}' <= c && c <= '\u{200a}') || c == '\u{2028}' || c == '\u{2029}' || c == '\u{202f}'
        || c == '\u{205f}' || c == '\u{3000}'
}

// ---------------------------------------------------------------------
// Integer encodings
// ---------------------------------------------------------------------

proof fn lemma_le16(v: u16)
    ensures
        get_le16(le16(v), 0) == v,
{
    assert(v % 256 + 256 * (v / 256) == v) by (nonlinear_arith);
}

proof fn lemma_le32(v: u32)
    ensures
        get_le32(le32(v), 0) == v,
{
    let a = v / 256;
    let b = a / 256;
    let c = b / 256;
    assert(v == v % 256 + 256 * a) by (nonlinear_arith) requires a == v / 256;
    assert(a == a % 256 + 256 * b) by (nonlinear_arith) requires b == a / 256;
    assert(b == b % 256 + 256 * c) by (nonlinear_arith) requires c == b / 256;
    assert(c < 256) by (nonlinear_arith) requires c == ((v / 256) / 256) / 256, v < 0x1_0000_0000;
    assert(v / 65536 == b) by (nonlinear_arith) requires a == v / 256, b == a / 256, v >= 0;
    assert(v / 16777216 == c) by (nonlinear_arith) requires a == v / 256, b == a / 256, c == b / 256, v >= 0;
}

proof fn lemma_i8_cast(v: i8)
    ensures
        (v as u8) as i8 == v,
{
    assert((v as u8) as i8 == v) by (bit_vector);
}

proof fn lemma_i16_cast(v: i16)
    ensures
        (v as u16) as i16 == v,
{
    assert((v as u16) as i16 == v) by (bit_vector);
}

// ---------------------------------------------------------------------
// Tic-command diffs on the wire
// ---------------------------------------------------------------------

/// Whether `flag` is set in a diff mask.
pub open spec fn has_flag(mask: u32, flag: u32) -> bool {
    mask & flag != 0
}

/// `s` when `c` holds, else nothing.
pub open spec fn bytes_if(c: bool, s: Seq<u8>) -> Seq<u8> {
    if c { s } else { Seq::empty() }
}

/// `n` when `c` holds, else 0.
pub open spec fn size_if(c: bool, n: int) -> int {
    if c { n } else { 0 }
}

/// An angle turn divided by 256, rounded toward zero, as sent in
/// low-resolution mode.
pub open spec fn coarse_turn(a: i16) -> i8 {
    (if a >= 0 { a / 256 } else { -((-a) / 256) }) as i8
}

/// The bytes of a diff: the low byte of the mask, then each flagged field
/// in flag order.
pub open spec fn enc_ticdiff(d: TicDiff, lowres: bool) -> Seq<u8> {
    enc_prefix(d, lowres, 8)
}

#[verifier::opaque]
pub open spec fn off_side(m: u32) -> int {
    size_if(has_flag(m, NET_TICDIFF_FORWARD), 1)
}

#[verifier::opaque]
pub open spec fn off_turn(m: u32) -> int {
    off_side(m) + size_if(has_flag(m, NET_TICDIFF_SIDE), 1)
}

#[verifier::opaque]
pub open spec fn off_buttons(m: u32, lowres: bool) -> int {
    off_turn(m) + size_if(has_flag(m, NET_TICDIFF_TURN), if lowres { 1 } else { 2 })
}

#[verifier::opaque]
pub open spec fn off_consistancy(m: u32, lowres: bool) -> int {
    off_buttons(m, lowres) + size_if(has_flag(m, NET_TICDIFF_BUTTONS), 1)
}

#[verifier::opaque]
pub open spec fn off_chatchar(m: u32, lowres: bool) -> int {
    off_consistancy(m, lowres) + size_if(has_flag(m, NET_TICDIFF_CONSISTANCY), 1)
}

#[verifier::opaque]
pub open spec fn off_raven(m: u32, lowres: bool) -> int {
    off_chatchar(m, lowres) + size_if(has_flag(m, NET_TICDIFF_CHATCHAR), 1)
}

#[verifier::opaque]
pub open spec fn off_strife(m: u32, lowres: bool) -> int {
    off_raven(m, lowres) + size_if(has_flag(m, NET_TICDIFF_RAVEN), 2)
}

/// How many bytes follow the mask byte of a diff.
#[verifier::opaque]
pub open spec fn ticdiff_body_len(m: u32, lowres: bool) -> int {
    off_strife(m, lowres) + size_if(has_flag(m, NET_TICDIFF_STRIFE), 3)
}

/// The diff whose fields start at `q`, for mask `m`; fields whose flag is
/// clear are zero.
pub open spec fn ticdiff_at(b: Seq<u8>, q: int, m: u32, lowres: bool) -> TicDiff {
    TicDiff {
        diff: m,
        cmd: TicCmd {
            forwardmove: if has_flag(m, NET_TICDIFF_FORWARD) { b[q] as i8 } else { 0 },
            sidemove: if has_flag(m, NET_TICDIFF_SIDE) { b[q + off_side(m)] as i8 } else { 0 },
            angleturn: if has_flag(m, NET_TICDIFF_TURN) {
                if lowres {
                    ((b[q + off_turn(m)] as i8) * 256) as i16
                } else {
                    get_le16(b, q + off_turn(m)) as i16
                }
            } else {
                0
            },
            buttons: if has_flag(m, NET_TICDIFF_BUTTONS) { b[q + off_buttons(m, lowres)] } else { 0 },
            consistancy: if has_flag(m, NET_TICDIFF_CONSISTANCY) {
                b[q + off_consistancy(m, lowres)]
            } else {
                0
            },
            chatchar: if has_flag(m, NET_TICDIFF_CHATCHAR) { b[q + off_chatchar(m, lowres)] } else { 0 },
            lookfly: if has_flag(m, NET_TICDIFF_RAVEN) { b[q + off_raven(m, lowres)] } else { 0 },
            arti: if has_flag(m, NET_TICDIFF_RAVEN) { b[q + off_raven(m, lowres) + 1] } else { 0 },
            buttons2: if has_flag(m, NET_TICDIFF_STRIFE) { b[q + off_strife(m, lowres)] } else { 0 },
            inventory: if has_flag(m, NET_TICDIFF_STRIFE) {
                (get_le16(b, q + off_strife(m, lowres) + 1) as i16) as i32
            } else {
                0
            },
        },
    }
}

/// Decodes a diff at `p`.
pub open spec fn dec_ticdiff(b: Seq<u8>, p: int, lowres: bool) -> Option<(TicDiff, int)> {
    if !has_bytes(b, p, 1) {
        None
    } else {
        let m = b[p] as u32;
        if !has_bytes(b, p + 1, ticdiff_body_len(m, lowres)) {
            None
        } else {
            Some((ticdiff_at(b, p + 1, m, lowres), p + 1 + ticdiff_body_len(m, lowres)))
        }
    }
}

/// A packet: the bytes and a read cursor.
#[derive(Debug, Clone)]
pub struct Packet {
    pub data: Vec<u8>,
    pub pos: usize,
}

impl Packet {
    /// An empty packet.
    pub fn new() -> (r: Packet)
        ensures
            r.data@ == Seq::<u8>::empty(),
            r.pos == 0,
    {
        Packet { data: Vec::new(), pos: 0 }
    }

    /// Appends raw bytes.
    pub fn write_blob(&mut self, data: &[u8])
        ensures
            final(self).data@ == old(self).data@ + data@,
            final(self).pos == old(self).pos,
    {
        let mut i: usize = 0;
        while i < data.len()
            invariant
                i <= data@.len(),
                self.data@ == old(self).data@ + data@.subrange(0, i as int),
                self.pos == old(self).pos,
            decreases data@.len() - i,
        {
            self.data.push(data[i]);
            i = i + 1;
            assert(data@.subrange(0, i as int) == data@.subrange(0, i - 1) + seq![data@[i - 1]]);
        }
        assert(data@.subrange(0, i as int) == data@);
    }

    pub fn write_u8(&mut self, value: u8)
        ensures
            final(self).data@ == old(self).data@.push(value),
            final(self).pos == old(self).pos,
    {
        self.data.push(value);
    }

    pub fn write_i8(&mut self, value: i8)
        ensures
            final(self).data@ == old(self).data@.push(value as u8),
            final(self).pos == old(self).pos,
    {
        self.write_u8(value as u8);
    }

    pub fn write_u16(&mut self, value: u16)
        ensures
            final(self).data@ == old(self).data@ + le16(value),
            final(self).pos == old(self).pos,
    {
        self.data.push((value % 256) as u8);
        self.data.push((value / 256) as u8);
        assert(self.data@ == old(self).data@ + le16(value));
    }

    pub fn write_i16(&mut self, value: i16)
        ensures
            final(self).data@ == old(self).data@ + le16(value as u16),
            final(self).pos == old(self).pos,
    {
        self.write_u16(value as u16);
    }

    pub fn write_u32(&mut self, value: u32)
        ensures
            final(self).data@ == old(self).data@ + le32(value),
            final(self).pos == old(self).pos,
    {
        self.data.push((value % 256) as u8);
        self.data.push(((value / 256) % 256) as u8);
        self.data.push(((value / 65536) % 256) as u8);
        self.data.push((value / 16777216) as u8);
        assert(self.data@ == old(self).data@ + le32(value));
    }

    pub fn write_i32(&mut self, value: i32)
        ensures
            final(self).data@ == old(self).data@ + le32(value as u32),
            final(self).pos == old(self).pos,
    {
        self.write_u32(value as u32);
    }

    /// Appends the string's UTF-8 bytes and a NUL terminator.
    pub fn write_string(&mut self, s: &str)
        ensures
            final(self).data@ == old(self).data@ + cstring(s.spec_bytes()),
            final(self).pos == old(self).pos,
    {
        self.write_blob(s.as_bytes());
        self.data.push(0);
    }

    pub fn read_u8(&mut self) -> (r: Option<u8>)
        ensures
            final(self).data@ == old(self).data@,
            read_outcome(r, dec_u8(old(self).data@, old(self).pos as int), old(self).pos, final(self).pos),
    {
        if self.pos < self.data.len() {
            let value = self.data[self.pos];
            self.pos = self.pos + 1;
            Some(value)
        } else {
            None
        }
    }

    pub fn read_i8(&mut self) -> (r: Option<i8>)
        ensures
            final(self).data@ == old(self).data@,
            read_outcome(r, dec_i8(old(self).data@, old(self).pos as int), old(self).pos, final(self).pos),
    {
        match self.read_u8() {
            Some(v) => Some(v as i8),
            None => None,
        }
    }

    pub fn read_u16(&mut self) -> (r: Option<u16>)
        ensures
            final(self).data@ == old(self).data@,
            read_outcome(r, dec_u16(old(self).data@, old(self).pos as int), old(self).pos, final(self).pos),
    {
        if self.pos < self.data.len() && self.data.len() - self.pos >= 2 {
            let lo = self.data[self.pos] as u16;
            let hi = self.data[self.pos + 1] as u16;
            self.pos = self.pos + 2;
            assert(hi * 256 <= 255 * 256) by (nonlinear_arith) requires hi <= 255;
            Some(lo + hi * 256)
        } else {
            None
        }
    }

    pub fn read_i16(&mut self) -> (r: Option<i16>)
        ensures
            final(self).data@ == old(self).data@,
            read_outcome(r, dec_i16(old(self).data@, old(self).pos as int), old(self).pos, final(self).pos),
    {
        match self.read_u16() {
            Some(v) => Some(v as i16),
            None => None,
        }
    }

    pub fn read_u32(&mut self) -> (r: Option<u32>)
        ensures
            final(self).data@ == old(self).data@,
            read_outcome(r, dec_u32(old(self).data@, old(self).pos as int), old(self).pos, final(self).pos),
    {
        if self.pos < self.data.len() && self.data.len() - self.pos >= 4 {
            let b0 = self.data[self.pos] as u32;
            let b1 = self.data[self.pos + 1] as u32;
            let b2 = self.data[self.pos + 2] as u32;
            let b3 = self.data[self.pos + 3] as u32;
            self.pos = self.pos + 4;
            assert(b0 + b1 * 256 + b2 * 65536 + b3 * 16777216 <= 0xffff_ffff) by (nonlinear_arith)
                requires b0 <= 255, b1 <= 255, b2 <= 255, b3 <= 255;
            Some(b0 + b1 * 256 + b2 * 65536 + b3 * 16777216)
        } else {
            None
        }
    }

    pub fn read_i32(&mut self) -> (r: Option<i32>)
        ensures
            final(self).data@ == old(self).data@,
            read_outcome(r, dec_i32(old(self).data@, old(self).pos as int), old(self).pos, final(self).pos),
    {
        match self.read_u32() {
            Some(v) => Some(v as i32),
            None => None,
        }
    }

    /// Takes one byte that is known to be there.
    fn take_u8(&mut self) -> (r: u8)
        requires
            has_bytes(old(self).data@, old(self).pos as int, 1),
        ensures
            final(self).data@ == old(self).data@,
            r == old(self).data@[old(self).pos as int],
            final(self).pos == old(self).pos + 1,
    {
        let n = self.data.len();
        let v = self.data[self.pos];
        self.pos = self.pos + 1;
        v
    }

    /// Takes a little-endian 16-bit value that is known to be there.
    fn take_u16(&mut self) -> (r: u16)
        requires
            has_bytes(old(self).data@, old(self).pos as int, 2),
        ensures
            final(self).data@ == old(self).data@,
            r == get_le16(old(self).data@, old(self).pos as int),
            final(self).pos == old(self).pos + 2,
    {
        let n = self.data.len();
        let lo = self.data[self.pos] as u16;
        let hi = self.data[self.pos + 1] as u16;
        self.pos = self.pos + 2;
        assert(hi * 256 <= 255 * 256) by (nonlinear_arith) requires hi <= 255;
        lo + hi * 256
    }

    /// How many bytes follow the mask byte of a diff with mask `m`.
    fn ticdiff_body_size(m: u32, lowres_turn: bool) -> (n: usize)
        ensures
            n == ticdiff_body_len(m, lowres_turn),
    {
        proof {
            reveal(off_side);
            reveal(off_turn);
            reveal(off_buttons);
            reveal(off_consistancy);
            reveal(off_chatchar);
            reveal(off_raven);
            reveal(off_strife);
            reveal(ticdiff_body_len);
        }
        let mut n: usize = 0;
        if m & NET_TICDIFF_FORWARD != 0 { n = n + 1; }
        if m & NET_TICDIFF_SIDE != 0 { n = n + 1; }
        if m & NET_TICDIFF_TURN != 0 { n = n + if lowres_turn { 1 } else { 2 }; }
        if m & NET_TICDIFF_BUTTONS != 0 { n = n + 1; }
        if m & NET_TICDIFF_CONSISTANCY != 0 { n = n + 1; }
        if m & NET_TICDIFF_CHATCHAR != 0 { n = n + 1; }
        if m & NET_TICDIFF_RAVEN != 0 { n = n + 2; }
        if m & NET_TICDIFF_STRIFE != 0 { n = n + 3; }
        n
    }

    /// Reads the movement fields of a diff body that starts at the cursor.
    fn read_diff_moves(&mut self, m: u32, lowres_turn: bool) -> (r: (i8, i8, i16, u8))
        requires
            has_bytes(old(self).data@, old(self).pos as int, ticdiff_body_len(m, lowres_turn)),
        ensures
            final(self).data@ == old(self).data@,
            final(self).pos == old(self).pos + off_consistancy(m, lowres_turn),
            r.0 == ticdiff_at(old(self).data@, old(self).pos as int, m, lowres_turn).cmd.forwardmove,
            r.1 == ticdiff_at(old(self).data@, old(self).pos as int, m, lowres_turn).cmd.sidemove,
            r.2 == ticdiff_at(old(self).data@, old(self).pos as int, m, lowres_turn).cmd.angleturn,
            r.3 == ticdiff_at(old(self).data@, old(self).pos as int, m, lowres_turn).cmd.buttons,
    {
        proof {
            reveal(off_side);
            reveal(off_turn);
            reveal(off_buttons);
            reveal(off_consistancy);
            reveal(off_chatchar);
            reveal(off_raven);
            reveal(off_strife);
            reveal(ticdiff_body_len);
        }
        let forwardmove = self.take_u8_if(m & NET_TICDIFF_FORWARD != 0) as i8;
        let sidemove = self.take_u8_if(m & NET_TICDIFF_SIDE != 0) as i8;
        let angleturn = self.take_turn_if(m & NET_TICDIFF_TURN != 0, lowres_turn);
        let buttons = self.take_u8_if(m & NET_TICDIFF_BUTTONS != 0);
        (forwardmove, sidemove, angleturn, buttons)
    }

    /// Reads the remaining fields of a diff body whose movement fields have
    /// been read; `q` is where the body starts.
    fn read_diff_extras(&mut self, m: u32, lowres_turn: bool, q: Ghost<int>) -> (r: (u8, u8, u8, u8, u8, i32))
        requires
            has_bytes(old(self).data@, q@, ticdiff_body_len(m, lowres_turn)),
            old(self).pos == q@ + off_consistancy(m, lowres_turn),
        ensures
            final(self).data@ == old(self).data@,
            final(self).pos == q@ + ticdiff_body_len(m, lowres_turn),
            r.0 == ticdiff_at(old(self).data@, q@, m, lowres_turn).cmd.consistancy,
            r.1 == ticdiff_at(old(self).data@, q@, m, lowres_turn).cmd.chatchar,
            r.2 == ticdiff_at(old(self).data@, q@, m, lowres_turn).cmd.lookfly,
            r.3 == ticdiff_at(old(self).data@, q@, m, lowres_turn).cmd.arti,
            r.4 == ticdiff_at(old(self).data@, q@, m, lowres_turn).cmd.buttons2,
            r.5 == ticdiff_at(old(self).data@, q@, m, lowres_turn).cmd.inventory,
    {
        proof {
            reveal(off_chatchar);
            reveal(off_raven);
            reveal(off_strife);
            reveal(ticdiff_body_len);
        }
        let consistancy = self.take_u8_if(m & NET_TICDIFF_CONSISTANCY != 0);
        let chatchar = self.take_u8_if(m & NET_TICDIFF_CHATCHAR != 0);
        let lookfly = self.take_u8_if(m & NET_TICDIFF_RAVEN != 0);
        let arti = self.take_u8_if(m & NET_TICDIFF_RAVEN != 0);
        let buttons2 = self.take_u8_if(m & NET_TICDIFF_STRIFE != 0);
        let inventory = (self.take_u16_if(m & NET_TICDIFF_STRIFE != 0) as i16) as i32;
        (consistancy, chatchar, lookfly, arti, buttons2, inventory)
    }

    /// Reads a tic-command diff; fields whose flag is clear come back zero.
    /// Takes one byte when `c` holds; zero otherwise.
    fn take_u8_if(&mut self, c: bool) -> (r: u8)
        requires
            has_bytes(old(self).data@, old(self).pos as int, size_if(c, 1)),
        ensures
            final(self).data@ == old(self).data@,
            r == if c { old(self).data@[old(self).pos as int] } else { 0 },
            final(self).pos == old(self).pos + size_if(c, 1),
    {
        if c { self.take_u8() } else { 0 }
    }

    /// Takes a little-endian 16-bit value when `c` holds; zero otherwise.
    fn take_u16_if(&mut self, c: bool) -> (r: u16)
        requires
            has_bytes(old(self).data@, old(self).pos as int, size_if(c, 2)),
        ensures
            final(self).data@ == old(self).data@,
            r == if c { get_le16(old(self).data@, old(self).pos as int) } else { 0 },
            final(self).pos == old(self).pos + size_if(c, 2),
    {
        if c { self.take_u16() } else { 0 }
    }

    /// Takes the angle turn of a diff when `c` holds; zero otherwise.
    fn take_turn_if(&mut self, c: bool, lowres_turn: bool) -> (r: i16)
        requires
            has_bytes(old(self).data@, old(self).pos as int, size_if(c, if lowres_turn { 1 } else { 2 })),
        ensures
            final(self).data@ == old(self).data@,
            r == if c {
                if lowres_turn {
                    ((old(self).data@[old(self).pos as int] as i8) * 256) as i16
                } else {
                    get_le16(old(self).data@, old(self).pos as int) as i16
                }
            } else {
                0
            },
            final(self).pos == old(self).pos + size_if(c, if lowres_turn { 1 } else { 2 }),
    {
        if !c {
            0
        } else if lowres_turn {
            let v = self.take_u8() as i8;
            (v as i16) * 256
        } else {
            self.take_u16() as i16
        }
    }

    /// Reads a tic-command diff; fields whose flag is clear come back zero.
    pub fn read_ticcmd_diff(&mut self, lowres_turn: bool) -> (r: Option<TicDiff>)
        ensures
            final(self).data@ == old(self).data@,
            read_outcome(r, dec_ticdiff(old(self).data@, old(self).pos as int, lowres_turn), old(self).pos, final(self).pos),
    {
        let ghost b = self.data@;
        if self.pos >= self.data.len() {
            return None;
        }
        let m = self.data[self.pos] as u32;
        let need = Self::ticdiff_body_size(m, lowres_turn);
        if self.data.len() - self.pos - 1 < need {
            return None;
        }
        self.pos = self.pos + 1;
        let ghost q = self.pos as int;
        let (forwardmove, sidemove, angleturn, buttons) = self.read_diff_moves(m, lowres_turn);
        let (consistancy, chatchar, lookfly, arti, buttons2, inventory) = self.read_diff_extras(m, lowres_turn, Ghost(q));
        let d = TicDiff {
            diff: m,
            cmd: TicCmd {
                forwardmove,
                sidemove,
                angleturn,
                chatchar,
                buttons,
                consistancy,
                buttons2,
                inventory,
                lookfly,
                arti,
            },
        };
        assert(d == ticdiff_at(b, q, m, lowres_turn));
        Some(d)
    }

    /// Appends `v` when `c` holds.
    fn write_u8_if(&mut self, c: bool, v: u8)
        ensures
            final(self).data@ == old(self).data@ + bytes_if(c, seq![v]),
            final(self).pos == old(self).pos,
    {
        if c {
            self.write_u8(v);
        }
        assert(self.data@ =~= old(self).data@ + bytes_if(c, seq![v]));
    }

    /// Appends the angle turn of a diff when `c` holds.
    fn write_turn_if(&mut self, c: bool, lowres_turn: bool, angleturn: i16)
        ensures
            final(self).data@ == old(self).data@ + bytes_if(c,
                if lowres_turn { seq![coarse_turn(angleturn) as u8] } else { le16(angleturn as u16) }),
            final(self).pos == old(self).pos,
    {
        if c {
            if lowres_turn {
                let a = angleturn as i32;
                let coarse: i32 = if a >= 0 { a / 256 } else { -((-a) / 256) };
                self.write_i8(coarse as i8);
            } else {
                self.write_i16(angleturn);
            }
        }
        assert(self.data@ =~= old(self).data@ + bytes_if(c,
            if lowres_turn { seq![coarse_turn(angleturn) as u8] } else { le16(angleturn as u16) }));
    }

    /// Appends the two Raven fields when `c` holds.
    fn write_raven_if(&mut self, c: bool, lookfly: u8, arti: u8)
        ensures
            final(self).data@ == old(self).data@ + bytes_if(c, seq![lookfly, arti]),
            final(self).pos == old(self).pos,
    {
        if c {
            self.write_u8(lookfly);
            self.write_u8(arti);
        }
        assert(self.data@ =~= old(self).data@ + bytes_if(c, seq![lookfly, arti]));
    }

    /// Appends the two Strife fields when `c` holds.
    fn write_strife_if(&mut self, c: bool, buttons2: u8, inventory: u16)
        ensures
            final(self).data@ == old(self).data@ + bytes_if(c, seq![buttons2] + le16(inventory)),
            final(self).pos == old(self).pos,
    {
        if c {
            self.write_u8(buttons2);
            self.write_u16(inventory);
        }
        assert(self.data@ =~= old(self).data@ + bytes_if(c, seq![buttons2] + le16(inventory)));
    }

    /// Writes a tic-command diff: the mask byte, then each flagged field.
    pub fn write_ticcmd_diff(&mut self, diff: &TicDiff, lowres_turn: bool)
        ensures
            final(self).data@ == old(self).data@ + enc_ticdiff(*diff, lowres_turn),
            final(self).pos == old(self).pos,
    {
        let m = diff.diff;
        let c = diff.cmd;
        let t = m & NET_TICDIFF_TURN != 0;
        let st = m & NET_TICDIFF_STRIFE != 0;
        let rv = m & NET_TICDIFF_RAVEN != 0;
        let ghost d0 = old(self).data@;
        self.write_u8((m % 256) as u8);
        proof { reveal(enc_piece); }
        let ghost mut acc: Seq<u8> = enc_piece(*diff, lowres_turn, 0);
        assert(self.data@ == d0 + acc);
        self.write_u8_if(m & NET_TICDIFF_FORWARD != 0, c.forwardmove as u8);
        proof {
            lemma_concat_associative(d0, acc, enc_piece(*diff, lowres_turn, 1));
            acc = acc + enc_piece(*diff, lowres_turn, 1);
        }
        self.write_u8_if(m & NET_TICDIFF_SIDE != 0, c.sidemove as u8);
        proof {
            lemma_concat_associative(d0, acc, enc_piece(*diff, lowres_turn, 2));
            acc = acc + enc_piece(*diff, lowres_turn, 2);
        }
        self.write_turn_if(t, lowres_turn, c.angleturn);
        proof {
            lemma_concat_associative(d0, acc, enc_piece(*diff, lowres_turn, 3));
            acc = acc + enc_piece(*diff, lowres_turn, 3);
        }
        self.write_u8_if(m & NET_TICDIFF_BUTTONS != 0, c.buttons);
        proof {
            lemma_concat_associative(d0, acc, enc_piece(*diff, lowres_turn, 4));
            acc = acc + enc_piece(*diff, lowres_turn, 4);
        }
        self.write_u8_if(m & NET_TICDIFF_CONSISTANCY != 0, c.consistancy);
        proof {
            lemma_concat_associative(d0, acc, enc_piece(*diff, lowres_turn, 5));
            acc = acc + enc_piece(*diff, lowres_turn, 5);
        }
        self.write_u8_if(m & NET_TICDIFF_CHATCHAR != 0, c.chatchar);
        proof {
            lemma_concat_associative(d0, acc, enc_piece(*diff, lowres_turn, 6));
            acc = acc + enc_piece(*diff, lowres_turn, 6);
        }
        self.write_raven_if(rv, c.lookfly, c.arti);
        proof {
            lemma_concat_associative(d0, acc, enc_piece(*diff, lowres_turn, 7));
            acc = acc + enc_piece(*diff, lowres_turn, 7);
        }
        self.write_strife_if(st, c.buttons2, c.inventory as i16 as u16);
        proof {
            lemma_concat_associative(d0, acc, enc_piece(*diff, lowres_turn, 8));
            acc = acc + enc_piece(*diff, lowres_turn, 8);
        }
        assert(acc == enc_ticdiff(*diff, lowres_turn)) by {
            reveal_with_fuel(enc_prefix, 9);
        }
    }

    /// Moves the cursor back to the start.
    pub fn reset(&mut self)
        ensures
            final(self).data@ == old(self).data@,
            final(self).pos == 0,
    {
        self.pos = 0;
    }
}


// ---------------------------------------------------------------------
// Round trips
// ---------------------------------------------------------------------

/// What of a diff survives the wire: the mask and the flagged fields;
/// fields whose flag is clear become zero.
pub open spec fn wire_ticdiff(d: TicDiff) -> TicDiff {
    let m = d.diff;
    TicDiff {
        diff: m,
        cmd: TicCmd {
            forwardmove: if has_flag(m, NET_TICDIFF_FORWARD) { d.cmd.forwardmove } else { 0 },
            sidemove: if has_flag(m, NET_TICDIFF_SIDE) { d.cmd.sidemove } else { 0 },
            angleturn: if has_flag(m, NET_TICDIFF_TURN) { d.cmd.angleturn } else { 0 },
            buttons: if has_flag(m, NET_TICDIFF_BUTTONS) { d.cmd.buttons } else { 0 },
            consistancy: if has_flag(m, NET_TICDIFF_CONSISTANCY) { d.cmd.consistancy } else { 0 },
            chatchar: if has_flag(m, NET_TICDIFF_CHATCHAR) { d.cmd.chatchar } else { 0 },
            lookfly: if has_flag(m, NET_TICDIFF_RAVEN) { d.cmd.lookfly } else { 0 },
            arti: if has_flag(m, NET_TICDIFF_RAVEN) { d.cmd.arti } else { 0 },
            buttons2: if has_flag(m, NET_TICDIFF_STRIFE) { d.cmd.buttons2 } else { 0 },
            inventory: if has_flag(m, NET_TICDIFF_STRIFE) { d.cmd.inventory } else { 0 },
        },
    }
}

/// A diff whose flagged fields the wire holds exactly: the mask fits in a
/// byte, the inventory in 16 bits, and in low-resolution mode the angle
/// turn is a multiple of 256.
pub open spec fn ticdiff_fits(d: TicDiff, lowres: bool) -> bool {
    &&& d.diff < 256
    &&& -32768 <= d.cmd.inventory <= 32767
    &&& (lowres ==> d.cmd.angleturn % 256 == 0)
}

proof fn lemma_coarse_turn(a: i16)
    requires
        a % 256 == 0,
    ensures
        (((coarse_turn(a) as u8) as i8) * 256) as i16 == a,
{
    let k: int = a / 256;
    assert(a == 256 * k) by (nonlinear_arith) requires k == a / 256, a % 256 == 0;
    assert(-128 <= k < 128) by (nonlinear_arith) requires a == 256 * k, -32768 <= a < 32768;
    if a >= 0 {
        assert(coarse_turn(a) == k as i8);
    } else {
        assert((-a) / 256 == -k) by (nonlinear_arith) requires a == 256 * k;
        assert(coarse_turn(a) == k as i8);
    }
    lemma_i8_cast(coarse_turn(a));
}

/// The pieces of a diff's encoding: the mask byte, then one per flag.
#[verifier::opaque]
pub open spec fn enc_piece(d: TicDiff, lowres: bool, k: int) -> Seq<u8> {
    let m = d.diff;
    let c = d.cmd;
    if k == 0 {
        seq![(m % 256) as u8]
    } else if k == 1 {
        bytes_if(has_flag(m, NET_TICDIFF_FORWARD), seq![c.forwardmove as u8])
    } else if k == 2 {
        bytes_if(has_flag(m, NET_TICDIFF_SIDE), seq![c.sidemove as u8])
    } else if k == 3 {
        bytes_if(has_flag(m, NET_TICDIFF_TURN),
            if lowres { seq![coarse_turn(c.angleturn) as u8] } else { le16(c.angleturn as u16) })
    } else if k == 4 {
        bytes_if(has_flag(m, NET_TICDIFF_BUTTONS), seq![c.buttons])
    } else if k == 5 {
        bytes_if(has_flag(m, NET_TICDIFF_CONSISTANCY), seq![c.consistancy])
    } else if k == 6 {
        bytes_if(has_flag(m, NET_TICDIFF_CHATCHAR), seq![c.chatchar])
    } else if k == 7 {
        bytes_if(has_flag(m, NET_TICDIFF_RAVEN), seq![c.lookfly, c.arti])
    } else {
        bytes_if(has_flag(m, NET_TICDIFF_STRIFE), seq![c.buttons2] + le16((c.inventory as i16) as u16))
    }
}

/// The first `k + 1` pieces of a diff's encoding.
pub open spec fn enc_prefix(d: TicDiff, lowres: bool, k: nat) -> Seq<u8>
    decreases k,
{
    if k == 0 {
        enc_piece(d, lowres, 0)
    } else {
        enc_prefix(d, lowres, (k - 1) as nat) + enc_piece(d, lowres, k as int)
    }
}

/// Where each piece of a diff's encoding starts, counted from the byte after
/// the mask.
pub open spec fn piece_offset(m: u32, lowres: bool, k: int) -> int {
    if k == 1 {
        0
    } else if k == 2 {
        off_side(m)
    } else if k == 3 {
        off_turn(m)
    } else if k == 4 {
        off_buttons(m, lowres)
    } else if k == 5 {
        off_consistancy(m, lowres)
    } else if k == 6 {
        off_chatchar(m, lowres)
    } else if k == 7 {
        off_raven(m, lowres)
    } else if k == 8 {
        off_strife(m, lowres)
    } else {
        ticdiff_body_len(m, lowres)
    }
}

proof fn lemma_enc_prefix_len(d: TicDiff, lowres: bool, k: nat)
    requires
        k <= 8,
    ensures
        enc_prefix(d, lowres, k).len() == 1 + piece_offset(d.diff, lowres, k as int + 1),
    decreases k,
{
    reveal(enc_piece);
    reveal(off_side);
    reveal(off_turn);
    reveal(off_buttons);
    reveal(off_consistancy);
    reveal(off_chatchar);
    reveal(off_raven);
    reveal(off_strife);
    reveal(ticdiff_body_len);
    if k > 0 {
        lemma_enc_prefix_len(d, lowres, (k - 1) as nat);
    }
}

/// Byte `j` of piece `k` stands at `piece_offset + 1 + j` of the prefix
/// that ends with any later piece.
proof fn lemma_enc_prefix_index(d: TicDiff, lowres: bool, n: nat, k: int, j: int)
    requires
        1 <= k <= n <= 8,
        0 <= j < enc_piece(d, lowres, k).len(),
    ensures
        enc_prefix(d, lowres, n)[1 + piece_offset(d.diff, lowres, k) + j] == enc_piece(d, lowres, k)[j],
    decreases n,
{
    lemma_enc_prefix_len(d, lowres, (k - 1) as nat);
    lemma_enc_prefix_len(d, lowres, n);
    if n > k {
        lemma_enc_prefix_len(d, lowres, (n - 1) as nat);
        lemma_enc_prefix_len(d, lowres, k as nat);
        lemma_prefix_grows(d, lowres, k as nat, (n - 1) as nat);
        lemma_enc_prefix_index(d, lowres, (n - 1) as nat, k, j);
    }
}

proof fn lemma_prefix_grows(d: TicDiff, lowres: bool, k: nat, n: nat)
    requires
        k <= n <= 8,
    ensures
        piece_offset(d.diff, lowres, k as int + 1) <= piece_offset(d.diff, lowres, n as int + 1),
    decreases n,
{
    reveal(off_side);
    reveal(off_turn);
    reveal(off_buttons);
    reveal(off_consistancy);
    reveal(off_chatchar);
    reveal(off_raven);
    reveal(off_strife);
    reveal(ticdiff_body_len);
    if k < n {
        lemma_prefix_grows(d, lowres, k, (n - 1) as nat);
    }
}

/// Byte `j` of piece `k` inside a packet that holds the encoding at `p`.
proof fn lemma_piece_in_packet(d: TicDiff, lowres: bool, pre: Seq<u8>, post: Seq<u8>, k: int, j: int)
    requires
        1 <= k <= 8,
        0 <= j < enc_piece(d, lowres, k).len(),
    ensures
        (pre + enc_ticdiff(d, lowres) + post)[pre.len() + 1 + piece_offset(d.diff, lowres, k) + j]
            == enc_piece(d, lowres, k)[j],
{
    reveal(enc_piece);
    lemma_enc_prefix_len(d, lowres, 8);
    lemma_prefix_grows(d, lowres, k as nat, 8);
    lemma_enc_prefix_index(d, lowres, 8, k, j);
    let e = enc_ticdiff(d, lowres);
    let i = 1 + piece_offset(d.diff, lowres, k) + j;
    reveal(off_side);
    reveal(off_turn);
    reveal(off_buttons);
    reveal(off_consistancy);
    reveal(off_chatchar);
    reveal(off_raven);
    reveal(off_strife);
    reveal(ticdiff_body_len);
    assert(0 <= i < e.len());
    assert((pre + e + post)[pre.len() + i] == e[i]);
}

/// A diff that fits the wire decodes, from wherever it stands in a packet,
/// to what survives of it, and the cursor lands just past it.
pub proof fn lemma_ticdiff_wire(d: TicDiff, lowres: bool, pre: Seq<u8>, post: Seq<u8>)
    requires
        ticdiff_fits(d, lowres),
    ensures
        dec_ticdiff(pre + enc_ticdiff(d, lowres) + post, pre.len() as int, lowres)
            == Some((wire_ticdiff(d), (pre.len() + enc_ticdiff(d, lowres).len()) as int)),
{
    reveal(enc_piece);
    let m = d.diff;
    let c = d.cmd;
    let e = enc_ticdiff(d, lowres);
    let b = pre + e + post;
    let p = pre.len() as int;
    let q = p + 1;
    lemma_enc_prefix_len(d, lowres, 8);
    assert(e.len() == 1 + ticdiff_body_len(m, lowres));
    lemma_enc_prefix_nonempty(d, lowres, 8);
    assert(b[p] == e[0]);
    assert(e[0] == (m % 256) as u8) by {
        lemma_enc_prefix_len(d, lowres, 0);
        lemma_prefix_grows(d, lowres, 0, 8);
        assert(enc_prefix(d, lowres, 8)[0] == enc_piece(d, lowres, 0)[0]) by {
            lemma_first_byte(d, lowres, 8);
        }
    }
    assert(b[p] as u32 == m);
    let r = ticdiff_at(b, q, m, lowres);
    let w = wire_ticdiff(d);
    if has_flag(m, NET_TICDIFF_FORWARD) {
        lemma_piece_in_packet(d, lowres, pre, post, 1, 0);
        lemma_i8_cast(c.forwardmove);
    }
    assert(r.cmd.forwardmove == w.cmd.forwardmove);
    if has_flag(m, NET_TICDIFF_SIDE) {
        lemma_piece_in_packet(d, lowres, pre, post, 2, 0);
        lemma_i8_cast(c.sidemove);
    }
    assert(r.cmd.sidemove == w.cmd.sidemove);
    if has_flag(m, NET_TICDIFF_TURN) {
        lemma_piece_in_packet(d, lowres, pre, post, 3, 0);
        if lowres {
            lemma_coarse_turn(c.angleturn);
        } else {
            lemma_piece_in_packet(d, lowres, pre, post, 3, 1);
            lemma_le16(c.angleturn as u16);
            lemma_i16_cast(c.angleturn);
        }
    }
    assert(r.cmd.angleturn == w.cmd.angleturn);
    if has_flag(m, NET_TICDIFF_BUTTONS) {
        lemma_piece_in_packet(d, lowres, pre, post, 4, 0);
    }
    assert(r.cmd.buttons == w.cmd.buttons);
    if has_flag(m, NET_TICDIFF_CONSISTANCY) {
        lemma_piece_in_packet(d, lowres, pre, post, 5, 0);
    }
    assert(r.cmd.consistancy == w.cmd.consistancy);
    if has_flag(m, NET_TICDIFF_CHATCHAR) {
        lemma_piece_in_packet(d, lowres, pre, post, 6, 0);
    }
    assert(r.cmd.chatchar == w.cmd.chatchar);
    if has_flag(m, NET_TICDIFF_RAVEN) {
        lemma_piece_in_packet(d, lowres, pre, post, 7, 0);
        lemma_piece_in_packet(d, lowres, pre, post, 7, 1);
    }
    assert(r.cmd.lookfly == w.cmd.lookfly && r.cmd.arti == w.cmd.arti);
    if has_flag(m, NET_TICDIFF_STRIFE) {
        lemma_piece_in_packet(d, lowres, pre, post, 8, 0);
        lemma_piece_in_packet(d, lowres, pre, post, 8, 1);
        lemma_piece_in_packet(d, lowres, pre, post, 8, 2);
        lemma_le16((c.inventory as i16) as u16);
        lemma_i16_cast(c.inventory as i16);
    }
    assert(r.cmd.buttons2 == w.cmd.buttons2 && r.cmd.inventory == w.cmd.inventory);
    assert(r == w);
}

proof fn lemma_first_byte(d: TicDiff, lowres: bool, n: nat)
    ensures
        enc_prefix(d, lowres, n)[0] == enc_piece(d, lowres, 0)[0],
    decreases n,
{
    if n > 0 {
        lemma_first_byte(d, lowres, (n - 1) as nat);
        lemma_enc_prefix_len(d, lowres, 0);
        lemma_enc_prefix_nonempty(d, lowres, (n - 1) as nat);
    }
}

proof fn lemma_enc_prefix_nonempty(d: TicDiff, lowres: bool, n: nat)
    ensures
        enc_prefix(d, lowres, n).len() >= 1,
    decreases n,
{
    reveal(enc_piece);
    if n > 0 {
        lemma_enc_prefix_nonempty(d, lowres, (n - 1) as nat);
    }
}


// ---------------------------------------------------------------------
// Full tic commands
// ---------------------------------------------------------------------

/// Whether player `i` is flagged as in game in a bitfield.
pub open spec fn player_bit(bits: u8, i: int) -> bool {
    bits & (1u8 << (i as u8)) != 0
}

/// `flag` when `c` holds, else 0.
pub open spec fn bit_if(c: bool, flag: u8) -> u8 {
    if c { flag } else { 0 }
}

/// The in-game bitfield of a tic: bit `i` is set when player `i` is in game.
pub open spec fn bits_of(ingame: [bool; NET_MAXPLAYERS]) -> u8 {
    bit_if(ingame[0], 1) | bit_if(ingame[1], 2) | bit_if(ingame[2], 4) | bit_if(ingame[3], 8)
        | bit_if(ingame[4], 16) | bit_if(ingame[5], 32) | bit_if(ingame[6], 64) | bit_if(ingame[7], 128)
}

/// The diffs of the first `n` players, those in game only.
pub open spec fn enc_player_cmds(f: FullTicCmd, lowres: bool, n: nat) -> Seq<u8>
    decreases n,
{
    if n == 0 {
        Seq::empty()
    } else {
        enc_player_cmds(f, lowres, (n - 1) as nat) + if f.playeringame[n - 1] {
            enc_ticdiff(f.cmds[n - 1], lowres)
        } else {
            Seq::empty()
        }
    }
}

/// The bytes of a full tic command: the latency as 16 bits, the in-game
/// bitfield, then the diff of each player in game, in player order.
pub open spec fn enc_full_ticcmd(f: FullTicCmd, lowres: bool) -> Seq<u8> {
    le16((f.latency as i16) as u16) + seq![bits_of(f.playeringame)] + enc_player_cmds(f, lowres, NET_MAXPLAYERS as nat)
}

/// Decodes the diffs of players `i..` at `p`: a diff for each player whose
/// bit is set, the zero diff for the others.
pub open spec fn dec_player_cmds(b: Seq<u8>, p: int, bits: u8, i: nat, lowres: bool) -> Option<(Seq<TicDiff>, int)>
    decreases NET_MAXPLAYERS - i,
{
    if i >= NET_MAXPLAYERS {
        Some((Seq::empty(), p))
    } else if player_bit(bits, i as int) {
        match dec_ticdiff(b, p, lowres) {
            Some((d, q)) => prepend(seq![d], dec_player_cmds(b, q, bits, i + 1, lowres)),
            None => None,
        }
    } else {
        prepend(seq![zero_ticdiff()], dec_player_cmds(b, p, bits, i + 1, lowres))
    }
}

/// `a` put in front of a decoded sequence.
pub open spec fn prepend(a: Seq<TicDiff>, o: Option<(Seq<TicDiff>, int)>) -> Option<(Seq<TicDiff>, int)> {
    match o {
        Some((s, q)) => Some((a + s, q)),
        None => None,
    }
}

/// Decodes a full tic command at `p`: its latency, its in-game bitfield,
/// the diffs of all players, and the position past it.
pub open spec fn dec_full_ticcmd(b: Seq<u8>, p: int, lowres: bool) -> Option<(i32, u8, Seq<TicDiff>, int)> {
    if !has_bytes(b, p, 3) {
        None
    } else {
        match dec_player_cmds(b, p + 3, b[p + 2], 0, lowres) {
            Some((cmds, q)) => Some(((get_le16(b, p) as i16) as i32, b[p + 2], cmds, q)),
            None => None,
        }
    }
}

/// `f` is the full tic command with that latency, bitfield and diffs, and
/// sequence number 0 (it is not on the wire).
pub open spec fn full_ticcmd_is(f: FullTicCmd, latency: i32, bits: u8, cmds: Seq<TicDiff>) -> bool {
    &&& f.latency == latency
    &&& f.seq == 0
    &&& forall|i: int| 0 <= i < NET_MAXPLAYERS ==> f.playeringame[i] == player_bit(bits, i)
    &&& f.cmds@ == cmds
}

proof fn lemma_bits_of(a: u8, b: u8, c: u8, d: u8, e: u8, f: u8, g: u8, h: u8) by (bit_vector)
    requires
        a == 0 || a == 1,
        b == 0 || b == 2,
        c == 0 || c == 4,
        d == 0 || d == 8,
        e == 0 || e == 16,
        f == 0 || f == 32,
        g == 0 || g == 64,
        h == 0 || h == 128,
    ensures
        ((a | b | c | d | e | f | g | h) & (1u8 << 0u8) != 0) == (a == 1),
        ((a | b | c | d | e | f | g | h) & (1u8 << 1u8) != 0) == (b == 2),
        ((a | b | c | d | e | f | g | h) & (1u8 << 2u8) != 0) == (c == 4),
        ((a | b | c | d | e | f | g | h) & (1u8 << 3u8) != 0) == (d == 8),
        ((a | b | c | d | e | f | g | h) & (1u8 << 4u8) != 0) == (e == 16),
        ((a | b | c | d | e | f | g | h) & (1u8 << 5u8) != 0) == (f == 32),
        ((a | b | c | d | e | f | g | h) & (1u8 << 6u8) != 0) == (g == 64),
        ((a | b | c | d | e | f | g | h) & (1u8 << 7u8) != 0) == (h == 128),
{
}

/// Bit `i` of the bitfield of a tic is whether player `i` is in game.
proof fn lemma_player_bits(ingame: [bool; NET_MAXPLAYERS])
    ensures
        forall|i: int| 0 <= i < NET_MAXPLAYERS ==> player_bit(bits_of(ingame), i) == ingame[i],
{
    lemma_bits_of(bit_if(ingame[0], 1), bit_if(ingame[1], 2), bit_if(ingame[2], 4), bit_if(ingame[3], 8),
        bit_if(ingame[4], 16), bit_if(ingame[5], 32), bit_if(ingame[6], 64), bit_if(ingame[7], 128));
    assert forall|i: int| 0 <= i < NET_MAXPLAYERS implies player_bit(bits_of(ingame), i) == ingame[i] by {
        assert(i == 0 || i == 1 || i == 2 || i == 3 || i == 4 || i == 5 || i == 6 || i == 7);
    }
}

impl Packet {
    /// Reads a full tic command: latency, in-game bitfield, then a diff for
    /// each player in game. On failure the cursor is left where it was.
    pub fn read_full_ticcmd(&mut self, lowres_turn: bool) -> (r: Option<FullTicCmd>)
        ensures
            final(self).data@ == old(self).data@,
            match dec_full_ticcmd(old(self).data@, old(self).pos as int, lowres_turn) {
                Some((latency, bits, cmds, q)) => r matches Some(f) && full_ticcmd_is(f, latency, bits, cmds)
                    && final(self).pos == q,
                None => r is None && final(self).pos == old(self).pos,
            },
    {
        let ghost b = self.data@;
        let start = self.pos;
        let latency = match self.read_i16() {
            Some(v) => v as i32,
            None => return None,
        };
        let bits = match self.read_u8() {
            Some(v) => v,
            None => {
                self.pos = start;
                return None;
            },
        };
        let ghost body_start = self.pos as int;
        let mut playeringame = [false; NET_MAXPLAYERS];
        let mut cmds = [TicDiff::default(); NET_MAXPLAYERS];
        let mut i: usize = 0;
        while i < NET_MAXPLAYERS
            invariant
                i <= NET_MAXPLAYERS,
                self.data@ == b,
                b == old(self).data@,
                start == old(self).pos,
                body_start == start + 3,
                b.len() >= body_start,
                bits == b[body_start - 1],
                latency == (get_le16(b, start as int) as i16) as i32,
                prepend(cmds@.subrange(0, i as int), dec_player_cmds(b, self.pos as int, bits, i as nat, lowres_turn))
                    == dec_player_cmds(b, body_start, bits, 0, lowres_turn),
                forall|j: int| 0 <= j < i ==> playeringame[j] == player_bit(bits, j),
                forall|j: int| i <= j < NET_MAXPLAYERS ==> !playeringame[j] && cmds[j] == zero_ticdiff(),
            decreases NET_MAXPLAYERS - i,
        {
            let ghost pos_before = self.pos as int;
            let ghost before = cmds@.subrange(0, i as int);
            if bits & (1u8 << (i as u8)) != 0 {
                playeringame[i] = true;
                match self.read_ticcmd_diff(lowres_turn) {
                    Some(d) => {
                        cmds[i] = d;
                        assert(cmds@.subrange(0, i + 1) == before + seq![d]);
                    },
                    None => {
                        assert(player_bit(bits, i as int));
                        assert(dec_player_cmds(b, pos_before, bits, i as nat, lowres_turn) is None);
                        self.pos = start;
                        return None;
                    },
                }
            } else {
                assert(cmds@.subrange(0, i + 1) == before + seq![zero_ticdiff()]);
            }
            i = i + 1;
        }
        assert(cmds@.subrange(0, NET_MAXPLAYERS as int) == cmds@);
        let f = FullTicCmd { latency, seq: 0, playeringame, cmds };
        Some(f)
    }

    /// Writes a full tic command: latency as 16 bits, in-game bitfield, then
    /// the diff of each player in game.
    pub fn write_full_ticcmd(&mut self, cmd: &FullTicCmd, lowres_turn: bool)
        ensures
            final(self).data@ == old(self).data@ + enc_full_ticcmd(*cmd, lowres_turn),
            final(self).pos == old(self).pos,
    {
        let g = &cmd.playeringame;
        let bits: u8 = (if g[0] { 1u8 } else { 0 }) | (if g[1] { 2u8 } else { 0 }) | (if g[2] { 4u8 } else { 0 })
            | (if g[3] { 8u8 } else { 0 }) | (if g[4] { 16u8 } else { 0 }) | (if g[5] { 32u8 } else { 0 })
            | (if g[6] { 64u8 } else { 0 }) | (if g[7] { 128u8 } else { 0 });
        self.write_i16(cmd.latency as i16);
        self.write_u8(bits);
        let ghost head = old(self).data@ + le16((cmd.latency as i16) as u16) + seq![bits_of(cmd.playeringame)];
        assert(self.data@ == head);
        let mut i: usize = 0;
        while i < NET_MAXPLAYERS
            invariant
                i <= NET_MAXPLAYERS,
                self.data@ == head + enc_player_cmds(*cmd, lowres_turn, i as nat),
                self.pos == old(self).pos,
            decreases NET_MAXPLAYERS - i,
        {
            let ghost before = self.data@;
            if cmd.playeringame[i] {
                self.write_ticcmd_diff(&cmd.cmds[i], lowres_turn);
            }
            proof {
                let piece = if cmd.playeringame[i as int] {
                    enc_ticdiff(cmd.cmds[i as int], lowres_turn)
                } else {
                    Seq::empty()
                };
                lemma_concat_associative(head, enc_player_cmds(*cmd, lowres_turn, i as nat), piece);
                assert(self.data@ == before + piece);
            }
            i = i + 1;
        }
        proof {
            lemma_concat_associative(old(self).data@ + le16((cmd.latency as i16) as u16),
                seq![bits_of(cmd.playeringame)], enc_player_cmds(*cmd, lowres_turn, NET_MAXPLAYERS as nat));
            lemma_concat_associative(old(self).data@, le16((cmd.latency as i16) as u16),
                seq![bits_of(cmd.playeringame)] + enc_player_cmds(*cmd, lowres_turn, NET_MAXPLAYERS as nat));
            lemma_concat_associative(le16((cmd.latency as i16) as u16), seq![bits_of(cmd.playeringame)],
                enc_player_cmds(*cmd, lowres_turn, NET_MAXPLAYERS as nat));
        }
    }
}


/// A full tic command the wire holds exactly: the latency fits in 16 bits,
/// each player in game has a diff that fits and carries nothing unflagged,
/// and the other players' diffs are zero.
pub open spec fn full_ticcmd_fits(f: FullTicCmd, lowres: bool) -> bool {
    &&& -32768 <= f.latency <= 32767
    &&& forall|i: int| 0 <= i < NET_MAXPLAYERS ==> if f.playeringame[i] {
        ticdiff_fits(f.cmds[i], lowres) && wire_ticdiff(f.cmds[i]) == f.cmds[i]
    } else {
        f.cmds[i] == zero_ticdiff()
    }
}

proof fn lemma_enc_cmds_prefix(f: FullTicCmd, lowres: bool, k: nat, n: nat)
    requires
        k <= n,
    ensures
        enc_player_cmds(f, lowres, k).len() <= enc_player_cmds(f, lowres, n).len(),
        enc_player_cmds(f, lowres, n).subrange(0, enc_player_cmds(f, lowres, k).len() as int)
            == enc_player_cmds(f, lowres, k),
    decreases n,
{
    if k < n {
        lemma_enc_cmds_prefix(f, lowres, k, (n - 1) as nat);
        let a = enc_player_cmds(f, lowres, (n - 1) as nat);
        let c = enc_player_cmds(f, lowres, n);
        assert(c.subrange(0, a.len() as int) == a);
        assert(c.subrange(0, enc_player_cmds(f, lowres, k).len() as int)
            == a.subrange(0, enc_player_cmds(f, lowres, k).len() as int));
    } else {
        assert(enc_player_cmds(f, lowres, n).subrange(0, enc_player_cmds(f, lowres, n).len() as int)
            == enc_player_cmds(f, lowres, n));
    }
}

proof fn lemma_dec_player_cmds(f: FullTicCmd, lowres: bool, pre: Seq<u8>, post: Seq<u8>, i: nat)
    requires
        full_ticcmd_fits(f, lowres),
        i <= NET_MAXPLAYERS,
    ensures
        dec_player_cmds(pre + enc_player_cmds(f, lowres, NET_MAXPLAYERS as nat) + post,
            (pre.len() + enc_player_cmds(f, lowres, i).len()) as int, bits_of(f.playeringame), i, lowres)
            == Some((f.cmds@.subrange(i as int, NET_MAXPLAYERS as int),
                (pre.len() + enc_player_cmds(f, lowres, NET_MAXPLAYERS as nat).len()) as int)),
    decreases NET_MAXPLAYERS - i,
{
    let e = enc_player_cmds(f, lowres, NET_MAXPLAYERS as nat);
    let b = pre + e + post;
    let bits = bits_of(f.playeringame);
    let pi = enc_player_cmds(f, lowres, i);
    if i == NET_MAXPLAYERS {
        assert(f.cmds@.subrange(i as int, NET_MAXPLAYERS as int) == Seq::<TicDiff>::empty());
    } else {
        lemma_player_bits(f.playeringame);
        lemma_dec_player_cmds(f, lowres, pre, post, i + 1);
        let pn = enc_player_cmds(f, lowres, i + 1);
        lemma_enc_cmds_prefix(f, lowres, i + 1, NET_MAXPLAYERS as nat);
        assert(e.subrange(0, pn.len() as int) == pn);
        let d = f.cmds[i as int];
        assert(f.cmds@.subrange(i as int, NET_MAXPLAYERS as int)
            == seq![d] + f.cmds@.subrange(i as int + 1, NET_MAXPLAYERS as int));
        if f.playeringame[i as int] {
            let enc = enc_ticdiff(d, lowres);
            assert(pn == pi + enc);
            let rest = e.subrange(pn.len() as int, e.len() as int);
            assert(e == pi + enc + rest) by {
                assert(e == e.subrange(0, pn.len() as int) + rest);
            }
            assert(b == (pre + pi) + enc + (rest + post));
            lemma_ticdiff_wire(d, lowres, pre + pi, rest + post);
        } else {
            assert(pn == pi);
        }
    }
}

/// A full tic command that the wire holds exactly decodes from its own
/// encoding to the same latency, in-game flags and diffs; the sequence
/// number is not on the wire.
pub proof fn lemma_full_ticcmd_round_trip(f: FullTicCmd, lowres: bool)
    requires
        full_ticcmd_fits(f, lowres),
    ensures
        dec_full_ticcmd(enc_full_ticcmd(f, lowres), 0, lowres) matches Some((latency, bits, cmds, q))
            && q == enc_full_ticcmd(f, lowres).len()
            && forall|g: FullTicCmd| #[trigger] full_ticcmd_is(g, latency, bits, cmds)
                ==> g == (FullTicCmd { seq: 0, ..f }),
{
    broadcast use vstd::array::axiom_array_ext_equal;
    let head = le16((f.latency as i16) as u16) + seq![bits_of(f.playeringame)];
    let e = enc_player_cmds(f, lowres, NET_MAXPLAYERS as nat);
    let b = enc_full_ticcmd(f, lowres);
    assert(b == head + e + Seq::<u8>::empty());
    lemma_dec_player_cmds(f, lowres, head, Seq::empty(), 0);
    assert(f.cmds@.subrange(0, NET_MAXPLAYERS as int) == f.cmds@);
    lemma_le16((f.latency as i16) as u16);
    lemma_i16_cast(f.latency as i16);
    assert(get_le16(b, 0) == get_le16(le16((f.latency as i16) as u16), 0));
    lemma_player_bits(f.playeringame);
    assert forall|g: FullTicCmd| #[trigger] full_ticcmd_is(g, f.latency, bits_of(f.playeringame), f.cmds@)
        implies g == (FullTicCmd { seq: 0, ..f }) by {
        assert(g.playeringame =~= f.playeringame);
        assert(g.cmds =~= f.cmds);
    }
}


// ---------------------------------------------------------------------
// Game settings
// ---------------------------------------------------------------------

/// Bytes of the fixed part of the settings, before the player classes.
pub const SETTINGS_HEADER_LEN: usize = 20;

/// The bytes of game settings: the fixed fields, then one byte of class for
/// each player.
pub open spec fn enc_settings(s: GameSettings) -> Seq<u8> {
    seq![s.ticdup as u8, s.extratics as u8, s.deathmatch as u8, s.episode as u8,
        s.nomonsters as u8, s.fast_monsters as u8, s.respawn_monsters as u8, s.map as u8,
        (s.skill as i8) as u8, s.gameversion as u8, s.lowres_turn as u8, s.new_sync as u8]
        + le32(s.timelimit)
        + seq![(s.loadgame as i8) as u8, s.random as u8, s.num_players as u8, (s.consoleplayer as i8) as u8]
        + Seq::new(s.num_players as nat, |i: int| s.player_classes[i] as u8)
}

/// The settings at `p` decode: the fixed part is there, it counts at most
/// `NET_MAXPLAYERS` players, and a class byte follows for each.
pub open spec fn settings_decode(b: Seq<u8>, p: int) -> bool {
    &&& has_bytes(b, p, 20)
    &&& b[p + 18] <= NET_MAXPLAYERS
    &&& has_bytes(b, p, 20 + b[p + 18])
}

/// Where decoded settings at `p` end.
pub open spec fn settings_end(b: Seq<u8>, p: int) -> int {
    p + 20 + b[p + 18]
}

/// `s` holds the settings decoded at `p`; classes of absent players are 0.
pub open spec fn settings_is(s: GameSettings, b: Seq<u8>, p: int) -> bool {
    &&& s.ticdup == b[p] as i32
    &&& s.extratics == b[p + 1] as i32
    &&& s.deathmatch == b[p + 2] as i32
    &&& s.episode == b[p + 3] as i32
    &&& s.nomonsters == b[p + 4] as i32
    &&& s.fast_monsters == b[p + 5] as i32
    &&& s.respawn_monsters == b[p + 6] as i32
    &&& s.map == b[p + 7] as i32
    &&& s.skill == (b[p + 8] as i8) as i32
    &&& s.gameversion == b[p + 9] as i32
    &&& s.lowres_turn == b[p + 10] as i32
    &&& s.new_sync == b[p + 11] as i32
    &&& s.timelimit == get_le32(b, p + 12)
    &&& s.loadgame == (b[p + 16] as i8) as i32
    &&& s.random == b[p + 17] as i32
    &&& s.num_players == b[p + 18] as i32
    &&& s.consoleplayer == (b[p + 19] as i8) as i32
    &&& forall|i: int| 0 <= i < NET_MAXPLAYERS ==> s.player_classes[i] == if i < b[p + 18] {
        b[p + 20 + i] as i32
    } else {
        0
    }
}

/// The settings decoded at `p`, when `settings_decode` holds.
pub open spec fn settings_at(b: Seq<u8>, p: int) -> GameSettings {
    choose|s: GameSettings| settings_is(s, b, p)
}

/// Decoded settings are unique.
pub proof fn lemma_settings_unique(s1: GameSettings, s2: GameSettings, b: Seq<u8>, p: int)
    requires
        settings_is(s1, b, p),
        settings_is(s2, b, p),
    ensures
        s1 == s2,
{
    broadcast use vstd::array::axiom_array_ext_equal;
    assert(s1.player_classes =~= s2.player_classes);
}

/// Settings whose every field fits the byte the wire gives it.
pub open spec fn settings_valid(s: GameSettings) -> bool {
    &&& 0 <= s.ticdup < 256
    &&& 0 <= s.extratics < 256
    &&& 0 <= s.deathmatch < 256
    &&& 0 <= s.nomonsters < 256
    &&& 0 <= s.fast_monsters < 256
    &&& 0 <= s.respawn_monsters < 256
    &&& 0 <= s.episode < 256
    &&& 0 <= s.map < 256
    &&& -128 <= s.skill < 128
    &&& 0 <= s.gameversion < 256
    &&& 0 <= s.lowres_turn < 256
    &&& 0 <= s.new_sync < 256
    &&& -128 <= s.loadgame < 128
    &&& 0 <= s.random < 256
    &&& 0 <= s.num_players <= NET_MAXPLAYERS
    &&& -128 <= s.consoleplayer < 128
    &&& forall|i: int| 0 <= i < NET_MAXPLAYERS ==> if i < s.num_players {
        0 <= #[trigger] s.player_classes[i] < 256
    } else {
        s.player_classes[i] == 0
    }
}

impl Packet {
    /// Reads game settings. Fails, with the cursor left where it was, when
    /// the bytes run out or more than `NET_MAXPLAYERS` players are counted.
    pub fn read_settings(&mut self) -> (r: Option<GameSettings>)
        ensures
            final(self).data@ == old(self).data@,
            settings_decode(old(self).data@, old(self).pos as int) ==> (r matches Some(s)
                && settings_is(s, old(self).data@, old(self).pos as int)
                && final(self).pos == settings_end(old(self).data@, old(self).pos as int)),
            !settings_decode(old(self).data@, old(self).pos as int) ==> r is None
                && final(self).pos == old(self).pos,
    {
        let p = self.pos;
        let len = self.data.len();
        if p > len || len - p < SETTINGS_HEADER_LEN {
            return None;
        }
        let d = &self.data;
        let n = d[p + 18];
        if n as usize > NET_MAXPLAYERS || len - p - SETTINGS_HEADER_LEN < n as usize {
            return None;
        }
        let b12 = d[p + 12] as u32;
        let b13 = d[p + 13] as u32;
        let b14 = d[p + 14] as u32;
        let b15 = d[p + 15] as u32;
        assert(b12 + b13 * 256 + b14 * 65536 + b15 * 16777216 <= 0xffff_ffff) by (nonlinear_arith)
            requires b12 <= 255, b13 <= 255, b14 <= 255, b15 <= 255;
        let mut classes = [0i32; NET_MAXPLAYERS];
        let mut i: usize = 0;
        while i < n as usize
            invariant
                n as usize <= NET_MAXPLAYERS,
                i <= n,
                d@ == old(self).data@,
                len == d@.len(),
                p + 20 + n <= d@.len(),
                forall|j: int| 0 <= j < NET_MAXPLAYERS ==> classes[j] == if j < i { d@[p + 20 + j] as i32 } else { 0 },
            decreases n - i,
        {
            classes[i] = d[p + SETTINGS_HEADER_LEN + i] as i32;
            i = i + 1;
        }
        let s = GameSettings {
            ticdup: d[p] as i32,
            extratics: d[p + 1] as i32,
            deathmatch: d[p + 2] as i32,
            episode: d[p + 3] as i32,
            nomonsters: d[p + 4] as i32,
            fast_monsters: d[p + 5] as i32,
            respawn_monsters: d[p + 6] as i32,
            map: d[p + 7] as i32,
            skill: (d[p + 8] as i8) as i32,
            gameversion: d[p + 9] as i32,
            lowres_turn: d[p + 10] as i32,
            new_sync: d[p + 11] as i32,
            timelimit: b12 + b13 * 256 + b14 * 65536 + b15 * 16777216,
            loadgame: (d[p + 16] as i8) as i32,
            random: d[p + 17] as i32,
            num_players: n as i32,
            consoleplayer: (d[p + 19] as i8) as i32,
            player_classes: classes,
        };
        self.pos = p + SETTINGS_HEADER_LEN + n as usize;
        Some(s)
    }

    /// Writes game settings.
    pub fn write_settings(&mut self, settings: &GameSettings)
        requires
            0 <= settings.num_players <= NET_MAXPLAYERS,
        ensures
            final(self).data@ == old(self).data@ + enc_settings(*settings),
            final(self).pos == old(self).pos,
    {
        let s = settings;
        self.write_u8(s.ticdup as u8);
        self.write_u8(s.extratics as u8);
        self.write_u8(s.deathmatch as u8);
        self.write_u8(s.episode as u8);
        self.write_u8(s.nomonsters as u8);
        self.write_u8(s.fast_monsters as u8);
        self.write_u8(s.respawn_monsters as u8);
        self.write_u8(s.map as u8);
        self.write_i8(s.skill as i8);
        self.write_u8(s.gameversion as u8);
        self.write_u8(s.lowres_turn as u8);
        self.write_u8(s.new_sync as u8);
        let ghost h1 = self.data@;
        self.write_u32(s.timelimit);
        self.write_i8(s.loadgame as i8);
        self.write_u8(s.random as u8);
        self.write_u8(s.num_players as u8);
        self.write_i8(s.consoleplayer as i8);
        let ghost head = self.data@;
        let n = s.num_players as usize;
        let mut i: usize = 0;
        while i < n
            invariant
                n == s.num_players,
                n <= NET_MAXPLAYERS,
                i <= n,
                self.data@ == head + Seq::new(i as nat, |j: int| s.player_classes[j] as u8),
                self.pos == old(self).pos,
            decreases n - i,
        {
            self.write_u8(s.player_classes[i] as u8);
            i = i + 1;
            assert(self.data@ =~= head + Seq::new(i as nat, |j: int| s.player_classes[j] as u8));
        }
        assert(self.data@ =~= old(self).data@ + enc_settings(*settings));
    }
}

/// Valid settings written into a packet read back as the same settings.
pub proof fn lemma_settings_round_trip(s: GameSettings)
    requires
        settings_valid(s),
    ensures
        settings_decode(enc_settings(s), 0),
        settings_end(enc_settings(s), 0) == enc_settings(s).len(),
        forall|g: GameSettings| #[trigger] settings_is(g, enc_settings(s), 0) ==> g == s,
{
    broadcast use vstd::array::axiom_array_ext_equal;
    let b = enc_settings(s);
    lemma_le32(s.timelimit);
    lemma_i8_cast(s.skill as i8);
    lemma_i8_cast(s.loadgame as i8);
    lemma_i8_cast(s.consoleplayer as i8);
    assert(b[18] == s.num_players as u8);
    assert(get_le32(b, 12) == get_le32(le32(s.timelimit), 0));
    assert forall|g: GameSettings| #[trigger] settings_is(g, b, 0) implies g == s by {
        assert forall|i: int| 0 <= i < NET_MAXPLAYERS implies g.player_classes[i] == s.player_classes[i] by {
            if i < s.num_players {
                assert(b[20 + i] == s.player_classes[i] as u8);
            }
        }
        assert(g.player_classes =~= s.player_classes);
    }
}


// ---------------------------------------------------------------------
// Strings, protocol names and connect data
// ---------------------------------------------------------------------

/// The first NUL at or after `p`, or the length when there is none.
pub open spec fn nul_at_or_after(b: Seq<u8>, p: int) -> int
    decreases b.len() - p,
{
    if p < 0 || p >= b.len() {
        b.len() as int
    } else if b[p] == 0 {
        p
    } else {
        nul_at_or_after(b, p + 1)
    }
}

/// Decodes a NUL-terminated string at `p`: its bytes, and the position past
/// the terminator.
pub open spec fn dec_cstr(b: Seq<u8>, p: int) -> Option<(Seq<u8>, int)> {
    if 0 <= p && nul_at_or_after(b, p) < b.len() {
        Some((b.subrange(p, nul_at_or_after(b, p)), nul_at_or_after(b, p) + 1))
    } else {
        None
    }
}

/// The name of the one protocol this client speaks, "CHOCOLATE_DOOM_0".
pub open spec fn protocol_name() -> Seq<u8> {
    seq![67u8, 72, 79, 67, 79, 76, 65, 84, 69, 95, 68, 79, 79, 77, 95, 48]
}

/// The protocol a name stands for.
pub open spec fn protocol_of(name: Seq<u8>) -> Protocol {
    if name == protocol_name() { Protocol::ChocolateDoom0 } else { Protocol::Unknown }
}

/// The bytes of connect data.
pub open spec fn enc_connect_data(c: ConnectData) -> Seq<u8> {
    seq![c.gamemode as u8, c.gamemission as u8, c.lowres_turn as u8, c.drone as u8,
        c.max_players as u8, c.is_freedoom as u8]
        + c.wad_sha1sum@ + c.deh_sha1sum@ + seq![c.player_class as u8]
}

/// The characters of `s` that a safe string keeps.
pub open spec fn safe_chars(s: Seq<char>) -> Seq<char> {
    s.filter(|c: char| safe_char(c))
}

/// Whether two byte strings are equal.
fn same_bytes(a: &Vec<u8>, b: &Vec<u8>) -> (r: bool)
    ensures
        r == (a@ == b@),
{
    if a.len() != b.len() {
        return false;
    }
    let mut i: usize = 0;
    while i < a.len()
        invariant
            a@.len() == b@.len(),
            i <= a@.len(),
            forall|j: int| 0 <= j < i ==> a@[j] == b@[j],
        decreases a@.len() - i,
    {
        if a[i] != b[i] {
            return false;
        }
        i = i + 1;
    }
    assert(a@ == b@);
    true
}

/// The protocol name as bytes.
fn protocol_name_bytes() -> (r: Vec<u8>)
    ensures
        r@ == protocol_name(),
{
    let r = vec![67u8, 72, 79, 67, 79, 76, 65, 84, 69, 95, 68, 79, 79, 77, 95, 48];
    assert(r@ == protocol_name());
    r
}

impl Packet {
    /// Reads the bytes of a NUL-terminated string and moves past the
    /// terminator; fails, leaving the cursor, when no NUL follows.
    pub fn read_cstr_bytes(&mut self) -> (r: Option<Vec<u8>>)
        ensures
            final(self).data@ == old(self).data@,
            match dec_cstr(old(self).data@, old(self).pos as int) {
                Some((s, q)) => r matches Some(v) && v@ == s && final(self).pos == q,
                None => r is None && final(self).pos == old(self).pos,
            },
    {
        let ghost b = self.data@;
        let start = self.pos;
        let len = self.data.len();
        if start >= len {
            return None;
        }
        let mut bytes: Vec<u8> = Vec::new();
        let mut i = start;
        while i < len && self.data[i] != 0
            invariant
                self.data@ == b,
                len == b.len(),
                start <= i <= len,
                start < len,
                nul_at_or_after(b, start as int) == nul_at_or_after(b, i as int),
                bytes@ == b.subrange(start as int, i as int),
            decreases len - i,
        {
            bytes.push(self.data[i]);
            i = i + 1;
            assert(bytes@ == b.subrange(start as int, i as int));
        }
        if i == len {
            return None;
        }
        self.pos = i + 1;
        Some(bytes)
    }

    /// Reads a NUL-terminated string; bytes that are not UTF-8 become
    /// U+FFFD.
    pub fn read_string(&mut self) -> (r: Option<String>)
        ensures
            final(self).data@ == old(self).data@,
            match dec_cstr(old(self).data@, old(self).pos as int) {
                Some((s, q)) => r matches Some(t) && t@ == utf8_lossy(s) && final(self).pos == q
                    && (valid_utf8(s) ==> t@ == decode_utf8(s)),
                None => r is None && final(self).pos == old(self).pos,
            },
    {
        match self.read_cstr_bytes() {
            Some(v) => {
                let chars = lossy_chars(v.as_slice());
                Some(string_of_chars(chars.as_slice()))
            },
            None => None,
        }
    }

    /// Reads a string as `read_string` does and keeps only its printable
    /// ASCII and whitespace characters.
    pub fn read_safe_string(&mut self) -> (r: Option<String>)
        ensures
            final(self).data@ == old(self).data@,
            match dec_cstr(old(self).data@, old(self).pos as int) {
                Some((s, q)) => r matches Some(t) && t@ == safe_chars(utf8_lossy(s)) && final(self).pos == q,
                None => r is None && final(self).pos == old(self).pos,
            },
    {
        match self.read_cstr_bytes() {
            Some(v) => {
                let chars = lossy_chars(v.as_slice());
                let mut kept: Vec<char> = Vec::new();
                let mut i: usize = 0;
                while i < chars.len()
                    invariant
                        i <= chars@.len(),
                        kept@ == safe_chars(chars@.subrange(0, i as int)),
                    decreases chars@.len() - i,
                {
                    let c = chars[i];
                    proof {
                        reveal(Seq::filter);
                        assert(chars@.subrange(0, i + 1).drop_last() == chars@.subrange(0, i as int));
                    }
                    if ('!' <= c && c <= '~') || is_white_space(c) {
                        kept.push(c);
                    }
                    i = i + 1;
                }
                assert(chars@.subrange(0, chars@.len() as int) == chars@);
                Some(string_of_chars(kept.as_slice()))
            },
            None => None,
        }
    }

    /// Reads a protocol name: "CHOCOLATE_DOOM_0" is the protocol this
    /// client speaks, any other name is `Unknown`, and so is a missing one
    /// (the cursor then stays).
    pub fn read_protocol(&mut self) -> (r: Protocol)
        ensures
            final(self).data@ == old(self).data@,
            match dec_cstr(old(self).data@, old(self).pos as int) {
                Some((s, q)) => r == protocol_of(s) && final(self).pos == q,
                None => r == Protocol::Unknown && final(self).pos == old(self).pos,
            },
    {
        match self.read_cstr_bytes() {
            Some(v) => {
                let name = protocol_name_bytes();
                if !same_bytes(&v, &name) {
                    return Protocol::Unknown;
                }
                Protocol::ChocolateDoom0
            },
            None => Protocol::Unknown,
        }
    }

    /// Writes the name of a protocol this client speaks.
    pub fn write_protocol(&mut self, protocol: Protocol)
        requires
            protocol == Protocol::ChocolateDoom0,
        ensures
            final(self).data@ == old(self).data@ + cstring(protocol_name()),
            final(self).pos == old(self).pos,
    {
        let name = protocol_name_bytes();
        self.write_blob(name.as_slice());
        self.write_u8(0);
    }

    /// Writes the list of protocols this client offers: a count of one, then
    /// "CHOCOLATE_DOOM_0".
    pub fn write_protocol_list(&mut self)
        ensures
            final(self).data@ == old(self).data@ + seq![1u8] + cstring(protocol_name()),
            final(self).pos == old(self).pos,
    {
        self.write_u8(1);
        self.write_protocol(Protocol::ChocolateDoom0);
        assert(self.data@ =~= old(self).data@ + seq![1u8] + cstring(protocol_name()));
    }

    /// Writes connect data.
    pub fn write_connect_data(&mut self, data: &ConnectData)
        ensures
            final(self).data@ == old(self).data@ + enc_connect_data(*data),
            final(self).pos == old(self).pos,
    {
        self.write_u8(data.gamemode as u8);
        self.write_u8(data.gamemission as u8);
        self.write_u8(data.lowres_turn as u8);
        self.write_u8(data.drone as u8);
        self.write_u8(data.max_players as u8);
        self.write_u8(data.is_freedoom as u8);
        self.write_blob(&data.wad_sha1sum);
        self.write_blob(&data.deh_sha1sum);
        self.write_u8(data.player_class as u8);
        assert(self.data@ =~= old(self).data@ + enc_connect_data(*data));
    }
}


// ---------------------------------------------------------------------
// Lobby data
// ---------------------------------------------------------------------

/// A name or address the lobby refuses: its UTF-8 takes `MAXPLAYERNAME`
/// bytes or more.
pub open spec fn lobby_text_too_long(s: Seq<char>) -> bool {
    encode_utf8(s).len() as usize >= MAXPLAYERNAME
}

/// Decodes `k` pairs of player name and address at `p`.
pub open spec fn dec_lobby_names(b: Seq<u8>, p: int, k: nat) -> Option<(Seq<Seq<char>>, Seq<Seq<char>>, int)>
    decreases k,
{
    if k == 0 {
        Some((Seq::empty(), Seq::empty(), p))
    } else {
        match dec_lobby_names(b, p, (k - 1) as nat) {
            Some((names, addrs, q)) => match dec_cstr(b, q) {
                Some((nb, q1)) => if lobby_text_too_long(utf8_lossy(nb)) {
                    None
                } else {
                    match dec_cstr(b, q1) {
                        Some((ab, q2)) => if lobby_text_too_long(utf8_lossy(ab)) {
                            None
                        } else {
                            Some((names.push(utf8_lossy(nb)), addrs.push(utf8_lossy(ab)), q2))
                        },
                        None => None,
                    }
                },
                None => None,
            },
            None => None,
        }
    }
}

/// Decodes lobby data at `p`: the names and addresses of the players, and
/// where the two digests begin.
pub open spec fn dec_wait_data(b: Seq<u8>, p: int) -> Option<(Seq<Seq<char>>, Seq<Seq<char>>, int)> {
    if !has_bytes(b, p, 6) {
        None
    } else {
        match dec_lobby_names(b, p + 6, b[p] as nat) {
            Some((names, addrs, q)) => if has_bytes(b, q, 41) { Some((names, addrs, q)) } else { None },
            None => None,
        }
    }
}

/// `w` holds the lobby data at `p`, whose digests begin at `q`.
pub open spec fn wait_data_is(w: WaitData, b: Seq<u8>, p: int, names: Seq<Seq<char>>, addrs: Seq<Seq<char>>, q: int) -> bool {
    &&& w.num_players == b[p] as i32
    &&& w.num_drones == b[p + 1] as i32
    &&& w.ready_players == b[p + 2] as i32
    &&& w.max_players == b[p + 3] as i32
    &&& w.is_controller == b[p + 4] as i32
    &&& w.consoleplayer == (b[p + 5] as i8) as i32
    &&& w.player_names@.len() == names.len()
    &&& (forall|i: int| 0 <= i < names.len() ==> (#[trigger] w.player_names@[i])@ == names[i])
    &&& w.player_addrs@.len() == addrs.len()
    &&& (forall|i: int| 0 <= i < addrs.len() ==> (#[trigger] w.player_addrs@[i])@ == addrs[i])
    &&& w.wad_sha1sum@ == b.subrange(q, q + 20)
    &&& w.deh_sha1sum@ == b.subrange(q + 20, q + 40)
    &&& w.is_freedoom == b[q + 40] as i32
}

/// Once the names fail to decode, more of them fail too.
proof fn lemma_lobby_names_fail(b: Seq<u8>, p: int, k: nat, n: nat)
    requires
        dec_lobby_names(b, p, k) is None,
        k <= n,
    ensures
        dec_lobby_names(b, p, n) is None,
    decreases n,
{
    if k < n {
        lemma_lobby_names_fail(b, p, k, (n - 1) as nat);
    }
}

impl Packet {
    /// Reads 20 bytes of digest.
    fn read_sha1sum(&mut self) -> (r: Option<[u8; 20]>)
        ensures
            final(self).data@ == old(self).data@,
            has_bytes(old(self).data@, old(self).pos as int, 20) ==> (r matches Some(d)
                && d@ == old(self).data@.subrange(old(self).pos as int, old(self).pos + 20)
                && final(self).pos == old(self).pos + 20),
            !has_bytes(old(self).data@, old(self).pos as int, 20) ==> r is None && final(self).pos == old(self).pos,
    {
        let p = self.pos;
        let len = self.data.len();
        if p > len || len - p < 20 {
            return None;
        }
        let mut digest = [0u8; 20];
        let mut i: usize = 0;
        while i < 20
            invariant
                i <= 20,
                p + 20 <= len,
                len == self.data@.len(),
                self.data@ == old(self).data@,
                forall|j: int| 0 <= j < i ==> digest[j] == self.data@[p + j],
            decreases 20 - i,
        {
            digest[i] = self.data[p + i];
            i = i + 1;
        }
        assert(digest@ == self.data@.subrange(p as int, p + 20));
        self.pos = p + 20;
        Some(digest)
    }

    /// Reads one player name or address of the lobby; fails when it is
    /// missing or too long.
    fn read_lobby_text(&mut self) -> (r: Option<String>)
        ensures
            final(self).data@ == old(self).data@,
            match dec_cstr(old(self).data@, old(self).pos as int) {
                Some((s, q)) => if lobby_text_too_long(utf8_lossy(s)) {
                    r is None
                } else {
                    r matches Some(t) && t@ == utf8_lossy(s) && final(self).pos == q
                },
                None => r is None,
            },
    {
        match self.read_string() {
            Some(t) => {
                if t.as_str().len() >= MAXPLAYERNAME {
                    None
                } else {
                    Some(t)
                }
            },
            None => None,
        }
    }

    /// Reads lobby data: the counts, then a name and an address for each
    /// player, then the two digests and the Freedoom flag.
    pub fn read_wait_data(&mut self) -> (r: Option<WaitData>)
        ensures
            final(self).data@ == old(self).data@,
            match dec_wait_data(old(self).data@, old(self).pos as int) {
                Some((names, addrs, q)) => r matches Some(w)
                    && wait_data_is(w, old(self).data@, old(self).pos as int, names, addrs, q)
                    && final(self).pos == q + 41,
                None => r is None,
            },
    {
        let ghost b = self.data@;
        let p = self.pos;
        let len = self.data.len();
        if p > len || len - p < 6 {
            return None;
        }
        let num_players = self.data[p];
        let num_drones = self.data[p + 1];
        let ready_players = self.data[p + 2];
        let max_players = self.data[p + 3];
        let is_controller = self.data[p + 4];
        let consoleplayer = self.data[p + 5] as i8;
        self.pos = p + 6;
        let mut names: Vec<String> = Vec::new();
        let mut addrs: Vec<String> = Vec::new();
        let mut k: u8 = 0;
        while k < num_players
            invariant
                self.data@ == b,
                b == old(self).data@,
                p == old(self).pos,
                has_bytes(b, p as int, 6),
                num_players == b[p as int],
                k <= num_players,
                dec_lobby_names(b, p + 6, k as nat) matches Some((ns, ads, q)) && names@.len() == ns.len()
                    && (forall|i: int| 0 <= i < ns.len() ==> (#[trigger] names@[i])@ == ns[i])
                    && addrs@.len() == ads.len()
                    && (forall|i: int| 0 <= i < ads.len() ==> (#[trigger] addrs@[i])@ == ads[i])
                    && self.pos == q,
            decreases num_players - k,
        {
            let name = match self.read_lobby_text() {
                Some(t) => t,
                None => {
                    proof {
                        assert(dec_lobby_names(b, p + 6, (k + 1) as nat) is None);
                        lemma_lobby_names_fail(b, p + 6, (k + 1) as nat, num_players as nat);
                    }
                    return None;
                },
            };
            let addr = match self.read_lobby_text() {
                Some(t) => t,
                None => {
                    proof {
                        assert(dec_lobby_names(b, p + 6, (k + 1) as nat) is None);
                        lemma_lobby_names_fail(b, p + 6, (k + 1) as nat, num_players as nat);
                    }
                    return None;
                },
            };
            names.push(name);
            addrs.push(addr);
            k = k + 1;
        }
        let wad_sha1sum = match self.read_sha1sum() {
            Some(d) => d,
            None => return None,
        };
        let deh_sha1sum = match self.read_sha1sum() {
            Some(d) => d,
            None => return None,
        };
        let is_freedoom = match self.read_u8() {
            Some(v) => v,
            None => return None,
        };
        Some(WaitData {
            num_players: num_players as i32,
            num_drones: num_drones as i32,
            ready_players: ready_players as i32,
            max_players: max_players as i32,
            is_controller: is_controller as i32,
            consoleplayer: consoleplayer as i32,
            player_names: names,
            player_addrs: addrs,
            wad_sha1sum,
            deh_sha1sum,
            is_freedoom: is_freedoom as i32,
        })
    }
}

// ---------------------------------------------------------------------
// Runs of tics
// ---------------------------------------------------------------------

/// Decodes `n` full tic commands in a row at `p`.
pub open spec fn dec_tics(b: Seq<u8>, p: int, n: nat, lowres: bool) -> Option<(Seq<(i32, u8, Seq<TicDiff>)>, int)>
    decreases n,
{
    if n == 0 {
        Some((Seq::empty(), p))
    } else {
        match dec_tics(b, p, (n - 1) as nat, lowres) {
            Some((ts, q)) => match dec_full_ticcmd(b, q, lowres) {
                Some((latency, bits, cmds, q2)) => Some((ts.push((latency, bits, cmds)), q2)),
                None => None,
            },
            None => None,
        }
    }
}

proof fn lemma_dec_tics_fail(b: Seq<u8>, p: int, k: nat, n: nat, lowres: bool)
    requires
        dec_tics(b, p, k, lowres) is None,
        k <= n,
    ensures
        dec_tics(b, p, n, lowres) is None,
    decreases n,
{
    if k < n {
        lemma_dec_tics_fail(b, p, k, (n - 1) as nat, lowres);
    }
}

/// `n` tics decode to `n` tics.
pub proof fn lemma_dec_tics_len(b: Seq<u8>, p: int, n: nat, lowres: bool)
    ensures
        dec_tics(b, p, n, lowres) matches Some((ts, _)) ==> ts.len() == n,
    decreases n,
{
    if n > 0 {
        lemma_dec_tics_len(b, p, (n - 1) as nat, lowres);
    }
}

impl Packet {
    /// Reads `n` full tic commands in a row; fails, with nothing kept, when
    /// any of them is cut short.
    pub fn read_full_ticcmds(&mut self, n: u8, lowres_turn: bool) -> (r: Option<Vec<FullTicCmd>>)
        ensures
            final(self).data@ == old(self).data@,
            match dec_tics(old(self).data@, old(self).pos as int, n as nat, lowres_turn) {
                Some((ts, q)) => r matches Some(v) && v@.len() == n && final(self).pos == q
                    && forall|k: int| 0 <= k < n ==> full_ticcmd_is(#[trigger] v@[k], ts[k].0, ts[k].1, ts[k].2),
                None => r is None,
            },
    {
        let ghost b = self.data@;
        let ghost p0 = self.pos as int;
        let mut v: Vec<FullTicCmd> = Vec::new();
        let mut i: u8 = 0;
        while i < n
            invariant
                self.data@ == b,
                b == old(self).data@,
                p0 == old(self).pos,
                i <= n,
                dec_tics(b, p0, i as nat, lowres_turn) matches Some((ts, q)) && q == self.pos && v@.len() == i
                    && ts.len() == i
                    && forall|k: int| 0 <= k < i ==> full_ticcmd_is(#[trigger] v@[k], ts[k].0, ts[k].1, ts[k].2),
            decreases n - i,
        {
            match self.read_full_ticcmd(lowres_turn) {
                Some(f) => {
                    let ghost old_v = v@;
                    v.push(f);
                    proof {
                        let (ts, q) = dec_tics(b, p0, i as nat, lowres_turn).unwrap();
                        let (l, bits, cmds, q2) = dec_full_ticcmd(b, q, lowres_turn).unwrap();
                        let ts2 = ts.push((l, bits, cmds));
                        assert(dec_tics(b, p0, (i + 1) as nat, lowres_turn) == Some((ts2, q2)));
                        assert forall|k: int| 0 <= k < i + 1 implies full_ticcmd_is(#[trigger] v@[k], ts2[k].0,
                            ts2[k].1, ts2[k].2) by {
                            if k < i {
                                assert(v@[k] == old_v[k]);
                                assert(ts2[k] == ts[k]);
                            }
                        }
                    }
                },
                None => {
                    proof {
                        assert(dec_tics(b, p0, (i + 1) as nat, lowres_turn) is None);
                        lemma_dec_tics_fail(b, p0, (i + 1) as nat, n as nat, lowres_turn);
                    }
                    return None;
                },
            }
            i = i + 1;
        }
        Some(v)
    }
}

} // verus!
