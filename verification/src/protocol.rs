//! Vendor HID protocol of the receiver.
//!
//! Every frame is 64 bytes:
//!
//! ```text
//! c4 <len> 00 00 <type> [id_lo id_hi val_lo val_hi] <ck_lo ck_hi>   padded to 64
//! ```
//!
//! `len` counts the whole frame including the leading `c4` and the checksum,
//! and `ck` is the two's complement of the sum of everything before it.

use vstd::prelude::*;

verus! {

/// Message type of a write, and of the notifications the device sends.
pub const SET: u8 = 0x03;
/// Message type of a query; the device answers with the same type.
pub const GET: u8 = 0x04;
/// Size of one HID report.
pub const REPORT_LEN: usize = 64;

/// Battery percent.
pub const BATTERY: u16 = 0x0042;
/// Input meter, streamed about ten times a second.
pub const LEVEL: u16 = 0x0044;
/// 1 = muted.
pub const MUTE: u16 = 0x207D;
/// Gain, 0 to `GAIN_MAX`.
pub const GAIN: u16 = 0x207E;
/// Noise reduction enable.
pub const NR: u16 = 0x2084;
/// Noise reduction level: 0 low, 1 mid, 2 high.
pub const NR_LEVEL: u16 = 0x2085;
/// RGB light on/off.
pub const LIGHT: u16 = 0x2089;
/// RGB light mode, 0 to `LIGHT_MODE_MAX`, in the order the light button cycles.
pub const LIGHT_MODE: u16 = 0x208C;

pub const GAIN_MAX: u16 = 20;
pub const LIGHT_MODE_MAX: u16 = 8;

/// Sum of a byte sequence, as a natural number.
pub open spec fn byte_sum(s: Seq<u8>) -> nat
    decreases s.len(),
{
    if s.len() == 0 {
        0
    } else {
        byte_sum(s.drop_last()) + s.last() as nat
    }
}

/// The 16-bit two's complement of the sum of `s`.
pub open spec fn spec_checksum(s: Seq<u8>) -> u16 {
    ((0x10000 - byte_sum(s) % 0x10000) % 0x10000) as u16
}

/// Low byte of a 16-bit value.
pub open spec fn lo(v: u16) -> u8 {
    (v % 256) as u8
}

/// High byte of a 16-bit value.
pub open spec fn hi(v: u16) -> u8 {
    (v / 256) as u8
}

/// Little-endian 16-bit value from two bytes.
pub open spec fn le16(l: u8, h: u8) -> u16 {
    (l + 256 * h) as u16
}

/// Law: the checksum cancels the sum of the bytes it follows: added to
/// their sum it gives a multiple of 2^16, and it is the only 16-bit value
/// that does.
pub proof fn lemma_checksum_cancels(bytes: Seq<u8>, other: u16)
    ensures
        (byte_sum(bytes) + spec_checksum(bytes)) % 0x10000 == 0,
        (byte_sum(bytes) + other) % 0x10000 == 0 ==> other == spec_checksum(bytes),
{
    let s = byte_sum(bytes) as int;
    vstd::arithmetic::div_mod::lemma_fundamental_div_mod(s, 0x10000);
    vstd::arithmetic::div_mod::lemma_mod_bound(s, 0x10000);
    let r = s % 0x10000;
    let q = s / 0x10000;
    let ck = spec_checksum(bytes) as int;
    assert(ck == (0x10000 - r) % 0x10000);
    if r == 0 {
        assert(ck == 0);
        vstd::arithmetic::div_mod::lemma_mod_multiples_basic(q, 0x10000);
        assert(s == q * 0x10000);
    } else {
        assert(ck == 0x10000 - r) by {
            vstd::arithmetic::div_mod::lemma_small_mod((0x10000 - r) as nat, 0x10000);
        }
        assert(s + ck == (q + 1) * 0x10000);
        vstd::arithmetic::div_mod::lemma_mod_multiples_basic(q + 1, 0x10000);
    }
    if (s + other) % 0x10000 == 0 {
        vstd::arithmetic::div_mod::lemma_fundamental_div_mod(s + other, 0x10000);
        let q2 = (s + other) / 0x10000;
        assert(other == q2 * 0x10000 - q * 0x10000 - r);
        assert(other == (q2 - q) * 0x10000 - r) by (nonlinear_arith)
            requires
                other == q2 * 0x10000 - q * 0x10000 - r,
        ;
        assert(0 <= other < 0x10000);
        if r == 0 {
            assert(q2 - q == 0 || q2 - q == 1 || q2 - q < 0 || q2 - q > 1);
            if q2 - q >= 1 {
                assert((q2 - q) * 0x10000 >= 0x10000) by (nonlinear_arith)
                    requires
                        q2 - q >= 1,
                ;
            }
            if q2 - q <= -1 {
                assert((q2 - q) * 0x10000 <= -0x10000) by (nonlinear_arith)
                    requires
                        q2 - q <= -1,
                ;
            }
        } else {
            if q2 - q >= 2 {
                assert((q2 - q) * 0x10000 >= 0x20000) by (nonlinear_arith)
                    requires
                        q2 - q >= 2,
                ;
            }
            if q2 - q <= 0 {
                assert((q2 - q) * 0x10000 <= 0) by (nonlinear_arith)
                    requires
                        q2 - q <= 0,
                ;
            }
        }
    }
}

/// The checksum the device expects after `bytes`: the two's complement of
/// their sum, in 16 bits.
pub fn checksum(bytes: &[u8]) -> (ck: u16)
    ensures
        ck == spec_checksum(bytes@),
{
    let mut sum: u32 = 0;
    let mut i: usize = 0;
    while i < bytes.len()
        invariant
            i <= bytes@.len(),
            sum == byte_sum(bytes@.take(i as int)) % 0x10000,
        decreases bytes@.len() - i,
    {
        proof {
            assert(bytes@.take(i as int + 1).drop_last() =~= bytes@.take(i as int));
            vstd::arithmetic::div_mod::lemma_add_mod_noop(
                byte_sum(bytes@.take(i as int)) as int,
                bytes@[i as int] as int,
                0x10000,
            );
            vstd::arithmetic::div_mod::lemma_mod_twice(
                byte_sum(bytes@.take(i as int)) as int,
                0x10000,
            );
            vstd::arithmetic::div_mod::lemma_small_mod(bytes@[i as int] as nat, 0x10000);
        }
        sum = (sum + bytes[i] as u32) % 0x10000;
        i = i + 1;
    }
    proof {
        assert(bytes@.take(i as int) =~= bytes@);
    }
    let r: u32 = sum % 0x10000;
    if r == 0 {
        0
    } else {
        (0x10000 - r) as u16
    }
}


/// The nine bytes before the checksum: header, type, one `(id, value)` field.
pub open spec fn frame_head(msg_type: u8, id: u16, val: u16) -> Seq<u8> {
    seq![0xC4u8, 0x0Bu8, 0x00u8, 0x00u8, msg_type, lo(id), hi(id), lo(val), hi(val)]
}

/// The full 64-byte report carrying one field, as the vendor app builds it.
pub open spec fn spec_frame(msg_type: u8, id: u16, val: u16) -> Seq<u8> {
    let head = frame_head(msg_type, id, val);
    let ck = spec_checksum(head);
    head + seq![lo(ck), hi(ck)] + Seq::new(53, |i: int| 0u8)
}

/// The `(id, value)` pairs carried by a frame body of whole 4-byte fields.
pub open spec fn fields_of(body: Seq<u8>) -> Seq<(u16, u16)> {
    Seq::new(
        body.len() / 4,
        |k: int|
            (
                le16(body[4 * k], body[4 * k + 1]),
                le16(body[4 * k + 2], body[4 * k + 3]),
            ),
    )
}

/// Decoding of one report: its message type and fields, or `None` when the
/// frame is malformed or fails its checksum.
pub open spec fn spec_parse(buf: Seq<u8>) -> Option<(u8, Seq<(u16, u16)>)> {
    if buf.len() < 7 || buf[0] != 0xC4 {
        None
    } else {
        let len = buf[1] as int;
        if len < 7 || len > buf.len() {
            None
        } else if le16(buf[len - 2], buf[len - 1]) != spec_checksum(buf.take(len - 2)) {
            None
        } else if (len - 7) % 4 != 0 {
            None
        } else {
            Some((buf[4], fields_of(buf.subrange(5, len - 2))))
        }
    }
}

/// Build the report that carries one field.
pub fn build(msg_type: u8, id: u16, val: u16) -> (f: [u8; REPORT_LEN])
    ensures
        f@ == spec_frame(msg_type, id, val),
{
    let head: [u8; 9] = [
        0xC4,
        0x0B,
        0x00,
        0x00,
        msg_type,
        (id % 256) as u8,
        (id / 256) as u8,
        (val % 256) as u8,
        (val / 256) as u8,
    ];
    assert(head@ =~= frame_head(msg_type, id, val));
    let ck = checksum(&head);
    let mut f = [0u8; REPORT_LEN];
    let mut i: usize = 0;
    while i < 9
        invariant
            i <= 9,
            f@.len() == REPORT_LEN,
            forall|k: int| 0 <= k < i ==> f@[k] == head@[k],
            forall|k: int| i <= k < REPORT_LEN ==> f@[k] == 0u8,
        decreases 9 - i,
    {
        f[i] = head[i];
        i = i + 1;
    }
    f[9] = (ck % 256) as u8;
    f[10] = (ck / 256) as u8;
    assert(f@ =~= spec_frame(msg_type, id, val));
    f
}

/// Decode one report into its message type and `(id, value)` pairs.
/// Returns `None` when the frame is malformed or fails its checksum.
pub fn parse(buf: &[u8]) -> (res: Option<(u8, Vec<(u16, u16)>)>)
    ensures
        match res {
            None => spec_parse(buf@) is None,
            Some((t, fields)) => spec_parse(buf@) == Some((t, fields@)),
        },
{
    if buf.len() < 7 || buf[0] != 0xC4 {
        return None;
    }
    let len = buf[1] as usize;
    if len < 7 || len > buf.len() {
        return None;
    }
    let frame = &buf[0..len];
    assert(frame@ =~= buf@.take(len as int));
    let got: u16 = frame[len - 2] as u16 + 256 * (frame[len - 1] as u16);
    let sum_part = &frame[0..len - 2];
    assert(sum_part@ =~= buf@.take(len - 2));
    if got != checksum(sum_part) {
        return None;
    }
    if (len - 7) % 4 != 0 {
        return None;
    }
    let ghost body = buf@.subrange(5, len - 2);
    let count = (len - 7) / 4;
    let mut fields: Vec<(u16, u16)> = Vec::new();
    let mut k: usize = 0;
    while k < count
        invariant
            k <= count,
            count == (len - 7) / 4,
            7 <= len <= buf@.len(),
            (len - 7) % 4 == 0,
            body == buf@.subrange(5, len as int - 2),
            fields@.len() == k,
            forall|j: int| 0 <= j < k ==> fields@[j] == fields_of(body)[j],
        decreases count - k,
    {
        let b = 5 + 4 * k;
        let id: u16 = buf[b] as u16 + 256 * (buf[b + 1] as u16);
        let val: u16 = buf[b + 2] as u16 + 256 * (buf[b + 3] as u16);
        fields.push((id, val));
        k = k + 1;
    }
    assert(fields@ =~= fields_of(body));
    Some((buf[4], fields))
}

/// Law: a built report decodes to the one field it was built with.
pub proof fn lemma_parse_build(msg_type: u8, id: u16, val: u16)
    ensures
        spec_parse(spec_frame(msg_type, id, val)) == Some((msg_type, seq![(id, val)])),
{
    let f = spec_frame(msg_type, id, val);
    let head = frame_head(msg_type, id, val);
    assert(f.take(9) =~= head);
    assert(lo(id) + 256 * hi(id) == id);
    assert(lo(val) + 256 * hi(val) == val);
    let ck = spec_checksum(head);
    assert(lo(ck) + 256 * hi(ck) == ck);
    assert(fields_of(f.subrange(5, 9)) =~= seq![(id, val)]);
}

/// Law: the bytes of a built report before its padding sum to zero modulo
/// 2^16, counting the checksum as a little-endian 16-bit word.
pub proof fn lemma_frame_sums_to_zero(msg_type: u8, id: u16, val: u16)
    ensures
        ({
            let f = spec_frame(msg_type, id, val);
            (byte_sum(f.take(9)) + le16(f[9], f[10])) % 0x10000 == 0
        }),
{
    let f = spec_frame(msg_type, id, val);
    let head = frame_head(msg_type, id, val);
    assert(f.take(9) =~= head);
    let ck = spec_checksum(head);
    assert(lo(ck) + 256 * hi(ck) == ck);
}

/// Law: the layout of a built report. It is 64 bytes: `c4`, the length 11,
/// two zero bytes, the message type, the id and the value little-endian, the
/// two checksum bytes, then zero padding; the first eleven bytes sum to zero
/// modulo 2^16 with the checksum read as a little-endian word.
pub proof fn lemma_frame_layout(msg_type: u8, id: u16, val: u16)
    ensures
        ({
            let f = spec_frame(msg_type, id, val);
            &&& f.len() == 64
            &&& f[0] == 0xC4 && f[1] == 11 && f[2] == 0 && f[3] == 0
            &&& f[4] == msg_type
            &&& f[5] + 256 * f[6] == id
            &&& f[7] + 256 * f[8] == val
            &&& (f[0] + f[1] + f[2] + f[3] + f[4] + f[5] + f[6] + f[7] + f[8] + f[9] + 256 * f[10])
                % 0x10000 == 0
            &&& forall|k: int| 11 <= k < 64 ==> f[k] == 0
        }),
{
    let f = spec_frame(msg_type, id, val);
    let head = frame_head(msg_type, id, val);
    let ck = spec_checksum(head);
    assert(f.take(9) =~= head);
    assert(lo(ck) + 256 * hi(ck) == ck);
    assert(lo(id) + 256 * hi(id) == id);
    assert(lo(val) + 256 * hi(val) == val);
    reveal_with_fuel(byte_sum, 10);
    assert(byte_sum(head) == head[0] + head[1] + head[2] + head[3] + head[4] + head[5] + head[6] + head[7] + head[8]) by {
        let h8 = head.drop_last();
        let h7 = h8.drop_last();
        let h6 = h7.drop_last();
        let h5 = h6.drop_last();
        let h4 = h5.drop_last();
        let h3 = h4.drop_last();
        let h2 = h3.drop_last();
        let h1 = h2.drop_last();
        let h0 = h1.drop_last();
        assert(h0.len() == 0);
        assert(byte_sum(h1) == head[0]);
        assert(byte_sum(h2) == head[0] + head[1]);
        assert(byte_sum(h3) == head[0] + head[1] + head[2]);
        assert(byte_sum(h4) == head[0] + head[1] + head[2] + head[3]);
        assert(byte_sum(h5) == head[0] + head[1] + head[2] + head[3] + head[4]);
        assert(byte_sum(h6) == head[0] + head[1] + head[2] + head[3] + head[4] + head[5]);
        assert(byte_sum(h7) == head[0] + head[1] + head[2] + head[3] + head[4] + head[5] + head[6]);
        assert(byte_sum(h8) == head[0] + head[1] + head[2] + head[3] + head[4] + head[5] + head[6] + head[7]);
    }
}

/// Law: a read is accepted as a report exactly when it starts with `c4`,
/// declares a length of at least 7 that the read covers and that leaves whole
/// 4-byte fields, and its last two declared bytes, read little-endian, cancel
/// the sum of the bytes before them modulo 2^16.
pub proof fn lemma_parse_accepts(buf: Seq<u8>)
    ensures
        (spec_parse(buf) is Some) <==> ({
            let len = buf[1] as int;
            &&& buf.len() >= 7
            &&& buf[0] == 0xC4
            &&& 7 <= len <= buf.len()
            &&& (len - 7) % 4 == 0
            &&& (byte_sum(buf.take(len - 2)) + buf[len - 2] + 256 * buf[len - 1]) % 0x10000 == 0
        }),
{
    if buf.len() >= 7 && buf[0] == 0xC4 {
        let len = buf[1] as int;
        if 7 <= len <= buf.len() {
            let sum = byte_sum(buf.take(len - 2));
            let w = buf[len - 2] + 256 * buf[len - 1];
            assert(le16(buf[len - 2], buf[len - 1]) == w);
            assert(0 <= w < 0x10000);
            let ck = spec_checksum(buf.take(len - 2));
            assert((w == ck) <==> ((sum + w) % 0x10000 == 0)) by {
                vstd::arithmetic::div_mod::lemma_add_mod_noop(sum as int, w as int, 0x10000);
                vstd::arithmetic::div_mod::lemma_small_mod(w as nat, 0x10000);
                vstd::arithmetic::div_mod::lemma_mod_bound(sum as int, 0x10000);
            }
        }
    }
}

/// Law: an accepted report decodes to its type byte and to one
/// `(id, value)` pair for each 4-byte field after the type, both read
/// little-endian.
pub proof fn lemma_parse_fields(buf: Seq<u8>)
    requires
        spec_parse(buf) is Some,
    ensures
        ({
            let (t, fields) = spec_parse(buf)->0;
            let len = buf[1] as int;
            &&& t == buf[4]
            &&& fields.len() == (len - 7) / 4
            &&& forall|k: int|
                0 <= k < fields.len() ==> #[trigger] fields[k] == (
                    (buf[5 + 4 * k] + 256 * buf[6 + 4 * k]) as u16,
                    (buf[7 + 4 * k] + 256 * buf[8 + 4 * k]) as u16,
                )
        }),
{
    let len = buf[1] as int;
    let body = buf.subrange(5, len - 2);
    assert forall|k: int| 0 <= k < (len - 7) / 4 implies #[trigger] fields_of(body)[k] == (
        (buf[5 + 4 * k] + 256 * buf[6 + 4 * k]) as u16,
        (buf[7 + 4 * k] + 256 * buf[8 + 4 * k]) as u16,
    ) by {
        assert(4 * k + 3 < body.len()) by (nonlinear_arith)
            requires
                0 <= k < (len - 7) / 4,
                body.len() == len - 7,
        ;
        assert(body[4 * k] == buf[5 + 4 * k]);
        assert(body[4 * k + 1] == buf[6 + 4 * k]);
        assert(body[4 * k + 2] == buf[7 + 4 * k]);
        assert(body[4 * k + 3] == buf[8 + 4 * k]);
    }
}

/// Law: an accepted report carries a checksum that cancels the sum of the
/// bytes before it, modulo 2^16.
pub proof fn lemma_accepted_frame_sums_to_zero(buf: Seq<u8>)
    requires
        spec_parse(buf) is Some,
    ensures
        ({
            let len = buf[1] as int;
            (byte_sum(buf.take(len - 2)) + le16(buf[len - 2], buf[len - 1])) % 0x10000 == 0
        }),
{
}

/// Law: bytes past the declared length never change the decoding, so the
/// padding and whatever follows a frame in a read buffer are ignored.
pub proof fn lemma_parse_ignores_trailing(buf: Seq<u8>, extra: Seq<u8>)
    requires
        spec_parse(buf) is Some,
    ensures
        spec_parse(buf + extra) == spec_parse(buf),
{
    let all = buf + extra;
    let len = buf[1] as int;
    assert(all.take(len - 2) =~= buf.take(len - 2));
    assert(all.subrange(5, len - 2) =~= buf.subrange(5, len - 2));
}

/// The value of the first field with the given id, if any.
pub open spec fn first_value(fields: Seq<(u16, u16)>, id: u16) -> Option<u16>
    decreases fields.len(),
{
    if fields.len() == 0 {
        None
    } else if fields[0].0 == id {
        Some(fields[0].1)
    } else {
        first_value(fields.drop_first(), id)
    }
}

/// What a query does after one attempt to read a report.
#[derive(PartialEq, Eq, Structural, Clone, Copy, Debug)]
pub enum QueryStep {
    /// The answer arrived.
    Answer(u16),
    /// A report came that does not answer the query; read again at once.
    Again,
    /// Nothing was waiting; pause briefly before reading again.
    Wait,
}

/// The step a query for `id` takes on the outcome of one read: a `GET`
/// report carrying the id answers it, any other report is skipped, and an
/// empty read means waiting.
pub open spec fn spec_query_step(id: u16, read: Option<(u8, Seq<(u16, u16)>)>) -> QueryStep {
    match read {
        None => QueryStep::Wait,
        Some((t, fields)) => if t == GET {
            match first_value(fields, id) {
                Some(v) => QueryStep::Answer(v),
                None => QueryStep::Again,
            }
        } else {
            QueryStep::Again
        },
    }
}

/// Decide what a query for `id` does with the outcome of one read.
#[verifier::loop_isolation(false)]
pub fn query_step(id: u16, read: &Option<(u8, Vec<(u16, u16)>)>) -> (step: QueryStep)
    ensures
        step == spec_query_step(
            id,
            match read {
                None => None,
                Some((t, fields)) => Some((*t, fields@)),
            },
        ),
{
    match read {
        None => QueryStep::Wait,
        Some((t, fields)) => {
            if *t != GET {
                return QueryStep::Again;
            }
            let mut i: usize = 0;
            assert(fields@.skip(0) =~= fields@);
            while i < fields.len()
                invariant
                    i <= fields@.len(),
                    first_value(fields@, id) == first_value(fields@.skip(i as int), id),
                decreases fields@.len() - i,
            {
                assert(fields@.skip(i as int).drop_first() =~= fields@.skip(i as int + 1));
                assert(fields@.skip(i as int)[0] == fields@[i as int]);
                if fields[i].0 == id {
                    assert(first_value(fields@.skip(i as int), id) == Some(fields@[i as int].1));
                    return QueryStep::Answer(fields[i].1);
                }
                i = i + 1;
            }
            assert(fields@.skip(i as int).len() == 0);
            QueryStep::Again
        },
    }
}

proof fn lemma_first_value_at(fields: Seq<(u16, u16)>, id: u16, k: int)
    requires
        0 <= k < fields.len(),
        fields[k].0 == id,
        forall|j: int| 0 <= j < k ==> fields[j].0 != id,
    ensures
        first_value(fields, id) == Some(fields[k].1),
    decreases k,
{
    if k > 0 {
        let rest = fields.drop_first();
        assert forall|j: int| 0 <= j < k - 1 implies rest[j].0 != id by {
            assert(rest[j] == fields[j + 1]);
        }
        assert(fields[0].0 != id);
        lemma_first_value_at(rest, id, k - 1);
    }
}

proof fn lemma_first_value_none(fields: Seq<(u16, u16)>, id: u16)
    requires
        forall|j: int| 0 <= j < fields.len() ==> fields[j].0 != id,
    ensures
        first_value(fields, id) is None,
    decreases fields.len(),
{
    if fields.len() > 0 {
        let rest = fields.drop_first();
        assert forall|j: int| 0 <= j < rest.len() implies rest[j].0 != id by {
            assert(rest[j] == fields[j + 1]);
        }
        assert(fields[0].0 != id);
        lemma_first_value_none(rest, id);
    }
}

/// Law: a query is answered by a `GET` report with the value of the first
/// field whose id is the one queried, wherever in the report it stands.
pub proof fn lemma_query_answer(id: u16, fields: Seq<(u16, u16)>, k: int)
    requires
        0 <= k < fields.len(),
        fields[k].0 == id,
        forall|j: int| 0 <= j < k ==> fields[j].0 != id,
    ensures
        spec_query_step(id, Some((GET, fields))) == QueryStep::Answer(fields[k].1),
{
    lemma_first_value_at(fields, id, k);
}

/// Law: the receiver's one-field reply `(id, v)` to a query for `id`
/// answers it with `v`.
pub proof fn lemma_query_single_reply(id: u16, v: u16)
    ensures
        spec_query_step(id, Some((GET, seq![(id, v)]))) == QueryStep::Answer(v),
{
    lemma_first_value_at(seq![(id, v)], id, 0);
}

/// Law: a query keeps reading past a report that is not a `GET` reply or
/// that carries no field with the queried id, and waits when nothing came.
pub proof fn lemma_query_skips(id: u16, t: u8, fields: Seq<(u16, u16)>)
    requires
        t != GET || forall|j: int| 0 <= j < fields.len() ==> fields[j].0 != id,
    ensures
        spec_query_step(id, Some((t, fields))) == QueryStep::Again,
        spec_query_step(id, None) == QueryStep::Wait,
{
    if t == GET {
        lemma_first_value_none(fields, id);
    }
}

/// Level meter units of a `LEVEL` notification: the low byte, capped at the
/// full-scale reference 0x3f.
pub open spec fn spec_level_units(raw: u16) -> u16 {
    if raw % 256 < 63 {
        (raw % 256) as u16
    } else {
        63
    }
}

/// The level meter reports the same byte twice; the low byte is the level.
/// Peaks land around 0x3f in practice, so that is full scale.
pub fn level_units(raw: u16) -> (u: u16)
    ensures
        u == spec_level_units(raw),
        u <= 63,
{
    let b = raw % 256;
    if b < 63 {
        b
    } else {
        63
    }
}

} // verus!
