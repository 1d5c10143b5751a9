//! Wire codec: variable-length integers, tagged fields and nested messages,
//! and the request body of the analytics query.

use vstd::prelude::*;
use vstd::string::StringSliceAdditionalSpecFns;

verus! {

/// The variable-length encoding of `v`: seven bits per byte, least significant
/// group first, the high bit set on every byte but the last.
pub open spec fn varint_spec(v: nat) -> Seq<u8>
    decreases v,
{
    if v < 128 {
        seq![v as u8]
    } else {
        seq![((v % 128) + 128) as u8] + varint_spec(v / 128)
    }
}

/// The number that a variable-length encoding stands for: each byte gives its
/// low seven bits, the first byte the least significant ones.
pub open spec fn varint_value(bytes: Seq<u8>) -> nat
    decreases bytes.len(),
{
    if bytes.len() == 0 {
        0
    } else {
        ((bytes[0] as nat) % 128) + 128 * varint_value(bytes.skip(1))
    }
}

/// How a field's payload is laid out on the wire.
#[derive(Clone, Copy, Debug, PartialEq, Eq)]
pub enum WireType {
    /// A single variable-length integer.
    Varint,
    /// A length prefix followed by that many bytes.
    LengthDelimited,
}

impl WireType {
    /// The three-bit code that the tag carries for this layout.
    pub open spec fn code(self) -> nat {
        match self {
            WireType::Varint => 0,
            WireType::LengthDelimited => 2,
        }
    }

    /// The code as a number.
    pub fn number(&self) -> (n: u64)
        ensures
            n == self.code(),
    {
        match self {
            WireType::Varint => 0,
            WireType::LengthDelimited => 2,
        }
    }
}

/// A field's tag: the field number shifted left by three bits, joined with
/// the wire type's code, as a variable-length integer.
pub open spec fn tag_spec(field: nat, wire: WireType) -> Seq<u8> {
    varint_spec(field * 8 + wire.code())
}

/// A field that holds one variable-length integer.
pub open spec fn varint_field_spec(field: nat, value: nat) -> Seq<u8> {
    tag_spec(field, WireType::Varint) + varint_spec(value)
}

/// A length-delimited field: tag, payload length, payload.
pub open spec fn len_delimited_spec(field: nat, payload: Seq<u8>) -> Seq<u8> {
    tag_spec(field, WireType::LengthDelimited) + varint_spec(payload.len()) + payload
}

/// A signed 64-bit number read as the unsigned number with the same bits.
pub open spec fn as_unsigned(v: i64) -> nat {
    if v >= 0 {
        v as nat
    } else {
        (v + 0x1_0000_0000_0000_0000) as nat
    }
}

/// The body of a timestamp message: its `seconds` field, number 1.
pub open spec fn timestamp_spec(seconds: i64) -> Seq<u8> {
    varint_field_spec(1, as_unsigned(seconds))
}

/// Encodes `value` as a variable-length integer.
pub fn encode_varint(value: u64) -> (out: Vec<u8>)
    ensures
        out@ == varint_spec(value as nat),
{
    let mut out: Vec<u8> = Vec::new();
    let mut rest: u64 = value;
    while rest >= 128
        invariant
            out@ + varint_spec(rest as nat) == varint_spec(value as nat),
        decreases rest,
    {
        let low: u8 = (rest % 128 + 128) as u8;
        proof {
            assert(out@.push(low) + varint_spec((rest / 128) as nat) =~= out@ + varint_spec(
                rest as nat,
            ));
        }
        out.push(low);
        rest = rest / 128;
    }
    proof {
        assert(out@.push(rest as u8) =~= out@ + varint_spec(rest as nat));
    }
    out.push(rest as u8);
    out
}

/// Appends a copy of `bytes` to `out`.
pub fn append_bytes(out: &mut Vec<u8>, bytes: &[u8])
    ensures
        final(out)@ == old(out)@ + bytes@,
{
    let mut i: usize = 0;
    while i < bytes.len()
        invariant
            i <= bytes.len(),
            out@ == old(out)@ + bytes@.take(i as int),
        decreases bytes.len() - i,
    {
        proof {
            assert(bytes@.take(i as int + 1) =~= bytes@.take(i as int).push(bytes@[i as int]));
            assert((old(out)@ + bytes@.take(i as int)).push(bytes@[i as int]) =~= old(out)@
                + bytes@.take(i as int + 1));
        }
        out.push(bytes[i]);
        i = i + 1;
    }
    proof {
        assert(bytes@.take(bytes@.len() as int) =~= bytes@);
    }
}

/// Encodes the tag of field `field` with layout `wire`.
pub fn encode_tag(field: u32, wire: WireType) -> (out: Vec<u8>)
    ensures
        out@ == tag_spec(field as nat, wire),
{
    let key: u64 = (field as u64) * 8 + wire.number();
    encode_varint(key)
}

/// Encodes field `field` holding the variable-length integer `value`.
pub fn encode_varint_field(field: u32, value: u64) -> (out: Vec<u8>)
    ensures
        out@ == varint_field_spec(field as nat, value as nat),
{
    let mut out = encode_tag(field, WireType::Varint);
    let mut body = encode_varint(value);
    out.append(&mut body);
    out
}

/// Encodes field `field` holding `payload` behind its length. A nested
/// message is a field whose payload is the inner message's encoding.
pub fn encode_len_delimited(field: u32, payload: &[u8]) -> (out: Vec<u8>)
    ensures
        out@ == len_delimited_spec(field as nat, payload@),
{
    let mut out = encode_tag(field, WireType::LengthDelimited);
    let mut length = encode_varint(payload.len() as u64);
    out.append(&mut length);
    append_bytes(&mut out, payload);
    out
}

/// The bits of `v` as an unsigned number.
pub fn to_unsigned(v: i64) -> (u: u64)
    ensures
        u == as_unsigned(v),
{
    if v >= 0 {
        v as u64
    } else {
        let below: u64 = (-(v + 1)) as u64;
        u64::MAX - below
    }
}

/// Encodes the body of a timestamp message for `timestamp`, in seconds.
pub fn encode_timestamp(timestamp: i64) -> (out: Vec<u8>)
    ensures
        out@ == timestamp_spec(timestamp),
{
    encode_varint_field(1, to_unsigned(timestamp))
}

/// A sub-query of the analytics request. Each is a field of the query
/// message, under a number that the remote schema assigns.
#[derive(Clone, Copy, Debug, PartialEq, Eq)]
pub enum SubQuery {
    CompletionStats,
    CompletionsByDay,
    CompletionsByLanguage,
    ChatsByDay,
    ChatsByModel,
    PercentCodeWritten,
    CascadeLines,
    CascadeToolUsage,
    CascadeRuns,
}

impl SubQuery {
    /// The field number of this sub-query inside the query message.
    pub open spec fn field(self) -> nat {
        match self {
            SubQuery::CompletionStats => 1,
            SubQuery::CompletionsByDay => 2,
            SubQuery::CompletionsByLanguage => 3,
            SubQuery::ChatsByDay => 10,
            SubQuery::ChatsByModel => 12,
            SubQuery::PercentCodeWritten => 15,
            SubQuery::CascadeLines => 23,
            SubQuery::CascadeToolUsage => 24,
            SubQuery::CascadeRuns => 25,
        }
    }

    /// Whether this sub-query carries a time zone as its parameter.
    pub open spec fn takes_time_zone(self) -> bool {
        self == SubQuery::CompletionsByDay || self == SubQuery::ChatsByDay
    }

    /// The field number as a number.
    pub fn field_number(&self) -> (n: u32)
        ensures
            n == self.field(),
    {
        match self {
            SubQuery::CompletionStats => 1,
            SubQuery::CompletionsByDay => 2,
            SubQuery::CompletionsByLanguage => 3,
            SubQuery::ChatsByDay => 10,
            SubQuery::ChatsByModel => 12,
            SubQuery::PercentCodeWritten => 15,
            SubQuery::CascadeLines => 23,
            SubQuery::CascadeToolUsage => 24,
            SubQuery::CascadeRuns => 25,
        }
    }

    /// Whether this sub-query carries a time zone as its parameter.
    pub fn needs_time_zone(&self) -> (b: bool)
        ensures
            b == self.takes_time_zone(),
    {
        match self {
            SubQuery::CompletionsByDay => true,
            SubQuery::ChatsByDay => true,
            _ => false,
        }
    }
}

/// The time zone that the by-day sub-queries name: `Asia/Shanghai`, in ASCII.
pub open spec fn time_zone() -> Seq<u8> {
    seq![0x41u8, 0x73, 0x69, 0x61, 0x2F, 0x53, 0x68, 0x61, 0x6E, 0x67, 0x68, 0x61, 0x69]
}

/// What a sub-query's own message holds: the time zone as field 1 where it
/// takes one, nothing otherwise.
pub open spec fn parameter_spec(q: SubQuery) -> Seq<u8> {
    if q.takes_time_zone() {
        len_delimited_spec(1, time_zone())
    } else {
        Seq::<u8>::empty()
    }
}

/// One requested sub-query: field 2 of the request, holding a query message
/// whose only field is the sub-query's own.
pub open spec fn sub_query_spec(q: SubQuery) -> Seq<u8> {
    len_delimited_spec(2, len_delimited_spec(q.field(), parameter_spec(q)))
}

/// The sub-queries of a request, in the order in which they are sent. The
/// last one is sent for team-level access only.
pub open spec fn requested(is_team: bool) -> Seq<SubQuery> {
    let always = seq![
        SubQuery::CascadeLines,
        SubQuery::CascadeToolUsage,
        SubQuery::CascadeRuns,
        SubQuery::CompletionStats,
        SubQuery::CompletionsByLanguage,
        SubQuery::ChatsByModel,
        SubQuery::CompletionsByDay,
        SubQuery::ChatsByDay,
    ];
    if is_team {
        always.push(SubQuery::PercentCodeWritten)
    } else {
        always
    }
}

/// The encodings of the sub-queries `qs`, one after the other.
pub open spec fn sub_queries_spec(qs: Seq<SubQuery>) -> Seq<u8>
    decreases qs.len(),
{
    if qs.len() == 0 {
        Seq::<u8>::empty()
    } else {
        sub_queries_spec(qs.drop_last()) + sub_query_spec(qs.last())
    }
}

/// The whole request body: the sub-queries, the start and the end of the time
/// range as timestamp messages under fields 3 and 4, and the credential key
/// as a string under field 5.
pub open spec fn analytics_body_spec(api_key: Seq<u8>, start: i64, end: i64, is_team: bool) -> Seq<
    u8,
> {
    sub_queries_spec(requested(is_team)) + len_delimited_spec(3, timestamp_spec(start))
        + len_delimited_spec(4, timestamp_spec(end)) + len_delimited_spec(5, api_key)
}

/// The time zone's bytes.
pub fn time_zone_bytes() -> (out: Vec<u8>)
    ensures
        out@ == time_zone(),
{
    let out: Vec<u8> = vec![0x41, 0x73, 0x69, 0x61, 0x2F, 0x53, 0x68, 0x61, 0x6E, 0x67, 0x68, 0x61, 0x69];
    assert(out@ =~= time_zone());
    out
}

/// Encodes one requested sub-query.
pub fn encode_sub_query(q: SubQuery) -> (out: Vec<u8>)
    ensures
        out@ == sub_query_spec(q),
{
    let parameter: Vec<u8> = if q.needs_time_zone() {
        let zone = time_zone_bytes();
        encode_len_delimited(1, zone.as_slice())
    } else {
        Vec::new()
    };
    let query = encode_len_delimited(q.field_number(), parameter.as_slice());
    encode_len_delimited(2, query.as_slice())
}

/// The sub-queries to send, in order.
pub fn requested_sub_queries(is_team: bool) -> (out: Vec<SubQuery>)
    ensures
        out@ == requested(is_team),
{
    let mut out: Vec<SubQuery> = vec![
        SubQuery::CascadeLines,
        SubQuery::CascadeToolUsage,
        SubQuery::CascadeRuns,
        SubQuery::CompletionStats,
        SubQuery::CompletionsByLanguage,
        SubQuery::ChatsByModel,
        SubQuery::CompletionsByDay,
        SubQuery::ChatsByDay,
    ];
    if is_team {
        out.push(SubQuery::PercentCodeWritten);
    }
    assert(out@ =~= requested(is_team));
    out
}

/// Builds the body of the analytics request for the time range from
/// `start_timestamp` to `end_timestamp`, both in seconds.
pub fn build_get_analytics_body(
    api_key: &str,
    start_timestamp: i64,
    end_timestamp: i64,
    is_team: bool,
) -> (body: Vec<u8>)
    ensures
        body@ == analytics_body_spec(
            api_key.spec_bytes(),
            start_timestamp,
            end_timestamp,
            is_team,
        ),
{
    let queries = requested_sub_queries(is_team);
    let mut body: Vec<u8> = Vec::new();
    let mut i: usize = 0;
    while i < queries.len()
        invariant
            i <= queries.len(),
            body@ == sub_queries_spec(queries@.take(i as int)),
        decreases queries.len() - i,
    {
        let mut one = encode_sub_query(queries[i]);
        proof {
            let next = queries@.take(i as int + 1);
            assert(next.drop_last() =~= queries@.take(i as int));
            assert(next.last() == queries@[i as int]);
        }
        body.append(&mut one);
        i = i + 1;
    }
    proof {
        assert(queries@.take(queries@.len() as int) =~= queries@);
    }
    let start = encode_timestamp(start_timestamp);
    let mut start_field = encode_len_delimited(3, start.as_slice());
    body.append(&mut start_field);
    let end = encode_timestamp(end_timestamp);
    let mut end_field = encode_len_delimited(4, end.as_slice());
    body.append(&mut end_field);
    let mut key_field = encode_len_delimited(5, api_key.as_bytes());
    body.append(&mut key_field);
    body
}

/// The encodings of the sub-queries, byte for byte, as the remote service
/// expects them.
pub proof fn lemma_sub_query_bytes()
    ensures
        sub_query_spec(SubQuery::CascadeLines) == seq![0x12u8, 0x03, 0xBA, 0x01, 0x00],
        sub_query_spec(SubQuery::CascadeToolUsage) == seq![0x12u8, 0x03, 0xC2, 0x01, 0x00],
        sub_query_spec(SubQuery::CascadeRuns) == seq![0x12u8, 0x03, 0xCA, 0x01, 0x00],
        sub_query_spec(SubQuery::CompletionStats) == seq![0x12u8, 0x02, 0x0A, 0x00],
        sub_query_spec(SubQuery::CompletionsByLanguage) == seq![0x12u8, 0x02, 0x1A, 0x00],
        sub_query_spec(SubQuery::ChatsByModel) == seq![0x12u8, 0x02, 0x62, 0x00],
        sub_query_spec(SubQuery::PercentCodeWritten) == seq![0x12u8, 0x02, 0x7A, 0x00],
        sub_query_spec(SubQuery::CompletionsByDay) == seq![0x12u8, 0x11, 0x12, 0x0F, 0x0A, 0x0D]
            + time_zone(),
        sub_query_spec(SubQuery::ChatsByDay) == seq![0x12u8, 0x11, 0x52, 0x0F, 0x0A, 0x0D]
            + time_zone(),
{
    reveal_with_fuel(varint_spec, 3);
    assert(sub_query_spec(SubQuery::CascadeLines) =~= seq![0x12u8, 0x03, 0xBA, 0x01, 0x00]);
    assert(sub_query_spec(SubQuery::CascadeToolUsage) =~= seq![0x12u8, 0x03, 0xC2, 0x01, 0x00]);
    assert(sub_query_spec(SubQuery::CascadeRuns) =~= seq![0x12u8, 0x03, 0xCA, 0x01, 0x00]);
    assert(sub_query_spec(SubQuery::CompletionStats) =~= seq![0x12u8, 0x02, 0x0A, 0x00]);
    assert(sub_query_spec(SubQuery::CompletionsByLanguage) =~= seq![0x12u8, 0x02, 0x1A, 0x00]);
    assert(sub_query_spec(SubQuery::ChatsByModel) =~= seq![0x12u8, 0x02, 0x62, 0x00]);
    assert(sub_query_spec(SubQuery::PercentCodeWritten) =~= seq![0x12u8, 0x02, 0x7A, 0x00]);
    assert(parameter_spec(SubQuery::CompletionsByDay) =~= seq![0x0Au8, 0x0D] + time_zone());
    assert(sub_query_spec(SubQuery::CompletionsByDay) =~= seq![
        0x12u8,
        0x11,
        0x12,
        0x0F,
        0x0A,
        0x0D,
    ] + time_zone());
    assert(sub_query_spec(SubQuery::ChatsByDay) =~= seq![0x12u8, 0x11, 0x52, 0x0F, 0x0A, 0x0D]
        + time_zone());
}

/// Decoding an encoded number gives the number back.
pub proof fn lemma_varint_round_trip(v: nat)
    ensures
        varint_value(varint_spec(v)) == v,
    decreases v,
{
    if v < 128 {
        let s = varint_spec(v);
        assert(s.skip(1) =~= Seq::<u8>::empty());
        assert(varint_value(s.skip(1)) == 0);
    } else {
        let s = varint_spec(v);
        let first = ((v % 128) + 128) as u8;
        assert(s[0] == first);
        assert(s.skip(1) =~= varint_spec(v / 128));
        lemma_varint_round_trip(v / 128);
    }
}

/// An encoded number ends at its first byte without the continuation bit:
/// every byte but the last has the high bit set, and the last has not.
pub proof fn lemma_varint_shape(v: nat)
    ensures
        varint_spec(v).len() >= 1,
        varint_spec(v).last() < 128,
        forall|i: int| 0 <= i < varint_spec(v).len() - 1 ==> #[trigger] varint_spec(v)[i] >= 128,
    decreases v,
{
    if v >= 128 {
        lemma_varint_shape(v / 128);
        let s = varint_spec(v);
        let rest = varint_spec(v / 128);
        assert forall|i: int| 0 <= i < s.len() - 1 implies #[trigger] s[i] >= 128 by {
            if i > 0 {
                assert(s[i] == rest[i - 1]);
            }
        }
    }
}

/// A 64-bit number takes at most ten bytes.
pub proof fn lemma_varint_len(v: u64)
    ensures
        1 <= varint_spec(v as nat).len() <= 10,
{
    assert(pow128(10) == 0x40_0000_0000_0000_0000) by {
        reveal_with_fuel(pow128, 11);
    }
    lemma_varint_len_bound(v as nat, 10);
}

/// A number below `128^k` takes at most `k` bytes.
pub proof fn lemma_varint_len_bound(v: nat, k: nat)
    requires
        k >= 1,
        v < pow128(k),
    ensures
        1 <= varint_spec(v).len() <= k,
    decreases k,
{
    if v >= 128 {
        if k == 1 {
            assert(pow128(1) == 128 * pow128(0));
        } else {
            assert(v / 128 < pow128((k - 1) as nat)) by {
                assert(pow128(k) == 128 * pow128((k - 1) as nat));
            }
            lemma_varint_len_bound(v / 128, (k - 1) as nat);
        }
    }
}

/// `128` to the power `k`.
pub open spec fn pow128(k: nat) -> nat
    decreases k,
{
    if k == 0 {
        1
    } else {
        128 * pow128((k - 1) as nat)
    }
}

} // verus!
