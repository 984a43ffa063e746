//! Validation rules and their statuses.
//!
//! A status is serialized as
//!
//! ```text
//! field      | format | #bytes         | description
//! -----------------------------------------------------------------------
//! dataSize   | UShort | 1..3 bytes     | number of bytes for dataBytes
//! statusCode | Byte   | 1 byte         | code of the status type
//! dataBytes  | Bytes  | dataSize bytes | serialized bytes of status value
//! ```
use vstd::prelude::*;
use vstd::string::StringExecFns;
use crate::serialization::{SigmaByteReader, SigmaParsingError, SigmaSerializationError};
use crate::text;
use crate::vlq;

verus! {

/// The id of the first validation rule. Ids are serialized as offsets from it.
pub const FIRST_RULE_ID: i16 = 1000;

/// Status of a validation rule, alterable by soft-forks via block extension
/// voting.
#[derive(PartialEq, Eq, Debug, Clone)]
pub enum RuleStatus {
    /// Default status of a rule which is registered in the table and not yet
    /// altered by soft-forks.
    EnabledRule,
    /// Rule disabled in the current version via block extensions and the
    /// voting process.
    DisabledRule,
    /// Rule replaced by a new rule via soft-fork extensions. Like
    /// `DisabledRule`, but additionally requires the new rule to be enabled at
    /// the same time.
    ///
    /// Parsing wraps the sum of the offset and [`FIRST_RULE_ID`] to a signed
    /// 16-bit id. An id that was wrapped, like any id below [`FIRST_RULE_ID`],
    /// cannot be serialized.
    ReplacedRule(i16),
    /// Rule whose parameters are changed via soft-fork extensions; the payload
    /// is the new value of the block extension value with key == rule id.
    ChangedRule(Vec<u8>),
}

/// What a [`RuleStatus`] stands for.
pub enum RuleStatusView {
    EnabledRule,
    DisabledRule,
    ReplacedRule(i16),
    ChangedRule(Seq<u8>),
}

impl View for RuleStatus {
    type V = RuleStatusView;

    open spec fn view(&self) -> RuleStatusView {
        match self {
            RuleStatus::EnabledRule => RuleStatusView::EnabledRule,
            RuleStatus::DisabledRule => RuleStatusView::DisabledRule,
            RuleStatus::ReplacedRule(id) => RuleStatusView::ReplacedRule(*id),
            RuleStatus::ChangedRule(data) => RuleStatusView::ChangedRule(data@),
        }
    }
}

impl RuleStatusView {
    /// Code of the status type.
    pub open spec fn code(self) -> u8 {
        match self {
            RuleStatusView::EnabledRule => 1,
            RuleStatusView::DisabledRule => 2,
            RuleStatusView::ReplacedRule(_) => 3,
            RuleStatusView::ChangedRule(_) => 4,
        }
    }

    /// Serialized bytes of the status value. A replacement has none when its
    /// id is below the first one, a change when its payload is too long.
    pub open spec fn data_bytes(self) -> Option<Seq<u8>> {
        match self {
            RuleStatusView::EnabledRule | RuleStatusView::DisabledRule => Some(Seq::empty()),
            RuleStatusView::ReplacedRule(id) => if id >= FIRST_RULE_ID {
                Some(vlq::vlq((id - FIRST_RULE_ID) as nat))
            } else {
                None
            },
            RuleStatusView::ChangedRule(data) => if data.len() <= 0xffff {
                Some(data)
            } else {
                None
            },
        }
    }

    /// Serialized form.
    pub open spec fn bytes(self) -> Option<Seq<u8>> {
        match self.data_bytes() {
            Some(data) => Some(vlq::vlq(data.len()) + seq![self.code()] + data),
            None => None,
        }
    }

    /// Why there is no serialized form.
    pub open spec fn unsupported(self) -> Seq<char> {
        match self {
            RuleStatusView::ReplacedRule(id) => "ReplacedRule id "@ + text::signed_decimal(
                id as int,
            ) + " is below FIRST_RULE_ID 1000 (negative wire offset)"@,
            RuleStatusView::ChangedRule(data) => "ChangedRule payload of "@ + text::decimal(
                data.len(),
            ) + " bytes exceeds the UShort dataSize range"@,
            _ => Seq::empty(),
        }
    }
}

/// Signed 16-bit number with the same low 16 bits.
pub open spec fn wrap_i16(n: int) -> i16 {
    let low = n % 0x1_0000;
    if low < 0x8000 {
        low as i16
    } else {
        (low - 0x1_0000) as i16
    }
}

/// Status at the start of `s`, which is read from position `pos` on under a
/// position limit, and how many bytes it takes.
pub open spec fn parse_status(s: Seq<u8>, pos: int, limit: Option<usize>) -> Result<
    (RuleStatusView, nat),
    SigmaParsingError,
> {
    match vlq::read_u16(s) {
        Err(e) => Err(e),
        Ok((size, n)) => if n >= s.len() {
            Err(SigmaParsingError::UnexpectedEof)
        } else {
            let data = s.skip(n as int + 1);
            if s[n as int] == 1 {
                Ok((RuleStatusView::EnabledRule, n + 1))
            } else if s[n as int] == 2 {
                Ok((RuleStatusView::DisabledRule, n + 1))
            } else if s[n as int] == 3 {
                match vlq::read_u16(data) {
                    Err(e) => Err(e),
                    Ok((offset, m)) => Ok(
                        (RuleStatusView::ReplacedRule(wrap_i16(offset + FIRST_RULE_ID)), n + 1 + m),
                    ),
                }
            } else if s[n as int] == 4 {
                if SigmaByteReader::beyond(limit, pos + n + 1) {
                    Err(
                        SigmaParsingError::PositionLimitExceeded {
                            position: (pos + n + 1) as usize,
                            limit: limit->Some_0,
                        },
                    )
                } else if size > data.len() {
                    Err(SigmaParsingError::UnexpectedEof)
                } else {
                    Ok(
                        (
                            RuleStatusView::ChangedRule(data.take(size as int)),
                            n + 1 + size as nat,
                        ),
                    )
                }
            } else {
                if size > data.len() {
                    Err(SigmaParsingError::UnexpectedEof)
                } else {
                    Ok((RuleStatusView::ReplacedRule(0), n + 1 + size as nat))
                }
            }
        },
    }
}

impl RuleStatus {
    /// Status code of [`RuleStatus::EnabledRule`]
    pub const ENABLED_RULE_CODE: u8 = 1;

    /// Status code of [`RuleStatus::DisabledRule`]
    pub const DISABLED_RULE_CODE: u8 = 2;

    /// Status code of [`RuleStatus::ReplacedRule`]
    pub const REPLACED_RULE_CODE: u8 = 3;

    /// Status code of [`RuleStatus::ChangedRule`]
    pub const CHANGED_RULE_CODE: u8 = 4;

    /// Wire code of this status.
    pub fn status_code(&self) -> (r: u8)
        ensures
            r == self@.code(),
    {
        match self {
            RuleStatus::EnabledRule => Self::ENABLED_RULE_CODE,
            RuleStatus::DisabledRule => Self::DISABLED_RULE_CODE,
            RuleStatus::ReplacedRule(_) => Self::REPLACED_RULE_CODE,
            RuleStatus::ChangedRule(_) => Self::CHANGED_RULE_CODE,
        }
    }

    /// Appends the serialized form. A status that has none leaves the bytes as
    /// they were.
    pub fn sigma_serialize(&self, w: &mut Vec<u8>) -> (r: Result<(), SigmaSerializationError>)
        ensures
            match r {
                Ok(()) => self@.bytes() is Some && final(w)@ == old(w)@ + self@.bytes()->Some_0,
                Err(SigmaSerializationError::NotSupported(why)) => self@.bytes() is None
                    && final(w)@ == old(w)@ && why@ == self@.unsupported(),
            },
    {
        match self {
            RuleStatus::EnabledRule | RuleStatus::DisabledRule => {
                vlq::put_u16(w, 0);
                w.push(self.status_code());
                assert(w@ =~= old(w)@ + self@.bytes()->Some_0);
                Ok(())
            },
            RuleStatus::ReplacedRule(new_rule_id) => {
                let offset: i32 = *new_rule_id as i32 - FIRST_RULE_ID as i32;
                if offset < 0 {
                    let mut why = String::from_str("ReplacedRule id ");
                    text::append_signed_decimal(&mut why, *new_rule_id as i64);
                    why.append(" is below FIRST_RULE_ID 1000 (negative wire offset)");
                    return Err(SigmaSerializationError::NotSupported(why));
                }
                let offset: u16 = offset as u16;
                let mut offset_vlq: Vec<u8> = Vec::new();
                vlq::put_u16(&mut offset_vlq, offset);
                proof {
                    vlq::lemma_vlq_len(offset as nat);
                    assert(offset_vlq@ =~= vlq::vlq(offset as nat));
                }
                vlq::put_u16(w, offset_vlq.len() as u16);
                w.push(self.status_code());
                vlq::put_u16(w, offset);
                assert(w@ =~= old(w)@ + self@.bytes()->Some_0);
                Ok(())
            },
            RuleStatus::ChangedRule(data) => {
                if data.len() > 0xffff {
                    let mut why = String::from_str("ChangedRule payload of ");
                    text::append_decimal(&mut why, data.len() as u64);
                    why.append(" bytes exceeds the UShort dataSize range");
                    return Err(SigmaSerializationError::NotSupported(why));
                }
                vlq::put_u16(w, data.len() as u16);
                w.push(self.status_code());
                w.extend_from_slice(data.as_slice());
                assert(w@ =~= old(w)@ + self@.bytes()->Some_0);
                Ok(())
            },
        }
    }

    /// The serialized form.
    pub fn sigma_serialize_bytes(&self) -> (r: Result<Vec<u8>, SigmaSerializationError>)
        ensures
            match r {
                Ok(bytes) => self@.bytes() == Some(bytes@),
                Err(SigmaSerializationError::NotSupported(why)) => self@.bytes() is None && why@
                    == self@.unsupported(),
            },
    {
        let mut w: Vec<u8> = Vec::new();
        match self.sigma_serialize(&mut w) {
            Ok(()) => {
                assert(w@ =~= self@.bytes()->Some_0);
                Ok(w)
            },
            Err(e) => Err(e),
        }
    }

    /// Reads a status.
    ///
    /// - A replacement reads its offset whatever the data size says.
    /// - A status code that is not known skips as many bytes as the data size
    ///   says and gives `ReplacedRule(0)`, so that it is processed as a
    ///   soft-fork. The skip is not held against the position limit.
    pub fn sigma_parse(r: &mut SigmaByteReader) -> (res: Result<RuleStatus, SigmaParsingError>)
        requires
            old(r).wf(),
        ensures
            old(r).moved(*final(r)),
            match res {
                Ok(status) => parse_status(old(r).rest(), old(r).pos(), old(r).position_limit())
                    == Ok::<(RuleStatusView, nat), SigmaParsingError>(
                    (status@, (final(r).pos() - old(r).pos()) as nat),
                ),
                Err(e) => parse_status(old(r).rest(), old(r).pos(), old(r).position_limit())
                    == Err::<(RuleStatusView, nat), SigmaParsingError>(e),
            },
    {
        let ghost input = r.rest();
        let data_size: usize = r.get_u16()? as usize;
        let ghost n = r.pos() - old(r).pos();
        assert(r.rest() =~= input.skip(n));
        let status_type: u8 = r.get_u8()?;
        assert(r.rest() =~= input.skip(n + 1));
        if status_type == Self::ENABLED_RULE_CODE {
            Ok(RuleStatus::EnabledRule)
        } else if status_type == Self::DISABLED_RULE_CODE {
            Ok(RuleStatus::DisabledRule)
        } else if status_type == Self::REPLACED_RULE_CODE {
            let offset: u16 = r.get_u16()?;
            Ok(RuleStatus::ReplacedRule(rule_id(offset)))
        } else if status_type == Self::CHANGED_RULE_CODE {
            let data = r.get_bytes(data_size)?;
            Ok(RuleStatus::ChangedRule(data))
        } else {
            let _skipped = r.read_exact(data_size)?;
            Ok(RuleStatus::ReplacedRule(0))
        }
    }

    /// Reads a status from the start of bytes.
    pub fn sigma_parse_bytes(bytes: &[u8]) -> (res: Result<RuleStatus, SigmaParsingError>)
        ensures
            match res {
                Ok(status) => parse_status(bytes@, 0, None) matches Ok((s, _)) && s == status@,
                Err(e) => parse_status(bytes@, 0, None) == Err::<
                    (RuleStatusView, nat),
                    SigmaParsingError,
                >(e),
            },
    {
        let mut r = SigmaByteReader::from_bytes(bytes);
        assert(r.rest() =~= bytes@);
        Self::sigma_parse(&mut r)
    }
}

/// The rule id at an offset from the first one, wrapped to a signed 16-bit
/// number.
pub fn rule_id(offset: u16) -> (r: i16)
    ensures
        r == wrap_i16(offset + FIRST_RULE_ID),
{
    let sum: u32 = (offset as u32 + FIRST_RULE_ID as u32) % 0x1_0000;
    if sum < 0x8000 {
        sum as i16
    } else {
        (sum as i32 - 0x1_0000) as i16
    }
}

/// A status reads back from its serialized form, whatever follows, and the
/// reader stops right after it. Only a payload is held against a position
/// limit.
pub proof fn law_serialize_roundtrip(
    status: RuleStatusView,
    rest: Seq<u8>,
    pos: int,
    limit: Option<usize>,
)
    requires
        status.bytes() is Some,
        status matches RuleStatusView::ChangedRule(data) ==> !SigmaByteReader::beyond(
            limit,
            pos + status.bytes()->Some_0.len() - data.len(),
        ),
    ensures
        parse_status(status.bytes()->Some_0 + rest, pos, limit) == Ok::<
            (RuleStatusView, nat),
            SigmaParsingError,
        >((status, status.bytes()->Some_0.len())),
{
    let data = status.data_bytes()->Some_0;
    let bytes = status.bytes()->Some_0;
    if let RuleStatusView::ReplacedRule(id) = status {
        vlq::lemma_vlq_len((id - FIRST_RULE_ID) as nat);
        law_replaced_rule_reads_its_offset(
            data.len() as u16,
            (id - FIRST_RULE_ID) as u16,
            rest,
            pos,
            limit,
        );
        assert(bytes + rest =~= vlq::vlq(data.len()) + seq![3u8] + data + rest);
    } else {
        let n = vlq::vlq(data.len()).len() as int;
        let input = bytes + rest;
        assert(input =~= vlq::vlq(data.len()) + (seq![status.code()] + data + rest));
        vlq::law_u16_roundtrip(data.len() as u16, seq![status.code()] + data + rest);
        assert(input[n] == status.code());
        assert(input.skip(n + 1) =~= data + rest);
        assert((data + rest).take(data.len() as int) =~= data);
    }
}

/// A replacement reads the id at its offset, whatever data size stands before
/// it.
pub proof fn law_replaced_rule_reads_its_offset(
    data_size: u16,
    offset: u16,
    rest: Seq<u8>,
    pos: int,
    limit: Option<usize>,
)
    ensures
        ({
            let entry = vlq::vlq(data_size as nat) + seq![3u8] + vlq::vlq(offset as nat);
            parse_status(entry + rest, pos, limit) == Ok::<
                (RuleStatusView, nat),
                SigmaParsingError,
            >((RuleStatusView::ReplacedRule(wrap_i16(offset + FIRST_RULE_ID)), entry.len()))
        }),
{
    let size_bytes = vlq::vlq(data_size as nat);
    let offset_bytes = vlq::vlq(offset as nat);
    let n = size_bytes.len() as int;
    let input = size_bytes + seq![3u8] + offset_bytes + rest;
    assert(input =~= size_bytes + (seq![3u8] + offset_bytes + rest));
    vlq::law_u16_roundtrip(data_size, seq![3u8] + offset_bytes + rest);
    assert(input[n] == 3);
    assert(input.skip(n + 1) =~= offset_bytes + rest);
    vlq::law_u16_roundtrip(offset, rest);
}

/// The id at an offset can be serialized exactly if the sum did not wrap, and
/// then it is serialized as that offset.
pub proof fn law_wrapped_ids_cannot_be_serialized(offset: u16)
    ensures
        ({
            let status = RuleStatusView::ReplacedRule(wrap_i16(offset + FIRST_RULE_ID));
            &&& status.bytes() is Some <==> offset + FIRST_RULE_ID <= i16::MAX
            &&& status.bytes() is Some ==> status.data_bytes() == Some(vlq::vlq(offset as nat))
        }),
{
}

/// An entry with a status code that is not known is skipped by its data size
/// and stands for a replacement by rule 0, under any position limit.
pub proof fn law_unknown_code_is_skipped(
    code: u8,
    data: Seq<u8>,
    rest: Seq<u8>,
    pos: int,
    limit: Option<usize>,
)
    requires
        code == 0 || code > 4,
        data.len() <= 0xffff,
    ensures
        ({
            let entry = vlq::vlq(data.len()) + seq![code] + data;
            parse_status(entry + rest, pos, limit) == Ok::<
                (RuleStatusView, nat),
                SigmaParsingError,
            >((RuleStatusView::ReplacedRule(0), entry.len()))
        }),
{
    let n = vlq::vlq(data.len()).len() as int;
    let input = vlq::vlq(data.len()) + seq![code] + data + rest;
    assert(input =~= vlq::vlq(data.len()) + (seq![code] + data + rest));
    vlq::law_u16_roundtrip(data.len() as u16, seq![code] + data + rest);
    assert(input[n] == code);
    assert(input.skip(n + 1) =~= data + rest);
}

/// An entry is read from its own bytes alone: the same status comes from any
/// input that starts with them.
pub proof fn law_entry_is_self_delimiting(
    s: Seq<u8>,
    rest: Seq<u8>,
    pos: int,
    limit: Option<usize>,
)
    requires
        parse_status(s, pos, limit) is Ok,
    ensures
        parse_status(s, pos, limit)->Ok_0.1 <= s.len(),
        parse_status(s.take(parse_status(s, pos, limit)->Ok_0.1 as int) + rest, pos, limit)
            == parse_status(s, pos, limit),
{
    let len = parse_status(s, pos, limit)->Ok_0.1 as int;
    let (size, n) = vlq::read_u16(s)->Ok_0;
    let data = s.skip(n as int + 1);
    let k = vlq::MAX_BYTES as nat;
    vlq::lemma_vlq_fits(s, k);
    vlq::lemma_vlq_fits(data, k);
    let t = s.take(len) + rest;
    let t_data = t.skip(n as int + 1);
    assert(t.take(n as int) =~= s.take(n as int));
    vlq::lemma_vlq_prefix(s, t, k);
    assert(t[n as int] == s[n as int]);
    let m = len - n - 1;
    assert(t_data.take(m) =~= data.take(m));
    if s[n as int] == 3 {
        vlq::lemma_vlq_prefix(data, t_data, k);
    }
}

/// The serialized form of each status, byte by byte: the number of the bytes
/// of its value, its code, and those bytes. A replacement by an id below 1000
/// and a change of more than 65535 bytes have none.
pub proof fn law_layout(status: RuleStatusView)
    ensures
        match status {
            RuleStatusView::EnabledRule => status.bytes() == Some(seq![0u8, 1u8]),
            RuleStatusView::DisabledRule => status.bytes() == Some(seq![0u8, 2u8]),
            RuleStatusView::ReplacedRule(id) => {
                &&& id < 1000 ==> status.bytes() is None
                &&& 1000 <= id < 1128 ==> status.bytes() == Some(
                    seq![1u8, 3u8, (id - 1000) as u8],
                )
                &&& id >= 1128 ==> status.bytes() == Some(
                    seq![vlq::vlq((id - 1000) as nat).len() as u8, 3u8] + vlq::vlq(
                        (id - 1000) as nat,
                    ),
                )
            },
            RuleStatusView::ChangedRule(data) => {
                &&& data.len() > 65535 ==> status.bytes() is None
                &&& data.len() <= 65535 ==> status.bytes() == Some(
                    vlq::vlq(data.len()) + seq![4u8] + data,
                )
            },
        },
{
    vlq::law_bytes_of_a_number(0);
    match status {
        RuleStatusView::EnabledRule => {
            assert(status.bytes()->Some_0 =~= seq![0u8, 1u8]);
        },
        RuleStatusView::DisabledRule => {
            assert(status.bytes()->Some_0 =~= seq![0u8, 2u8]);
        },
        RuleStatusView::ReplacedRule(id) => {
            if id >= 1000 {
                let offset = (id - 1000) as nat;
                vlq::lemma_vlq_len(offset);
                vlq::law_bytes_of_a_number(offset);
                vlq::law_bytes_of_a_number(vlq::vlq(offset).len());
                assert(status.bytes()->Some_0 =~= seq![vlq::vlq(offset).len() as u8, 3u8]
                    + vlq::vlq(offset));
                if id < 1128 {
                    assert(status.bytes()->Some_0 =~= seq![1u8, 3u8, (id - 1000) as u8]);
                }
            }
        },
        RuleStatusView::ChangedRule(_) => {},
    }
}

/// Two statuses have the same serialized form only if they are the same.
pub proof fn law_serialized_forms_differ(a: RuleStatusView, b: RuleStatusView)
    requires
        a.bytes() is Some,
        a.bytes() == b.bytes(),
    ensures
        a == b,
{
    law_serialize_roundtrip(a, Seq::empty(), 0, None);
    law_serialize_roundtrip(b, Seq::empty(), 0, None);
}

/// Codes of the statuses.
pub proof fn law_codes(id: i16, data: Seq<u8>)
    ensures
        RuleStatusView::EnabledRule.code() == 1,
        RuleStatusView::DisabledRule.code() == 2,
        RuleStatusView::ReplacedRule(id).code() == 3,
        RuleStatusView::ChangedRule(data).code() == 4,
{
}

/// What a status that has no serialized form is refused with: the id or the
/// number of bytes, in words.
pub proof fn law_refusals_name_the_cause(id: i16, data: Seq<u8>)
    ensures
        RuleStatusView::ReplacedRule(id).unsupported() == "ReplacedRule id "@
            + text::signed_decimal(id as int)
            + " is below FIRST_RULE_ID 1000 (negative wire offset)"@,
        RuleStatusView::ChangedRule(data).unsupported() == "ChangedRule payload of "@
            + text::decimal(data.len()) + " bytes exceeds the UShort dataSize range"@,
{
}

/// A status stands for itself, over its bytes.
pub proof fn law_statuses_stand_for_themselves(s: RuleStatus)
    ensures
        match s {
            RuleStatus::EnabledRule => s@ == RuleStatusView::EnabledRule,
            RuleStatus::DisabledRule => s@ == RuleStatusView::DisabledRule,
            RuleStatus::ReplacedRule(id) => s@ == RuleStatusView::ReplacedRule(id),
            RuleStatus::ChangedRule(data) => s@ == RuleStatusView::ChangedRule(data@),
        },
{
}

/// A wrapped number is a signed 16-bit number that differs from the number by
/// a multiple of `2^16`, so that a number of 16 bits is itself.
pub proof fn law_wrapping(n: int)
    ensures
        (wrap_i16(n) - n) % 0x1_0000 == 0,
        -0x8000 <= n < 0x8000 ==> wrap_i16(n) == n,
        0x8000 <= n < 0x1_8000 ==> wrap_i16(n) == n - 0x1_0000,
{
}

/// What is read after a data size and a code, by the code. A status without a
/// value takes nothing more; a change takes as many bytes as the data size
/// says, all of them, if the window holds their start; a replacement takes an
/// offset.
pub proof fn law_what_a_code_reads(
    size: u16,
    code: u8,
    data: Seq<u8>,
    pos: int,
    limit: Option<usize>,
)
    requires
        0 <= pos,
        pos + vlq::vlq(size as nat).len() + 1 <= usize::MAX,
    ensures
        ({
            let head = vlq::vlq(size as nat).len() + 1;
            let r = parse_status(vlq::vlq(size as nat) + seq![code] + data, pos, limit);
            &&& code == 1 ==> r == Ok::<(RuleStatusView, nat), SigmaParsingError>(
                (RuleStatusView::EnabledRule, head),
            )
            &&& code == 2 ==> r == Ok::<(RuleStatusView, nat), SigmaParsingError>(
                (RuleStatusView::DisabledRule, head),
            )
            &&& code == 3 ==> match vlq::read_u16(data) {
                Ok((offset, n)) => r is Ok && r->Ok_0.1 == head + n && r->Ok_0.0 is ReplacedRule && (
                r->Ok_0.0->ReplacedRule_0 - offset - 1000) % 0x1_0000 == 0,
                Err(e) => r == Err::<(RuleStatusView, nat), SigmaParsingError>(e),
            }
            &&& code == 4 ==> if limit is Some && pos + head > limit->Some_0 {
                r is Err && r->Err_0 is PositionLimitExceeded
                    && r->Err_0->PositionLimitExceeded_position == pos + head
                    && r->Err_0->PositionLimitExceeded_limit == limit->Some_0
            } else if data.len() < size {
                r == Err::<(RuleStatusView, nat), SigmaParsingError>(
                    SigmaParsingError::UnexpectedEof,
                )
            } else {
                r == Ok::<(RuleStatusView, nat), SigmaParsingError>(
                    (
                        RuleStatusView::ChangedRule(data.subrange(0, size as int)),
                        head + size as nat,
                    ),
                )
            }
            &&& code == 0 || code > 4 ==> if data.len() < size {
                r == Err::<(RuleStatusView, nat), SigmaParsingError>(
                    SigmaParsingError::UnexpectedEof,
                )
            } else {
                r == Ok::<(RuleStatusView, nat), SigmaParsingError>(
                    (RuleStatusView::ReplacedRule(0), head + size as nat),
                )
            }
        }),
{
    let size_bytes = vlq::vlq(size as nat);
    let n = size_bytes.len() as int;
    let input = size_bytes + seq![code] + data;
    assert(input =~= size_bytes + (seq![code] + data));
    vlq::law_u16_roundtrip(size, seq![code] + data);
    assert(input[n] == code);
    assert(input.skip(n + 1) =~= data);
    assert(data.take(size as int) =~= data.subrange(0, size as int));
}

/// Input without a data size, or that ends with it, is no status.
pub proof fn law_status_needs_a_size_and_a_code(
    s: Seq<u8>,
    size: u16,
    pos: int,
    limit: Option<usize>,
)
    ensures
        match vlq::read_u16(s) {
            Err(e) => parse_status(s, pos, limit) == Err::<
                (RuleStatusView, nat),
                SigmaParsingError,
            >(e),
            Ok(_) => true,
        },
        parse_status(vlq::vlq(size as nat), pos, limit) == Err::<
            (RuleStatusView, nat),
            SigmaParsingError,
        >(SigmaParsingError::UnexpectedEof),
{
    assert(vlq::vlq(size as nat) + Seq::empty() =~= vlq::vlq(size as nat));
    vlq::law_u16_roundtrip(size, Seq::empty());
}

/// A data size counts as the number that it is, however it is written: the same
/// status is read behind every form of it, and as many bytes more or less are
/// taken as the form is longer or shorter.
pub proof fn law_forms_of_a_size(s: Seq<u8>, t: Seq<u8>, tail: Seq<u8>, pos: int, size: u16)
    requires
        vlq::read_u16(s + tail) == Ok::<(u16, nat), SigmaParsingError>((size, s.len())),
        vlq::read_u16(t + tail) == Ok::<(u16, nat), SigmaParsingError>((size, t.len())),
    ensures
        match parse_status(s + tail, pos, None) {
            Ok((status, n)) => parse_status(t + tail, pos, None) == Ok::<
                (RuleStatusView, nat),
                SigmaParsingError,
            >((status, (n - s.len() + t.len()) as nat)),
            Err(e) => parse_status(t + tail, pos, None) == Err::<
                (RuleStatusView, nat),
                SigmaParsingError,
            >(e),
        },
{
    if tail.len() > 0 {
        assert((s + tail).skip(s.len() as int + 1) =~= tail.skip(1));
        assert((t + tail).skip(t.len() as int + 1) =~= tail.skip(1));
        assert((s + tail)[s.len() as int] == tail[0]);
        assert((t + tail)[t.len() as int] == tail[0]);
    }
}

} // verus!
