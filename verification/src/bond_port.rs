//! Bond-port link-info sub-attributes: the state of one port enslaved to a
//! bonding device. The numeric kind space is unambiguous inside a bond-port
//! container, so parsing needs no further context.

use vstd::bytes::*;
use vstd::prelude::*;

use crate::bytes::clone_bytes;
use crate::bytes::parse_i32;
use crate::bytes::parse_u16;
use crate::bytes::parse_u32;
use crate::bytes::parse_u8;
use crate::bytes::push_i32_le;
use crate::bytes::push_u16_le;
use crate::bytes::push_u32_le;
use crate::bytes::spec_i32_from_le_bytes;
use crate::bytes::spec_i32_to_le_bytes;
use crate::error::DecodeError;
use crate::nla::DefaultNla;
use crate::nla::NlaData;

verus! {

pub const IFLA_BOND_PORT_STATE_ACTIVE: u8 = 0;

pub const IFLA_BOND_PORT_STATE_BACKUP: u8 = 1;

pub const IFLA_BOND_PORT_MII_STATUS_UP: u8 = 0;

pub const IFLA_BOND_PORT_MII_STATUS_GOING_DOWN: u8 = 1;

pub const IFLA_BOND_PORT_MII_STATUS_DOWN: u8 = 2;

pub const IFLA_BOND_PORT_MII_STATUS_GOING_BACK: u8 = 3;

pub const IFLA_BOND_PORT_STATE: u16 = 1;

pub const IFLA_BOND_PORT_MII_STATUS: u16 = 2;

pub const IFLA_BOND_PORT_LINK_FAILURE_COUNT: u16 = 3;

pub const IFLA_BOND_PORT_PERM_HWADDR: u16 = 4;

pub const IFLA_BOND_PORT_QUEUE_ID: u16 = 5;

pub const IFLA_BOND_PORT_PRIO: u16 = 9;

/// Whether a bonded port is the active one or a backup, with an escape for
/// codes newer than this codec.
#[derive(Debug, Clone, Copy, PartialEq, Eq, Structural)]
pub enum BondPortState {
    Active,
    Backup,
    Other(u8),
}

/// The state a one-byte port-state code decodes to.
pub open spec fn bond_port_state_from_code(value: u8) -> BondPortState {
    if value == IFLA_BOND_PORT_STATE_ACTIVE {
        BondPortState::Active
    } else if value == IFLA_BOND_PORT_STATE_BACKUP {
        BondPortState::Backup
    } else {
        BondPortState::Other(value)
    }
}

/// The one-byte code a port state encodes to.
pub open spec fn bond_port_state_code(v: BondPortState) -> u8 {
    match v {
        BondPortState::Active => IFLA_BOND_PORT_STATE_ACTIVE,
        BondPortState::Backup => IFLA_BOND_PORT_STATE_BACKUP,
        BondPortState::Other(other) => other,
    }
}

impl From<u8> for BondPortState {
    fn from(value: u8) -> (r: Self) {
        if value == IFLA_BOND_PORT_STATE_ACTIVE {
            BondPortState::Active
        } else if value == IFLA_BOND_PORT_STATE_BACKUP {
            BondPortState::Backup
        } else {
            BondPortState::Other(value)
        }
    }
}

impl vstd::std_specs::convert::FromSpecImpl<u8> for BondPortState {
    open spec fn obeys_from_spec() -> bool {
        true
    }

    open spec fn from_spec(value: u8) -> Self {
        bond_port_state_from_code(value)
    }
}

impl From<BondPortState> for u8 {
    fn from(value: BondPortState) -> (r: Self) {
        match value {
            BondPortState::Active => IFLA_BOND_PORT_STATE_ACTIVE,
            BondPortState::Backup => IFLA_BOND_PORT_STATE_BACKUP,
            BondPortState::Other(other) => other,
        }
    }
}

impl vstd::std_specs::convert::FromSpecImpl<BondPortState> for u8 {
    open spec fn obeys_from_spec() -> bool {
        true
    }

    open spec fn from_spec(value: BondPortState) -> Self {
        bond_port_state_code(value)
    }
}

/// Decoding any code and re-encoding reproduces it exactly; every code
/// outside the named set decodes to the explicit `Other` escape.
pub proof fn lemma_bond_port_state_forward_compat(value: u8)
    ensures
        bond_port_state_code(bond_port_state_from_code(value)) == value,
        value != IFLA_BOND_PORT_STATE_ACTIVE && value != IFLA_BOND_PORT_STATE_BACKUP
            ==> bond_port_state_from_code(value) == BondPortState::Other(value),
{
}

/// Link-watch status of a bonded port.
#[derive(Debug, Clone, Copy, PartialEq, Eq, Structural)]
pub enum MiiStatus {
    Up,
    GoingDown,
    Down,
    GoingBack,
    Other(u8),
}

/// The status a one-byte code decodes to.
pub open spec fn mii_status_from_code(value: u8) -> MiiStatus {
    if value == IFLA_BOND_PORT_MII_STATUS_UP {
        MiiStatus::Up
    } else if value == IFLA_BOND_PORT_MII_STATUS_GOING_DOWN {
        MiiStatus::GoingDown
    } else if value == IFLA_BOND_PORT_MII_STATUS_DOWN {
        MiiStatus::Down
    } else if value == IFLA_BOND_PORT_MII_STATUS_GOING_BACK {
        MiiStatus::GoingBack
    } else {
        MiiStatus::Other(value)
    }
}

/// The one-byte code a status encodes to.
pub open spec fn mii_status_code(v: MiiStatus) -> u8 {
    match v {
        MiiStatus::Up => IFLA_BOND_PORT_MII_STATUS_UP,
        MiiStatus::GoingDown => IFLA_BOND_PORT_MII_STATUS_GOING_DOWN,
        MiiStatus::Down => IFLA_BOND_PORT_MII_STATUS_DOWN,
        MiiStatus::GoingBack => IFLA_BOND_PORT_MII_STATUS_GOING_BACK,
        MiiStatus::Other(other) => other,
    }
}

impl From<u8> for MiiStatus {
    fn from(value: u8) -> (r: Self) {
        if value == IFLA_BOND_PORT_MII_STATUS_UP {
            MiiStatus::Up
        } else if value == IFLA_BOND_PORT_MII_STATUS_GOING_DOWN {
            MiiStatus::GoingDown
        } else if value == IFLA_BOND_PORT_MII_STATUS_DOWN {
            MiiStatus::Down
        } else if value == IFLA_BOND_PORT_MII_STATUS_GOING_BACK {
            MiiStatus::GoingBack
        } else {
            MiiStatus::Other(value)
        }
    }
}

impl vstd::std_specs::convert::FromSpecImpl<u8> for MiiStatus {
    open spec fn obeys_from_spec() -> bool {
        true
    }

    open spec fn from_spec(value: u8) -> Self {
        mii_status_from_code(value)
    }
}

impl From<MiiStatus> for u8 {
    fn from(value: MiiStatus) -> (r: Self) {
        match value {
            MiiStatus::Up => IFLA_BOND_PORT_MII_STATUS_UP,
            MiiStatus::GoingDown => IFLA_BOND_PORT_MII_STATUS_GOING_DOWN,
            MiiStatus::Down => IFLA_BOND_PORT_MII_STATUS_DOWN,
            MiiStatus::GoingBack => IFLA_BOND_PORT_MII_STATUS_GOING_BACK,
            MiiStatus::Other(other) => other,
        }
    }
}

impl vstd::std_specs::convert::FromSpecImpl<MiiStatus> for u8 {
    open spec fn obeys_from_spec() -> bool {
        true
    }

    open spec fn from_spec(value: MiiStatus) -> Self {
        mii_status_code(value)
    }
}

/// Decoding any code and re-encoding reproduces it exactly; every code
/// outside the named set decodes to the explicit `Other` escape.
pub proof fn lemma_mii_status_forward_compat(value: u8)
    ensures
        mii_status_code(mii_status_from_code(value)) == value,
        value > IFLA_BOND_PORT_MII_STATUS_GOING_BACK ==> mii_status_from_code(value)
            == MiiStatus::Other(value),
{
}

/// One bond-port attribute: a known, typed variant or the opaque fallback.
#[derive(Debug, PartialEq, Eq, Clone)]
pub enum InfoBondPort {
    LinkFailureCount(u32),
    MiiStatus(MiiStatus),
    PermHwaddr(Vec<u8>),
    Prio(i32),
    QueueId(u16),
    BondPortState(BondPortState),
    Other(DefaultNla),
}

/// Mathematical form of a bond-port attribute.
pub enum InfoBondPortView {
    LinkFailureCount(u32),
    MiiStatus(MiiStatus),
    PermHwaddr(Seq<u8>),
    Prio(i32),
    QueueId(u16),
    BondPortState(BondPortState),
    Other(NlaData),
}

impl View for InfoBondPort {
    type V = InfoBondPortView;

    open spec fn view(&self) -> InfoBondPortView {
        match self {
            InfoBondPort::LinkFailureCount(v) => InfoBondPortView::LinkFailureCount(*v),
            InfoBondPort::MiiStatus(s) => InfoBondPortView::MiiStatus(*s),
            InfoBondPort::PermHwaddr(b) => InfoBondPortView::PermHwaddr(b@),
            InfoBondPort::Prio(v) => InfoBondPortView::Prio(*v),
            InfoBondPort::QueueId(v) => InfoBondPortView::QueueId(*v),
            InfoBondPort::BondPortState(s) => InfoBondPortView::BondPortState(*s),
            InfoBondPort::Other(n) => InfoBondPortView::Other(n@),
        }
    }
}

impl InfoBondPortView {
    /// The wire kind code of this attribute.
    pub open spec fn kind_spec(self) -> u16 {
        match self {
            InfoBondPortView::LinkFailureCount(_) => IFLA_BOND_PORT_LINK_FAILURE_COUNT,
            InfoBondPortView::MiiStatus(_) => IFLA_BOND_PORT_MII_STATUS,
            InfoBondPortView::PermHwaddr(_) => IFLA_BOND_PORT_PERM_HWADDR,
            InfoBondPortView::Prio(_) => IFLA_BOND_PORT_PRIO,
            InfoBondPortView::QueueId(_) => IFLA_BOND_PORT_QUEUE_ID,
            InfoBondPortView::BondPortState(_) => IFLA_BOND_PORT_STATE,
            InfoBondPortView::Other(n) => n.kind,
        }
    }

    /// The exact unpadded value bytes this attribute serializes to.
    pub open spec fn value_bytes(self) -> Seq<u8> {
        match self {
            InfoBondPortView::LinkFailureCount(v) => spec_u32_to_le_bytes(v),
            InfoBondPortView::MiiStatus(s) => seq![mii_status_code(s)],
            InfoBondPortView::PermHwaddr(b) => b,
            InfoBondPortView::Prio(v) => spec_i32_to_le_bytes(v),
            InfoBondPortView::QueueId(v) => spec_u16_to_le_bytes(v),
            InfoBondPortView::BondPortState(s) => seq![bond_port_state_code(s)],
            InfoBondPortView::Other(n) => n.value,
        }
    }

    /// The record this attribute frames as.
    pub open spec fn record(self) -> NlaData {
        NlaData { kind: self.kind_spec(), value: self.value_bytes() }
    }

    /// The value fits a record's 16-bit length field.
    pub open spec fn wf(self) -> bool {
        self.value_bytes().len() + 4 <= 0xffff
    }

    /// The attribute is in the form parsing itself produces: an inner
    /// `Other` escape never shadows a code the named variants own.
    pub open spec fn canonical(self) -> bool {
        match self {
            InfoBondPortView::MiiStatus(s) => mii_status_from_code(mii_status_code(s)) == s,
            InfoBondPortView::BondPortState(s) => bond_port_state_from_code(
                bond_port_state_code(s),
            ) == s,
            _ => true,
        }
    }
}

/// What a raw record decodes to under the bond-port namespace: a typed
/// variant for each known kind code (failing where the payload width is
/// wrong), the opaque fallback for every other code.
pub open spec fn parse_info_bond_port_spec(r: NlaData) -> Result<InfoBondPortView, DecodeError> {
    if r.kind == IFLA_BOND_PORT_LINK_FAILURE_COUNT {
        if r.value.len() == 4 {
            Ok(InfoBondPortView::LinkFailureCount(spec_u32_from_le_bytes(r.value)))
        } else {
            Err(DecodeError::UnparseableScalar)
        }
    } else if r.kind == IFLA_BOND_PORT_MII_STATUS {
        if r.value.len() == 1 {
            Ok(InfoBondPortView::MiiStatus(mii_status_from_code(r.value[0])))
        } else {
            Err(DecodeError::UnparseableScalar)
        }
    } else if r.kind == IFLA_BOND_PORT_PERM_HWADDR {
        Ok(InfoBondPortView::PermHwaddr(r.value))
    } else if r.kind == IFLA_BOND_PORT_PRIO {
        if r.value.len() == 4 {
            Ok(InfoBondPortView::Prio(spec_i32_from_le_bytes(r.value)))
        } else {
            Err(DecodeError::UnparseableScalar)
        }
    } else if r.kind == IFLA_BOND_PORT_QUEUE_ID {
        if r.value.len() == 2 {
            Ok(InfoBondPortView::QueueId(spec_u16_from_le_bytes(r.value)))
        } else {
            Err(DecodeError::UnparseableScalar)
        }
    } else if r.kind == IFLA_BOND_PORT_STATE {
        if r.value.len() == 1 {
            Ok(InfoBondPortView::BondPortState(bond_port_state_from_code(r.value[0])))
        } else {
            Err(DecodeError::UnparseableScalar)
        }
    } else {
        Ok(InfoBondPortView::Other(r))
    }
}

impl InfoBondPort {
    /// The wire kind code.
    pub fn kind(&self) -> (r: u16)
        ensures
            r == self@.kind_spec(),
    {
        match self {
            InfoBondPort::LinkFailureCount(_) => IFLA_BOND_PORT_LINK_FAILURE_COUNT,
            InfoBondPort::MiiStatus(_) => IFLA_BOND_PORT_MII_STATUS,
            InfoBondPort::PermHwaddr(_) => IFLA_BOND_PORT_PERM_HWADDR,
            InfoBondPort::Prio(_) => IFLA_BOND_PORT_PRIO,
            InfoBondPort::QueueId(_) => IFLA_BOND_PORT_QUEUE_ID,
            InfoBondPort::BondPortState(_) => IFLA_BOND_PORT_STATE,
            InfoBondPort::Other(nla) => nla.kind(),
        }
    }

    /// Exact unpadded length of the serialized value.
    pub fn value_len(&self) -> (r: usize)
        ensures
            r == self@.value_bytes().len(),
    {
        proof {
            lemma_auto_spec_u16_to_from_le_bytes();
            lemma_auto_spec_u32_to_from_le_bytes();
        }
        match self {
            InfoBondPort::QueueId(_) => 2,
            InfoBondPort::LinkFailureCount(_) => 4,
            InfoBondPort::Prio(_) => 4,
            InfoBondPort::PermHwaddr(bytes) => bytes.len(),
            InfoBondPort::MiiStatus(_) => 1,
            InfoBondPort::BondPortState(_) => 1,
            InfoBondPort::Other(nla) => nla.value_len(),
        }
    }

    /// Writes exactly `value_len` bytes into a buffer of exactly that size;
    /// serialization of a constructed value never fails.
    pub fn emit_value(&self, buffer: &mut Vec<u8>)
        requires
            old(buffer)@.len() == self@.value_bytes().len(),
        ensures
            final(buffer)@ == self@.value_bytes(),
    {
        buffer.clear();
        match self {
            InfoBondPort::QueueId(value) => push_u16_le(buffer, *value),
            InfoBondPort::PermHwaddr(bytes) => {
                buffer.extend_from_slice(bytes.as_slice());
                assert(buffer@ =~= self@.value_bytes());
            },
            InfoBondPort::Prio(value) => push_i32_le(buffer, *value),
            InfoBondPort::LinkFailureCount(value) => push_u32_le(buffer, *value),
            InfoBondPort::MiiStatus(state) => {
                buffer.push(u8::from(*state));
                assert(buffer@ =~= self@.value_bytes());
            },
            InfoBondPort::BondPortState(state) => {
                buffer.push(u8::from(*state));
                assert(buffer@ =~= self@.value_bytes());
            },
            InfoBondPort::Other(nla) => {
                buffer.extend_from_slice(nla.value.as_slice());
                assert(buffer@ =~= self@.value_bytes());
            },
        }
        assert(buffer@ =~= self@.value_bytes());
    }

    /// Decodes one raw record under the bond-port namespace.
    pub fn parse(nla: &DefaultNla) -> (r: Result<Self, DecodeError>)
        ensures
            match r {
                Ok(v) => parse_info_bond_port_spec(nla@) == Ok::<InfoBondPortView, DecodeError>(
                    v@,
                ),
                Err(e) => parse_info_bond_port_spec(nla@) == Err::<InfoBondPortView, DecodeError>(
                    e,
                ),
            },
    {
        let kind = nla.kind;
        let payload = &nla.value;
        if kind == IFLA_BOND_PORT_LINK_FAILURE_COUNT {
            match parse_u32(payload) {
                Ok(v) => Ok(InfoBondPort::LinkFailureCount(v)),
                Err(e) => Err(e),
            }
        } else if kind == IFLA_BOND_PORT_MII_STATUS {
            match parse_u8(payload) {
                Ok(v) => Ok(InfoBondPort::MiiStatus(MiiStatus::from(v))),
                Err(e) => Err(e),
            }
        } else if kind == IFLA_BOND_PORT_PERM_HWADDR {
            Ok(InfoBondPort::PermHwaddr(clone_bytes(payload)))
        } else if kind == IFLA_BOND_PORT_PRIO {
            match parse_i32(payload) {
                Ok(v) => Ok(InfoBondPort::Prio(v)),
                Err(e) => Err(e),
            }
        } else if kind == IFLA_BOND_PORT_QUEUE_ID {
            match parse_u16(payload) {
                Ok(v) => Ok(InfoBondPort::QueueId(v)),
                Err(e) => Err(e),
            }
        } else if kind == IFLA_BOND_PORT_STATE {
            match parse_u8(payload) {
                Ok(v) => Ok(InfoBondPort::BondPortState(BondPortState::from(v))),
                Err(e) => Err(e),
            }
        } else {
            Ok(InfoBondPort::Other(DefaultNla { kind, value: clone_bytes(payload) }))
        }
    }
}

/// Every known bond-port variant round-trips: emitting its kind and value
/// and decoding them again yields the very same variant.
pub proof fn lemma_info_bond_port_round_trip(v: InfoBondPortView)
    requires
        !(v is Other),
        v.canonical(),
    ensures
        parse_info_bond_port_spec(v.record()) == Ok::<InfoBondPortView, DecodeError>(v),
{
    lemma_auto_spec_u16_to_from_le_bytes();
    lemma_auto_spec_u32_to_from_le_bytes();
    match v {
        InfoBondPortView::LinkFailureCount(_) => {},
        InfoBondPortView::MiiStatus(_s) => {},
        InfoBondPortView::PermHwaddr(_) => {},
        InfoBondPortView::Prio(x) => {
            crate::bytes::lemma_i32_le_bytes_round_trip(x);
        },
        InfoBondPortView::QueueId(_) => {},
        InfoBondPortView::BondPortState(_s) => {},
        InfoBondPortView::Other(_) => {},
    }
}


/// The records a sequence of bond-port attributes frames as.
pub open spec fn bond_port_records(vs: Seq<InfoBondPortView>) -> Seq<NlaData> {
    vs.map_values(|v: InfoBondPortView| v.record())
}

/// The attribute views of a parsed bond-port list.
pub open spec fn bond_port_views(vs: Seq<InfoBondPort>) -> Seq<InfoBondPortView> {
    vs.map_values(|v: InfoBondPort| v@)
}

/// What a raw record sequence decodes to under the bond-port namespace: each
/// record in order, or the first failure.
pub open spec fn parse_bond_port_records_spec(rs: Seq<NlaData>) -> Result<
    Seq<InfoBondPortView>,
    DecodeError,
>
    decreases rs.len(),
{
    if rs.len() == 0 {
        Ok(Seq::empty())
    } else {
        match parse_info_bond_port_spec(rs[0]) {
            Err(e) => Err(e),
            Ok(v) => match parse_bond_port_records_spec(rs.drop_first()) {
                Err(e) => Err(e),
                Ok(t) => Ok(seq![v] + t),
            },
        }
    }
}

/// What a blob decodes to under the bond-port namespace: its records, each
/// dispatched, or the first failure of either stage.
pub open spec fn parse_bond_port_list_spec(b: Seq<u8>) -> Result<Seq<InfoBondPortView>, DecodeError> {
    match crate::nla::parse_nlas_spec(b) {
        Err(e) => Err(e),
        Ok(rs) => parse_bond_port_records_spec(rs),
    }
}

/// Decodes a blob holding a bond-port sub-attribute stream.
pub fn parse_info_bond_port_list(data: &Vec<u8>) -> (r: Result<Vec<InfoBondPort>, DecodeError>)
    ensures
        match r {
            Ok(v) => parse_bond_port_list_spec(data@) == Ok::<Seq<InfoBondPortView>, DecodeError>(
                bond_port_views(v@),
            ),
            Err(e) => parse_bond_port_list_spec(data@) == Err::<Seq<InfoBondPortView>, DecodeError>(e),
        },
{
    let nlas = match crate::nla::parse_nlas(data) {
        Ok(v) => v,
        Err(e) => {
            return Err(e);
        },
    };
    let n = nlas.len();
    let mut acc: Vec<InfoBondPort> = Vec::new();
    let ghost all = crate::nla::nla_views(nlas@);
    proof {
        assert(all.skip(0) =~= all);
        match parse_bond_port_records_spec(all) {
            Ok(t) => {
                assert(bond_port_views(acc@) + t =~= t);
            },
            Err(_e) => {},
        }
    }
    let mut i: usize = 0;
    while i < n
        invariant
            i <= n,
            n == nlas@.len(),
            all == crate::nla::nla_views(nlas@),
            parse_bond_port_list_spec(data@) == parse_bond_port_records_spec(all),
            match parse_bond_port_records_spec(all.skip(i as int)) {
                Ok(t) => parse_bond_port_records_spec(all) == Ok::<Seq<InfoBondPortView>, DecodeError>(
                    bond_port_views(acc@) + t,
                ),
                Err(e) => parse_bond_port_records_spec(all) == Err::<Seq<InfoBondPortView>, DecodeError>(
                    e,
                ),
            },
        decreases n - i,
    {
        proof {
            assert(all.skip(i as int)[0] == all[i as int]);
            assert(all.skip(i as int).drop_first() =~= all.skip(i + 1));
            assert(all[i as int] == nlas@[i as int]@);
        }
        let v = match InfoBondPort::parse(&nlas[i]) {
            Ok(v) => v,
            Err(e) => {
                return Err(e);
            },
        };
        proof {
            match parse_bond_port_records_spec(all.skip(i + 1)) {
                Ok(t) => {
                    assert(bond_port_views(acc@.push(v)) =~= bond_port_views(acc@) + seq![v@]);
                    assert(bond_port_views(acc@) + (seq![v@] + t) =~= bond_port_views(acc@.push(v))
                        + t);
                },
                Err(_e) => {},
            }
        }
        acc.push(v);
        i += 1;
    }
    proof {
        assert(all.skip(n as int) =~= Seq::<NlaData>::empty());
        assert(bond_port_views(acc@) + Seq::<InfoBondPortView>::empty() =~= bond_port_views(acc@));
    }
    Ok(acc)
}

/// Frames an ordered bond-port attribute list as its exact wire bytes.
pub fn emit_info_bond_port_list(attrs: &Vec<InfoBondPort>) -> (out: Vec<u8>)
    requires
        forall|i: int| 0 <= i < attrs@.len() ==> (#[trigger] attrs@[i]@).wf(),
    ensures
        out@ == crate::nla::stream_emit_bytes(bond_port_records(bond_port_views(attrs@))),
{
    let n = attrs.len();
    let mut recs: Vec<DefaultNla> = Vec::new();
    let mut i: usize = 0;
    while i < n
        invariant
            i <= n,
            n == attrs@.len(),
            forall|j: int| 0 <= j < attrs@.len() ==> (#[trigger] attrs@[j]@).wf(),
            crate::nla::nla_views(recs@) =~= bond_port_records(bond_port_views(attrs@)).take(i as int),
        decreases n - i,
    {
        let vlen = attrs[i].value_len();
        let mut vbuf: Vec<u8> = vec![0u8; vlen];
        attrs[i].emit_value(&mut vbuf);
        let rec = DefaultNla { kind: attrs[i].kind(), value: vbuf };
        proof {
            assert(rec@ == attrs@[i as int]@.record());
            assert(bond_port_records(bond_port_views(attrs@)).take(i + 1) =~= bond_port_records(
                bond_port_views(attrs@),
            ).take(i as int).push(attrs@[i as int]@.record()));
            assert(crate::nla::nla_views(recs@.push(rec)) =~= crate::nla::nla_views(recs@).push(
                rec@,
            ));
        }
        recs.push(rec);
        i += 1;
    }
    proof {
        assert(bond_port_records(bond_port_views(attrs@)).take(n as int) =~= bond_port_records(
            bond_port_views(attrs@),
        ));
        assert forall|j: int| 0 <= j < recs@.len() implies crate::nla::nla_wf(
            #[trigger] recs@[j]@,
        ) by {
            assert(crate::nla::nla_views(recs@)[j] == recs@[j]@);
            assert(recs@[j]@ == attrs@[j]@.record());
        }
    }
    crate::nla::emit_nlas(&recs)
}

/// Dispatching the records a known, canonical list frames as yields the
/// list itself.
pub proof fn lemma_bond_port_records_round_trip(vs: Seq<InfoBondPortView>)
    requires
        forall|i: int|
            0 <= i < vs.len() ==> !((#[trigger] vs[i]) is Other) && vs[i].wf() && vs[i].canonical(),
    ensures
        parse_bond_port_records_spec(bond_port_records(vs)) == Ok::<Seq<InfoBondPortView>, DecodeError>(vs),
    decreases vs.len(),
{
    if vs.len() == 0 {
        assert(bond_port_records(vs).len() == 0);
        assert(vs =~= Seq::<InfoBondPortView>::empty());
    } else {
        lemma_info_bond_port_round_trip(vs[0]);
        assert(bond_port_records(vs)[0] == vs[0].record());
        assert(bond_port_records(vs).drop_first() =~= bond_port_records(vs.drop_first()));
        assert(forall|i: int|
            0 <= i < vs.drop_first().len() ==> !((#[trigger] vs.drop_first()[i]) is Other)
                && vs.drop_first()[i].wf() && vs.drop_first()[i].canonical());
        lemma_bond_port_records_round_trip(vs.drop_first());
        assert(seq![vs[0]] + vs.drop_first() =~= vs);
    }
}

/// A whole known, canonical bond-port attribute list round-trips through the
/// wire format.
pub proof fn lemma_bond_port_list_round_trip(vs: Seq<InfoBondPortView>)
    requires
        forall|i: int|
            0 <= i < vs.len() ==> !((#[trigger] vs[i]) is Other) && vs[i].wf() && vs[i].canonical(),
    ensures
        parse_bond_port_list_spec(crate::nla::stream_emit_bytes(bond_port_records(vs))) == Ok::<
            Seq<InfoBondPortView>,
            DecodeError,
        >(vs),
{
    assert forall|i: int| 0 <= i < bond_port_records(vs).len() implies crate::nla::nla_wf(
        #[trigger] bond_port_records(vs)[i],
    ) by {
        assert(bond_port_records(vs)[i] == vs[i].record());
        assert(vs[i].wf());
    }
    crate::nla::lemma_parse_emit_stream(bond_port_records(vs));
    lemma_bond_port_records_round_trip(vs);
}

} // verus!
