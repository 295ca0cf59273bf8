//! Ipvlan and ipvtap link-info sub-attributes: operating mode and flag set
//! of an ipvlan (or ipvtap) device. Both namespaces share their kind codes
//! and encodings; each keeps its own variant set.

use vstd::bytes::*;
use vstd::prelude::*;

use crate::bytes::clone_bytes;
use crate::bytes::parse_u16;
use crate::bytes::push_u16_le;
use crate::error::DecodeError;
use crate::nla::DefaultNla;
use crate::nla::NlaData;

verus! {

pub const IFLA_IPVLAN_MODE: u16 = 1;

pub const IFLA_IPVLAN_FLAGS: u16 = 2;

pub const IPVLAN_MODE_L2: u16 = 0;

pub const IPVLAN_MODE_L3: u16 = 1;

pub const IPVLAN_MODE_L3S: u16 = 2;

pub const IPVLAN_F_PRIVATE: u16 = 0x01;

pub const IPVLAN_F_VEPA: u16 = 0x02;

/// The ipvlan operating mode, with an escape for codes newer than this
/// codec.
#[derive(Debug, PartialEq, Eq, Clone, Copy, Structural)]
pub enum IpVlanMode {
    L2,
    L3,
    L3S,
    Other(u16),
}

pub type IpVtapMode = IpVlanMode;

/// The mode a two-byte code decodes to.
pub open spec fn ipvlan_mode_from_code(d: u16) -> IpVlanMode {
    if d == IPVLAN_MODE_L2 {
        IpVlanMode::L2
    } else if d == IPVLAN_MODE_L3 {
        IpVlanMode::L3
    } else if d == IPVLAN_MODE_L3S {
        IpVlanMode::L3S
    } else {
        IpVlanMode::Other(d)
    }
}

/// The two-byte code a mode encodes to.
pub open spec fn ipvlan_mode_code(v: IpVlanMode) -> u16 {
    match v {
        IpVlanMode::L2 => IPVLAN_MODE_L2,
        IpVlanMode::L3 => IPVLAN_MODE_L3,
        IpVlanMode::L3S => IPVLAN_MODE_L3S,
        IpVlanMode::Other(d) => d,
    }
}

impl From<u16> for IpVlanMode {
    fn from(d: u16) -> (r: Self) {
        if d == IPVLAN_MODE_L2 {
            IpVlanMode::L2
        } else if d == IPVLAN_MODE_L3 {
            IpVlanMode::L3
        } else if d == IPVLAN_MODE_L3S {
            IpVlanMode::L3S
        } else {
            IpVlanMode::Other(d)
        }
    }
}

impl vstd::std_specs::convert::FromSpecImpl<u16> for IpVlanMode {
    open spec fn obeys_from_spec() -> bool {
        true
    }

    open spec fn from_spec(d: u16) -> Self {
        ipvlan_mode_from_code(d)
    }
}

impl From<IpVlanMode> for u16 {
    fn from(v: IpVlanMode) -> (r: Self) {
        match v {
            IpVlanMode::L2 => IPVLAN_MODE_L2,
            IpVlanMode::L3 => IPVLAN_MODE_L3,
            IpVlanMode::L3S => IPVLAN_MODE_L3S,
            IpVlanMode::Other(d) => d,
        }
    }
}

impl vstd::std_specs::convert::FromSpecImpl<IpVlanMode> for u16 {
    open spec fn obeys_from_spec() -> bool {
        true
    }

    open spec fn from_spec(v: IpVlanMode) -> Self {
        ipvlan_mode_code(v)
    }
}

/// Decoding any code and re-encoding reproduces it exactly; every code
/// outside the named set decodes to the explicit `Other` escape.
pub proof fn lemma_ipvlan_mode_forward_compat(d: u16)
    ensures
        ipvlan_mode_code(ipvlan_mode_from_code(d)) == d,
        d > IPVLAN_MODE_L3S ==> ipvlan_mode_from_code(d) == IpVlanMode::Other(d),
{
}

/// The ipvlan flag set: a plain integer-backed bit set. Bits outside the
/// named ones are retained, never dropped, so flags added by newer kernels
/// survive a decode/encode round trip.
#[derive(Debug, Clone, Copy, Eq, PartialEq, Structural)]
pub struct IpVlanFlags {
    pub bits: u16,
}

pub type IpVtapFlags = IpVlanFlags;

impl IpVlanFlags {
    /// A flag set holding exactly the given bit pattern, named or not.
    pub fn from_bits_retain(bits: u16) -> (r: Self)
        ensures
            r.bits == bits,
    {
        IpVlanFlags { bits }
    }

    /// The raw bit pattern.
    pub fn bits(&self) -> (r: u16)
        ensures
            r == self.bits,
    {
        self.bits
    }

    /// The empty flag set.
    pub fn empty() -> (r: Self)
        ensures
            r.bits == 0,
    {
        IpVlanFlags { bits: 0 }
    }

    /// Whether the private bit is set.
    pub fn is_private(&self) -> (r: bool)
        ensures
            r == (self.bits & IPVLAN_F_PRIVATE != 0),
    {
        self.bits & IPVLAN_F_PRIVATE != 0
    }

    /// Whether the virtual-ethernet-port-aggregator bit is set.
    pub fn is_vepa(&self) -> (r: bool)
        ensures
            r == (self.bits & IPVLAN_F_VEPA != 0),
    {
        self.bits & IPVLAN_F_VEPA != 0
    }
}

impl Default for IpVlanFlags {
    /// The default flag set is empty.
    fn default() -> (r: Self)
        ensures
            r.bits == 0,
    {
        IpVlanFlags { bits: 0 }
    }
}

/// One ipvlan attribute: a known, typed variant or the opaque fallback.
#[derive(Debug, PartialEq, Eq, Clone)]
pub enum InfoIpVlan {
    Mode(IpVlanMode),
    Flags(IpVlanFlags),
    Other(DefaultNla),
}

/// Mathematical form of an ipvlan attribute.
pub enum InfoIpVlanView {
    Mode(IpVlanMode),
    Flags(IpVlanFlags),
    Other(NlaData),
}

impl View for InfoIpVlan {
    type V = InfoIpVlanView;

    open spec fn view(&self) -> InfoIpVlanView {
        match self {
            InfoIpVlan::Mode(v) => InfoIpVlanView::Mode(*v),
            InfoIpVlan::Flags(f) => InfoIpVlanView::Flags(*f),
            InfoIpVlan::Other(n) => InfoIpVlanView::Other(n@),
        }
    }
}

impl InfoIpVlanView {
    /// The wire kind code of this attribute.
    pub open spec fn kind_spec(self) -> u16 {
        match self {
            InfoIpVlanView::Mode(_) => IFLA_IPVLAN_MODE,
            InfoIpVlanView::Flags(_) => IFLA_IPVLAN_FLAGS,
            InfoIpVlanView::Other(n) => n.kind,
        }
    }

    /// The exact unpadded value bytes this attribute serializes to.
    pub open spec fn value_bytes(self) -> Seq<u8> {
        match self {
            InfoIpVlanView::Mode(v) => spec_u16_to_le_bytes(ipvlan_mode_code(v)),
            InfoIpVlanView::Flags(f) => spec_u16_to_le_bytes(f.bits),
            InfoIpVlanView::Other(n) => n.value,
        }
    }

    /// The record this attribute frames as.
    pub open spec fn record(self) -> NlaData {
        NlaData { kind: self.kind_spec(), value: self.value_bytes() }
    }

    /// The value fits a record's 16-bit length field.
    pub open spec fn wf(self) -> bool {
        self.value_bytes().len() + 4 <= 0xffff
    }

    /// The attribute is in the form parsing itself produces: the inner
    /// `Other` mode escape never shadows a named mode code.
    pub open spec fn canonical(self) -> bool {
        match self {
            InfoIpVlanView::Mode(v) => ipvlan_mode_from_code(ipvlan_mode_code(v)) == v,
            _ => true,
        }
    }
}

/// What a raw record decodes to under the ipvlan namespace.
pub open spec fn parse_info_ipvlan_spec(r: NlaData) -> Result<InfoIpVlanView, DecodeError> {
    if r.kind == IFLA_IPVLAN_MODE {
        if r.value.len() == 2 {
            Ok(InfoIpVlanView::Mode(ipvlan_mode_from_code(spec_u16_from_le_bytes(r.value))))
        } else {
            Err(DecodeError::UnparseableScalar)
        }
    } else if r.kind == IFLA_IPVLAN_FLAGS {
        if r.value.len() == 2 {
            Ok(InfoIpVlanView::Flags(IpVlanFlags { bits: spec_u16_from_le_bytes(r.value) }))
        } else {
            Err(DecodeError::UnparseableScalar)
        }
    } else {
        Ok(InfoIpVlanView::Other(r))
    }
}

impl InfoIpVlan {
    /// The wire kind code.
    pub fn kind(&self) -> (r: u16)
        ensures
            r == self@.kind_spec(),
    {
        match self {
            InfoIpVlan::Mode(_) => IFLA_IPVLAN_MODE,
            InfoIpVlan::Flags(_) => IFLA_IPVLAN_FLAGS,
            InfoIpVlan::Other(nla) => nla.kind(),
        }
    }

    /// Exact unpadded length of the serialized value.
    pub fn value_len(&self) -> (r: usize)
        ensures
            r == self@.value_bytes().len(),
    {
        proof {
            lemma_auto_spec_u16_to_from_le_bytes();
        }
        match self {
            InfoIpVlan::Mode(_) => 2,
            InfoIpVlan::Flags(_) => 2,
            InfoIpVlan::Other(nla) => nla.value_len(),
        }
    }

    /// Writes exactly `value_len` bytes into a buffer of exactly that size.
    pub fn emit_value(&self, buffer: &mut Vec<u8>)
        requires
            old(buffer)@.len() == self@.value_bytes().len(),
        ensures
            final(buffer)@ == self@.value_bytes(),
    {
        buffer.clear();
        match self {
            InfoIpVlan::Mode(value) => push_u16_le(buffer, u16::from(*value)),
            InfoIpVlan::Flags(f) => push_u16_le(buffer, f.bits()),
            InfoIpVlan::Other(nla) => {
                buffer.extend_from_slice(nla.value.as_slice());
            },
        }
        assert(buffer@ =~= self@.value_bytes());
    }

    /// Decodes one raw record under the ipvlan namespace.
    pub fn parse(nla: &DefaultNla) -> (r: Result<Self, DecodeError>)
        ensures
            match r {
                Ok(v) => parse_info_ipvlan_spec(nla@) == Ok::<InfoIpVlanView, DecodeError>(v@),
                Err(e) => parse_info_ipvlan_spec(nla@) == Err::<InfoIpVlanView, DecodeError>(e),
            },
    {
        let kind = nla.kind;
        let payload = &nla.value;
        if kind == IFLA_IPVLAN_MODE {
            match parse_u16(payload) {
                Ok(v) => Ok(InfoIpVlan::Mode(IpVlanMode::from(v))),
                Err(e) => Err(e),
            }
        } else if kind == IFLA_IPVLAN_FLAGS {
            match parse_u16(payload) {
                Ok(v) => Ok(InfoIpVlan::Flags(IpVlanFlags::from_bits_retain(v))),
                Err(e) => Err(e),
            }
        } else {
            Ok(InfoIpVlan::Other(DefaultNla { kind, value: clone_bytes(payload) }))
        }
    }
}

/// Bit-flag superset preservation: decoding any two-byte flags record,
/// bits outside the named set included, and re-emitting its value
/// reproduces the original bit pattern exactly.
pub proof fn lemma_ipvlan_flags_bits_preserved(r: NlaData)
    requires
        r.kind == IFLA_IPVLAN_FLAGS,
        r.value.len() == 2,
    ensures
        parse_info_ipvlan_spec(r) == Ok::<InfoIpVlanView, DecodeError>(
            InfoIpVlanView::Flags(IpVlanFlags { bits: spec_u16_from_le_bytes(r.value) }),
        ),
        (InfoIpVlanView::Flags(
            IpVlanFlags { bits: spec_u16_from_le_bytes(r.value) },
        )).value_bytes() == r.value,
{
    lemma_auto_spec_u16_to_from_le_bytes();
    assert(spec_u16_to_le_bytes(spec_u16_from_le_bytes(r.value)) =~= r.value);
}

/// Every known ipvlan variant round-trips, the flag set bit for bit: bits
/// outside the named set survive emission and reparse unchanged.
pub proof fn lemma_info_ipvlan_round_trip(v: InfoIpVlanView)
    requires
        !(v is Other),
        v.canonical(),
    ensures
        parse_info_ipvlan_spec(v.record()) == Ok::<InfoIpVlanView, DecodeError>(v),
{
    lemma_auto_spec_u16_to_from_le_bytes();
}

/// One ipvtap attribute: the ipvtap namespace mirrors the ipvlan one.
#[derive(Debug, PartialEq, Eq, Clone)]
pub enum InfoIpVtap {
    Mode(IpVtapMode),
    Flags(IpVtapFlags),
    Other(DefaultNla),
}

/// Mathematical form of an ipvtap attribute.
pub enum InfoIpVtapView {
    Mode(IpVtapMode),
    Flags(IpVtapFlags),
    Other(NlaData),
}

impl View for InfoIpVtap {
    type V = InfoIpVtapView;

    open spec fn view(&self) -> InfoIpVtapView {
        match self {
            InfoIpVtap::Mode(v) => InfoIpVtapView::Mode(*v),
            InfoIpVtap::Flags(f) => InfoIpVtapView::Flags(*f),
            InfoIpVtap::Other(n) => InfoIpVtapView::Other(n@),
        }
    }
}

impl InfoIpVtapView {
    /// The wire kind code of this attribute.
    pub open spec fn kind_spec(self) -> u16 {
        match self {
            InfoIpVtapView::Mode(_) => IFLA_IPVLAN_MODE,
            InfoIpVtapView::Flags(_) => IFLA_IPVLAN_FLAGS,
            InfoIpVtapView::Other(n) => n.kind,
        }
    }

    /// The exact unpadded value bytes this attribute serializes to.
    pub open spec fn value_bytes(self) -> Seq<u8> {
        match self {
            InfoIpVtapView::Mode(v) => spec_u16_to_le_bytes(ipvlan_mode_code(v)),
            InfoIpVtapView::Flags(f) => spec_u16_to_le_bytes(f.bits),
            InfoIpVtapView::Other(n) => n.value,
        }
    }

    /// The record this attribute frames as.
    pub open spec fn record(self) -> NlaData {
        NlaData { kind: self.kind_spec(), value: self.value_bytes() }
    }

    /// The value fits a record's 16-bit length field.
    pub open spec fn wf(self) -> bool {
        self.value_bytes().len() + 4 <= 0xffff
    }

    /// The attribute is in the form parsing itself produces.
    pub open spec fn canonical(self) -> bool {
        match self {
            InfoIpVtapView::Mode(v) => ipvlan_mode_from_code(ipvlan_mode_code(v)) == v,
            _ => true,
        }
    }
}

/// What a raw record decodes to under the ipvtap namespace.
pub open spec fn parse_info_ipvtap_spec(r: NlaData) -> Result<InfoIpVtapView, DecodeError> {
    if r.kind == IFLA_IPVLAN_MODE {
        if r.value.len() == 2 {
            Ok(InfoIpVtapView::Mode(ipvlan_mode_from_code(spec_u16_from_le_bytes(r.value))))
        } else {
            Err(DecodeError::UnparseableScalar)
        }
    } else if r.kind == IFLA_IPVLAN_FLAGS {
        if r.value.len() == 2 {
            Ok(InfoIpVtapView::Flags(IpVlanFlags { bits: spec_u16_from_le_bytes(r.value) }))
        } else {
            Err(DecodeError::UnparseableScalar)
        }
    } else {
        Ok(InfoIpVtapView::Other(r))
    }
}

impl InfoIpVtap {
    /// The wire kind code.
    pub fn kind(&self) -> (r: u16)
        ensures
            r == self@.kind_spec(),
    {
        match self {
            InfoIpVtap::Mode(_) => IFLA_IPVLAN_MODE,
            InfoIpVtap::Flags(_) => IFLA_IPVLAN_FLAGS,
            InfoIpVtap::Other(nla) => nla.kind(),
        }
    }

    /// Exact unpadded length of the serialized value.
    pub fn value_len(&self) -> (r: usize)
        ensures
            r == self@.value_bytes().len(),
    {
        proof {
            lemma_auto_spec_u16_to_from_le_bytes();
        }
        match self {
            InfoIpVtap::Mode(_) => 2,
            InfoIpVtap::Flags(_) => 2,
            InfoIpVtap::Other(nla) => nla.value_len(),
        }
    }

    /// Writes exactly `value_len` bytes into a buffer of exactly that size.
    pub fn emit_value(&self, buffer: &mut Vec<u8>)
        requires
            old(buffer)@.len() == self@.value_bytes().len(),
        ensures
            final(buffer)@ == self@.value_bytes(),
    {
        buffer.clear();
        match self {
            InfoIpVtap::Mode(value) => push_u16_le(buffer, u16::from(*value)),
            InfoIpVtap::Flags(f) => push_u16_le(buffer, f.bits()),
            InfoIpVtap::Other(nla) => {
                buffer.extend_from_slice(nla.value.as_slice());
            },
        }
        assert(buffer@ =~= self@.value_bytes());
    }

    /// Decodes one raw record under the ipvtap namespace.
    pub fn parse(nla: &DefaultNla) -> (r: Result<Self, DecodeError>)
        ensures
            match r {
                Ok(v) => parse_info_ipvtap_spec(nla@) == Ok::<InfoIpVtapView, DecodeError>(v@),
                Err(e) => parse_info_ipvtap_spec(nla@) == Err::<InfoIpVtapView, DecodeError>(e),
            },
    {
        let kind = nla.kind;
        let payload = &nla.value;
        if kind == IFLA_IPVLAN_MODE {
            match parse_u16(payload) {
                Ok(v) => Ok(InfoIpVtap::Mode(IpVlanMode::from(v))),
                Err(e) => Err(e),
            }
        } else if kind == IFLA_IPVLAN_FLAGS {
            match parse_u16(payload) {
                Ok(v) => Ok(InfoIpVtap::Flags(IpVlanFlags::from_bits_retain(v))),
                Err(e) => Err(e),
            }
        } else {
            Ok(InfoIpVtap::Other(DefaultNla { kind, value: clone_bytes(payload) }))
        }
    }
}

/// Every known ipvtap variant round-trips, the flag set bit for bit.
pub proof fn lemma_info_ipvtap_round_trip(v: InfoIpVtapView)
    requires
        !(v is Other),
        v.canonical(),
    ensures
        parse_info_ipvtap_spec(v.record()) == Ok::<InfoIpVtapView, DecodeError>(v),
{
    lemma_auto_spec_u16_to_from_le_bytes();
}


/// The records a sequence of ipvlan attributes frames as.
pub open spec fn ipvlan_records(vs: Seq<InfoIpVlanView>) -> Seq<NlaData> {
    vs.map_values(|v: InfoIpVlanView| v.record())
}

/// The attribute views of a parsed ipvlan list.
pub open spec fn ipvlan_views(vs: Seq<InfoIpVlan>) -> Seq<InfoIpVlanView> {
    vs.map_values(|v: InfoIpVlan| v@)
}

/// What a raw record sequence decodes to under the ipvlan namespace: each
/// record in order, or the first failure.
pub open spec fn parse_ipvlan_records_spec(rs: Seq<NlaData>) -> Result<
    Seq<InfoIpVlanView>,
    DecodeError,
>
    decreases rs.len(),
{
    if rs.len() == 0 {
        Ok(Seq::empty())
    } else {
        match parse_info_ipvlan_spec(rs[0]) {
            Err(e) => Err(e),
            Ok(v) => match parse_ipvlan_records_spec(rs.drop_first()) {
                Err(e) => Err(e),
                Ok(t) => Ok(seq![v] + t),
            },
        }
    }
}

/// What a blob decodes to under the ipvlan namespace: its records, each
/// dispatched, or the first failure of either stage.
pub open spec fn parse_ipvlan_list_spec(b: Seq<u8>) -> Result<Seq<InfoIpVlanView>, DecodeError> {
    match crate::nla::parse_nlas_spec(b) {
        Err(e) => Err(e),
        Ok(rs) => parse_ipvlan_records_spec(rs),
    }
}

/// Decodes a blob holding a ipvlan sub-attribute stream.
pub fn parse_info_ipvlan_list(data: &Vec<u8>) -> (r: Result<Vec<InfoIpVlan>, DecodeError>)
    ensures
        match r {
            Ok(v) => parse_ipvlan_list_spec(data@) == Ok::<Seq<InfoIpVlanView>, DecodeError>(
                ipvlan_views(v@),
            ),
            Err(e) => parse_ipvlan_list_spec(data@) == Err::<Seq<InfoIpVlanView>, DecodeError>(e),
        },
{
    let nlas = match crate::nla::parse_nlas(data) {
        Ok(v) => v,
        Err(e) => {
            return Err(e);
        },
    };
    let n = nlas.len();
    let mut acc: Vec<InfoIpVlan> = Vec::new();
    let ghost all = crate::nla::nla_views(nlas@);
    proof {
        assert(all.skip(0) =~= all);
        match parse_ipvlan_records_spec(all) {
            Ok(t) => {
                assert(ipvlan_views(acc@) + t =~= t);
            },
            Err(_e) => {},
        }
    }
    let mut i: usize = 0;
    while i < n
        invariant
            i <= n,
            n == nlas@.len(),
            all == crate::nla::nla_views(nlas@),
            parse_ipvlan_list_spec(data@) == parse_ipvlan_records_spec(all),
            match parse_ipvlan_records_spec(all.skip(i as int)) {
                Ok(t) => parse_ipvlan_records_spec(all) == Ok::<Seq<InfoIpVlanView>, DecodeError>(
                    ipvlan_views(acc@) + t,
                ),
                Err(e) => parse_ipvlan_records_spec(all) == Err::<Seq<InfoIpVlanView>, DecodeError>(
                    e,
                ),
            },
        decreases n - i,
    {
        proof {
            assert(all.skip(i as int)[0] == all[i as int]);
            assert(all.skip(i as int).drop_first() =~= all.skip(i + 1));
            assert(all[i as int] == nlas@[i as int]@);
        }
        let v = match InfoIpVlan::parse(&nlas[i]) {
            Ok(v) => v,
            Err(e) => {
                return Err(e);
            },
        };
        proof {
            match parse_ipvlan_records_spec(all.skip(i + 1)) {
                Ok(t) => {
                    assert(ipvlan_views(acc@.push(v)) =~= ipvlan_views(acc@) + seq![v@]);
                    assert(ipvlan_views(acc@) + (seq![v@] + t) =~= ipvlan_views(acc@.push(v))
                        + t);
                },
                Err(_e) => {},
            }
        }
        acc.push(v);
        i += 1;
    }
    proof {
        assert(all.skip(n as int) =~= Seq::<NlaData>::empty());
        assert(ipvlan_views(acc@) + Seq::<InfoIpVlanView>::empty() =~= ipvlan_views(acc@));
    }
    Ok(acc)
}

/// Frames an ordered ipvlan attribute list as its exact wire bytes.
pub fn emit_info_ipvlan_list(attrs: &Vec<InfoIpVlan>) -> (out: Vec<u8>)
    requires
        forall|i: int| 0 <= i < attrs@.len() ==> (#[trigger] attrs@[i]@).wf(),
    ensures
        out@ == crate::nla::stream_emit_bytes(ipvlan_records(ipvlan_views(attrs@))),
{
    let n = attrs.len();
    let mut recs: Vec<DefaultNla> = Vec::new();
    let mut i: usize = 0;
    while i < n
        invariant
            i <= n,
            n == attrs@.len(),
            forall|j: int| 0 <= j < attrs@.len() ==> (#[trigger] attrs@[j]@).wf(),
            crate::nla::nla_views(recs@) =~= ipvlan_records(ipvlan_views(attrs@)).take(i as int),
        decreases n - i,
    {
        let vlen = attrs[i].value_len();
        let mut vbuf: Vec<u8> = vec![0u8; vlen];
        attrs[i].emit_value(&mut vbuf);
        let rec = DefaultNla { kind: attrs[i].kind(), value: vbuf };
        proof {
            assert(rec@ == attrs@[i as int]@.record());
            assert(ipvlan_records(ipvlan_views(attrs@)).take(i + 1) =~= ipvlan_records(
                ipvlan_views(attrs@),
            ).take(i as int).push(attrs@[i as int]@.record()));
            assert(crate::nla::nla_views(recs@.push(rec)) =~= crate::nla::nla_views(recs@).push(
                rec@,
            ));
        }
        recs.push(rec);
        i += 1;
    }
    proof {
        assert(ipvlan_records(ipvlan_views(attrs@)).take(n as int) =~= ipvlan_records(
            ipvlan_views(attrs@),
        ));
        assert forall|j: int| 0 <= j < recs@.len() implies crate::nla::nla_wf(
            #[trigger] recs@[j]@,
        ) by {
            assert(crate::nla::nla_views(recs@)[j] == recs@[j]@);
            assert(recs@[j]@ == attrs@[j]@.record());
        }
    }
    crate::nla::emit_nlas(&recs)
}

/// Dispatching the records a known, canonical list frames as yields the
/// list itself.
pub proof fn lemma_ipvlan_records_round_trip(vs: Seq<InfoIpVlanView>)
    requires
        forall|i: int|
            0 <= i < vs.len() ==> !((#[trigger] vs[i]) is Other) && vs[i].wf() && vs[i].canonical(),
    ensures
        parse_ipvlan_records_spec(ipvlan_records(vs)) == Ok::<Seq<InfoIpVlanView>, DecodeError>(vs),
    decreases vs.len(),
{
    if vs.len() == 0 {
        assert(ipvlan_records(vs).len() == 0);
        assert(vs =~= Seq::<InfoIpVlanView>::empty());
    } else {
        lemma_info_ipvlan_round_trip(vs[0]);
        assert(ipvlan_records(vs)[0] == vs[0].record());
        assert(ipvlan_records(vs).drop_first() =~= ipvlan_records(vs.drop_first()));
        assert(forall|i: int|
            0 <= i < vs.drop_first().len() ==> !((#[trigger] vs.drop_first()[i]) is Other)
                && vs.drop_first()[i].wf() && vs.drop_first()[i].canonical());
        lemma_ipvlan_records_round_trip(vs.drop_first());
        assert(seq![vs[0]] + vs.drop_first() =~= vs);
    }
}

/// A whole known, canonical ipvlan attribute list round-trips through the
/// wire format.
pub proof fn lemma_ipvlan_list_round_trip(vs: Seq<InfoIpVlanView>)
    requires
        forall|i: int|
            0 <= i < vs.len() ==> !((#[trigger] vs[i]) is Other) && vs[i].wf() && vs[i].canonical(),
    ensures
        parse_ipvlan_list_spec(crate::nla::stream_emit_bytes(ipvlan_records(vs))) == Ok::<
            Seq<InfoIpVlanView>,
            DecodeError,
        >(vs),
{
    assert forall|i: int| 0 <= i < ipvlan_records(vs).len() implies crate::nla::nla_wf(
        #[trigger] ipvlan_records(vs)[i],
    ) by {
        assert(ipvlan_records(vs)[i] == vs[i].record());
        assert(vs[i].wf());
    }
    crate::nla::lemma_parse_emit_stream(ipvlan_records(vs));
    lemma_ipvlan_records_round_trip(vs);
}


/// The records a sequence of ipvtap attributes frames as.
pub open spec fn ipvtap_records(vs: Seq<InfoIpVtapView>) -> Seq<NlaData> {
    vs.map_values(|v: InfoIpVtapView| v.record())
}

/// The attribute views of a parsed ipvtap list.
pub open spec fn ipvtap_views(vs: Seq<InfoIpVtap>) -> Seq<InfoIpVtapView> {
    vs.map_values(|v: InfoIpVtap| v@)
}

/// What a raw record sequence decodes to under the ipvtap namespace: each
/// record in order, or the first failure.
pub open spec fn parse_ipvtap_records_spec(rs: Seq<NlaData>) -> Result<
    Seq<InfoIpVtapView>,
    DecodeError,
>
    decreases rs.len(),
{
    if rs.len() == 0 {
        Ok(Seq::empty())
    } else {
        match parse_info_ipvtap_spec(rs[0]) {
            Err(e) => Err(e),
            Ok(v) => match parse_ipvtap_records_spec(rs.drop_first()) {
                Err(e) => Err(e),
                Ok(t) => Ok(seq![v] + t),
            },
        }
    }
}

/// What a blob decodes to under the ipvtap namespace: its records, each
/// dispatched, or the first failure of either stage.
pub open spec fn parse_ipvtap_list_spec(b: Seq<u8>) -> Result<Seq<InfoIpVtapView>, DecodeError> {
    match crate::nla::parse_nlas_spec(b) {
        Err(e) => Err(e),
        Ok(rs) => parse_ipvtap_records_spec(rs),
    }
}

/// Decodes a blob holding a ipvtap sub-attribute stream.
pub fn parse_info_ipvtap_list(data: &Vec<u8>) -> (r: Result<Vec<InfoIpVtap>, DecodeError>)
    ensures
        match r {
            Ok(v) => parse_ipvtap_list_spec(data@) == Ok::<Seq<InfoIpVtapView>, DecodeError>(
                ipvtap_views(v@),
            ),
            Err(e) => parse_ipvtap_list_spec(data@) == Err::<Seq<InfoIpVtapView>, DecodeError>(e),
        },
{
    let nlas = match crate::nla::parse_nlas(data) {
        Ok(v) => v,
        Err(e) => {
            return Err(e);
        },
    };
    let n = nlas.len();
    let mut acc: Vec<InfoIpVtap> = Vec::new();
    let ghost all = crate::nla::nla_views(nlas@);
    proof {
        assert(all.skip(0) =~= all);
        match parse_ipvtap_records_spec(all) {
            Ok(t) => {
                assert(ipvtap_views(acc@) + t =~= t);
            },
            Err(_e) => {},
        }
    }
    let mut i: usize = 0;
    while i < n
        invariant
            i <= n,
            n == nlas@.len(),
            all == crate::nla::nla_views(nlas@),
            parse_ipvtap_list_spec(data@) == parse_ipvtap_records_spec(all),
            match parse_ipvtap_records_spec(all.skip(i as int)) {
                Ok(t) => parse_ipvtap_records_spec(all) == Ok::<Seq<InfoIpVtapView>, DecodeError>(
                    ipvtap_views(acc@) + t,
                ),
                Err(e) => parse_ipvtap_records_spec(all) == Err::<Seq<InfoIpVtapView>, DecodeError>(
                    e,
                ),
            },
        decreases n - i,
    {
        proof {
            assert(all.skip(i as int)[0] == all[i as int]);
            assert(all.skip(i as int).drop_first() =~= all.skip(i + 1));
            assert(all[i as int] == nlas@[i as int]@);
        }
        let v = match InfoIpVtap::parse(&nlas[i]) {
            Ok(v) => v,
            Err(e) => {
                return Err(e);
            },
        };
        proof {
            match parse_ipvtap_records_spec(all.skip(i + 1)) {
                Ok(t) => {
                    assert(ipvtap_views(acc@.push(v)) =~= ipvtap_views(acc@) + seq![v@]);
                    assert(ipvtap_views(acc@) + (seq![v@] + t) =~= ipvtap_views(acc@.push(v))
                        + t);
                },
                Err(_e) => {},
            }
        }
        acc.push(v);
        i += 1;
    }
    proof {
        assert(all.skip(n as int) =~= Seq::<NlaData>::empty());
        assert(ipvtap_views(acc@) + Seq::<InfoIpVtapView>::empty() =~= ipvtap_views(acc@));
    }
    Ok(acc)
}

/// Frames an ordered ipvtap attribute list as its exact wire bytes.
pub fn emit_info_ipvtap_list(attrs: &Vec<InfoIpVtap>) -> (out: Vec<u8>)
    requires
        forall|i: int| 0 <= i < attrs@.len() ==> (#[trigger] attrs@[i]@).wf(),
    ensures
        out@ == crate::nla::stream_emit_bytes(ipvtap_records(ipvtap_views(attrs@))),
{
    let n = attrs.len();
    let mut recs: Vec<DefaultNla> = Vec::new();
    let mut i: usize = 0;
    while i < n
        invariant
            i <= n,
            n == attrs@.len(),
            forall|j: int| 0 <= j < attrs@.len() ==> (#[trigger] attrs@[j]@).wf(),
            crate::nla::nla_views(recs@) =~= ipvtap_records(ipvtap_views(attrs@)).take(i as int),
        decreases n - i,
    {
        let vlen = attrs[i].value_len();
        let mut vbuf: Vec<u8> = vec![0u8; vlen];
        attrs[i].emit_value(&mut vbuf);
        let rec = DefaultNla { kind: attrs[i].kind(), value: vbuf };
        proof {
            assert(rec@ == attrs@[i as int]@.record());
            assert(ipvtap_records(ipvtap_views(attrs@)).take(i + 1) =~= ipvtap_records(
                ipvtap_views(attrs@),
            ).take(i as int).push(attrs@[i as int]@.record()));
            assert(crate::nla::nla_views(recs@.push(rec)) =~= crate::nla::nla_views(recs@).push(
                rec@,
            ));
        }
        recs.push(rec);
        i += 1;
    }
    proof {
        assert(ipvtap_records(ipvtap_views(attrs@)).take(n as int) =~= ipvtap_records(
            ipvtap_views(attrs@),
        ));
        assert forall|j: int| 0 <= j < recs@.len() implies crate::nla::nla_wf(
            #[trigger] recs@[j]@,
        ) by {
            assert(crate::nla::nla_views(recs@)[j] == recs@[j]@);
            assert(recs@[j]@ == attrs@[j]@.record());
        }
    }
    crate::nla::emit_nlas(&recs)
}

/// Dispatching the records a known, canonical list frames as yields the
/// list itself.
pub proof fn lemma_ipvtap_records_round_trip(vs: Seq<InfoIpVtapView>)
    requires
        forall|i: int|
            0 <= i < vs.len() ==> !((#[trigger] vs[i]) is Other) && vs[i].wf() && vs[i].canonical(),
    ensures
        parse_ipvtap_records_spec(ipvtap_records(vs)) == Ok::<Seq<InfoIpVtapView>, DecodeError>(vs),
    decreases vs.len(),
{
    if vs.len() == 0 {
        assert(ipvtap_records(vs).len() == 0);
        assert(vs =~= Seq::<InfoIpVtapView>::empty());
    } else {
        lemma_info_ipvtap_round_trip(vs[0]);
        assert(ipvtap_records(vs)[0] == vs[0].record());
        assert(ipvtap_records(vs).drop_first() =~= ipvtap_records(vs.drop_first()));
        assert(forall|i: int|
            0 <= i < vs.drop_first().len() ==> !((#[trigger] vs.drop_first()[i]) is Other)
                && vs.drop_first()[i].wf() && vs.drop_first()[i].canonical());
        lemma_ipvtap_records_round_trip(vs.drop_first());
        assert(seq![vs[0]] + vs.drop_first() =~= vs);
    }
}

/// A whole known, canonical ipvtap attribute list round-trips through the
/// wire format.
pub proof fn lemma_ipvtap_list_round_trip(vs: Seq<InfoIpVtapView>)
    requires
        forall|i: int|
            0 <= i < vs.len() ==> !((#[trigger] vs[i]) is Other) && vs[i].wf() && vs[i].canonical(),
    ensures
        parse_ipvtap_list_spec(crate::nla::stream_emit_bytes(ipvtap_records(vs))) == Ok::<
            Seq<InfoIpVtapView>,
            DecodeError,
        >(vs),
{
    assert forall|i: int| 0 <= i < ipvtap_records(vs).len() implies crate::nla::nla_wf(
        #[trigger] ipvtap_records(vs)[i],
    ) by {
        assert(ipvtap_records(vs)[i] == vs[i].record());
        assert(vs[i].wf());
    }
    crate::nla::lemma_parse_emit_stream(ipvtap_records(vs));
    lemma_ipvtap_records_round_trip(vs);
}

} // verus!
