//! Traffic-control options. An option container belongs to a queueing
//! discipline or filter that declares a textual kind; only that kind
//! resolves the numeric codes of the container's children. A known kind
//! splits the container into its typed option records; an unknown kind
//! yields exactly one opaque record spanning the whole value, since the
//! format gives no generic way to sub-split an unknown driver's options.

use vstd::prelude::*;
use vstd::slice::slice_index_get;
use vstd::string::StringSliceAdditionalSpecFns;

use crate::bytes::clone_bytes;
use crate::error::DecodeError;
use crate::nla::parse_nlas;
use crate::nla::parse_nlas_spec;
use crate::nla::DefaultNla;
use crate::nla::NlaData;

verus! {

/// Whether two strings hold the same characters.
pub fn str_eq(a: &str, b: &str) -> (r: bool)
    ensures
        r == (a@ == b@),
{
    broadcast use vstd::utf8::encode_utf8_decode_utf8;

    let ab = a.as_bytes();
    let bb = b.as_bytes();
    let alen = ab.len();
    let blen = bb.len();
    if alen != blen {
        assert(a@ != b@);
        return false;
    }
    let mut i: usize = 0;
    while i < alen
        invariant
            i <= alen,
            alen == ab@.len(),
            alen == bb@.len(),
            ab@ == a.spec_bytes(),
            bb@ == b.spec_bytes(),
            forall|j: int| 0 <= j < i ==> ab@[j] == bb@[j],
        decreases alen - i,
    {
        let ca = *slice_index_get(ab, i);
        let cb = *slice_index_get(bb, i);
        if ca != cb {
            assert(a@ != b@);
            return false;
        }
        i += 1;
    }
    proof {
        assert(ab@ =~= bb@);
        assert(vstd::utf8::decode_utf8(vstd::utf8::encode_utf8(a@)) == a@);
        assert(vstd::utf8::decode_utf8(vstd::utf8::encode_utf8(b@)) == b@);
    }
    true
}

/// One traffic-control option: the record of a known driver's namespace,
/// tagged with that driver, or the opaque fallback. The per-driver option
/// layouts belong to their driver modules; the container layer carries each
/// record verbatim under its tag.
#[derive(Debug, PartialEq, Eq, Clone)]
pub enum TcOption {
    FqCodel(DefaultNla),
    Ingress(DefaultNla),
    Flower(DefaultNla),
    U32(DefaultNla),
    MatchAll(DefaultNla),
    Other(DefaultNla),
}

/// Mathematical form of a traffic-control option.
pub enum TcOptionView {
    FqCodel(NlaData),
    Ingress(NlaData),
    Flower(NlaData),
    U32(NlaData),
    MatchAll(NlaData),
    Other(NlaData),
}

impl View for TcOption {
    type V = TcOptionView;

    open spec fn view(&self) -> TcOptionView {
        match self {
            TcOption::FqCodel(n) => TcOptionView::FqCodel(n@),
            TcOption::Ingress(n) => TcOptionView::Ingress(n@),
            TcOption::Flower(n) => TcOptionView::Flower(n@),
            TcOption::U32(n) => TcOptionView::U32(n@),
            TcOption::MatchAll(n) => TcOptionView::MatchAll(n@),
            TcOption::Other(n) => TcOptionView::Other(n@),
        }
    }
}

impl TcOptionView {
    /// The record this option carries.
    pub open spec fn record(self) -> NlaData {
        match self {
            TcOptionView::FqCodel(n) => n,
            TcOptionView::Ingress(n) => n,
            TcOptionView::Flower(n) => n,
            TcOptionView::U32(n) => n,
            TcOptionView::MatchAll(n) => n,
            TcOptionView::Other(n) => n,
        }
    }
}

/// What one record decodes to under a driver kind: the matching tagged
/// variant for a known kind, the opaque fallback otherwise. The tests are
/// ordered as the dispatch makes them.
pub open spec fn parse_tc_option_spec(kind: Seq<char>, r: NlaData) -> TcOptionView {
    if kind == "ingress"@ {
        TcOptionView::Ingress(r)
    } else if kind == "flower"@ {
        TcOptionView::Flower(r)
    } else if kind == "fq_codel"@ {
        TcOptionView::FqCodel(r)
    } else if kind == "u32"@ {
        TcOptionView::U32(r)
    } else if kind == "matchall"@ {
        TcOptionView::MatchAll(r)
    } else {
        TcOptionView::Other(r)
    }
}

/// The driver kinds whose option namespaces this codec models.
pub open spec fn known_tc_kind(kind: Seq<char>) -> bool {
    ||| kind == "ingress"@
    ||| kind == "flower"@
    ||| kind == "fq_codel"@
    ||| kind == "u32"@
    ||| kind == "matchall"@
}

impl TcOption {
    /// The wire kind code of the carried record.
    pub fn kind(&self) -> (r: u16)
        ensures
            r == self@.record().kind,
    {
        match self {
            TcOption::FqCodel(n) => n.kind(),
            TcOption::Ingress(n) => n.kind(),
            TcOption::Flower(n) => n.kind(),
            TcOption::U32(n) => n.kind(),
            TcOption::MatchAll(n) => n.kind(),
            TcOption::Other(n) => n.kind(),
        }
    }

    /// Exact unpadded length of the serialized value.
    pub fn value_len(&self) -> (r: usize)
        ensures
            r == self@.record().value.len(),
    {
        match self {
            TcOption::FqCodel(n) => n.value_len(),
            TcOption::Ingress(n) => n.value_len(),
            TcOption::Flower(n) => n.value_len(),
            TcOption::U32(n) => n.value_len(),
            TcOption::MatchAll(n) => n.value_len(),
            TcOption::Other(n) => n.value_len(),
        }
    }

    /// Writes exactly `value_len` bytes into a buffer of exactly that size.
    pub fn emit_value(&self, buffer: &mut Vec<u8>)
        requires
            old(buffer)@.len() == self@.record().value.len(),
        ensures
            final(buffer)@ == self@.record().value,
    {
        match self {
            TcOption::FqCodel(n) => n.emit_value(buffer),
            TcOption::Ingress(n) => n.emit_value(buffer),
            TcOption::Flower(n) => n.emit_value(buffer),
            TcOption::U32(n) => n.emit_value(buffer),
            TcOption::MatchAll(n) => n.emit_value(buffer),
            TcOption::Other(n) => n.emit_value(buffer),
        }
    }

    /// Tags one record with the driver kind that owns it; every record is
    /// representable, so this never fails.
    pub fn parse_with_param(nla: &DefaultNla, kind: &str) -> (r: Result<Self, DecodeError>)
        ensures
            r is Ok,
            r->Ok_0@ == parse_tc_option_spec(kind@, nla@),
    {
        let rec = DefaultNla { kind: nla.kind, value: clone_bytes(&nla.value) };
        if str_eq(kind, "ingress") {
            Ok(TcOption::Ingress(rec))
        } else if str_eq(kind, "flower") {
            Ok(TcOption::Flower(rec))
        } else if str_eq(kind, "fq_codel") {
            Ok(TcOption::FqCodel(rec))
        } else if str_eq(kind, "u32") {
            Ok(TcOption::U32(rec))
        } else if str_eq(kind, "matchall") {
            Ok(TcOption::MatchAll(rec))
        } else {
            Ok(TcOption::Other(rec))
        }
    }
}

/// The option views of a parsed option list.
pub open spec fn tc_views(vs: Seq<TcOption>) -> Seq<TcOptionView> {
    vs.map_values(|v: TcOption| v@)
}

/// What an option container decodes to under a driver kind: for a known
/// kind, the container's value split into records, each tagged; for an
/// unknown kind, exactly one opaque record spanning the entire value.
pub open spec fn parse_tc_list_spec(kind: Seq<char>, r: NlaData) -> Result<
    Seq<TcOptionView>,
    DecodeError,
> {
    if known_tc_kind(kind) {
        match parse_nlas_spec(r.value) {
            Err(e) => Err(e),
            Ok(rs) => Ok(rs.map_values(|x: NlaData| parse_tc_option_spec(kind, x))),
        }
    } else {
        Ok(seq![TcOptionView::Other(r)])
    }
}

/// An ordered list of traffic-control options, as one container holds it.
#[derive(Debug, PartialEq, Eq, Clone)]
pub struct VecTcOption(pub Vec<TcOption>);

impl VecTcOption {
    /// Decodes one option container under its driver kind.
    pub fn parse_with_param(nla: &DefaultNla, kind: &str) -> (r: Result<VecTcOption, DecodeError>)
        ensures
            match r {
                Ok(v) => parse_tc_list_spec(kind@, nla@) == Ok::<Seq<TcOptionView>, DecodeError>(
                    tc_views(v.0@),
                ),
                Err(e) => parse_tc_list_spec(kind@, nla@) == Err::<Seq<TcOptionView>, DecodeError>(
                    e,
                ),
            },
    {
        let known = str_eq(kind, "ingress") || str_eq(kind, "flower") || str_eq(kind, "fq_codel")
            || str_eq(kind, "u32") || str_eq(kind, "matchall");
        if !known {
            let rec = DefaultNla { kind: nla.kind, value: clone_bytes(&nla.value) };
            let opts = vec![TcOption::Other(rec)];
            assert(tc_views(opts@) =~= seq![TcOptionView::Other(nla@)]);
            return Ok(VecTcOption(opts));
        }
        let nlas = match parse_nlas(&nla.value) {
            Ok(v) => v,
            Err(e) => {
                return Err(e);
            },
        };
        let ghost all = crate::nla::nla_views(nlas@);
        let n = nlas.len();
        let mut acc: Vec<TcOption> = Vec::new();
        let mut i: usize = 0;
        while i < n
            invariant
                i <= n,
                n == nlas@.len(),
                all == crate::nla::nla_views(nlas@),
                known_tc_kind(kind@),
                parse_nlas_spec(nla@.value) == Ok::<Seq<NlaData>, DecodeError>(all),
                tc_views(acc@) =~= all.take(i as int).map_values(
                    |x: NlaData| parse_tc_option_spec(kind@, x),
                ),
            decreases n - i,
        {
            let v = match TcOption::parse_with_param(&nlas[i], kind) {
                Ok(v) => v,
                Err(e) => {
                    return Err(e);
                },
            };
            proof {
                assert(all[i as int] == nlas@[i as int]@);
                assert(tc_views(acc@.push(v)) =~= tc_views(acc@).push(v@));
                assert(all.take(i + 1) =~= all.take(i as int).push(all[i as int]));
                assert(all.take(i + 1).map_values(|x: NlaData| parse_tc_option_spec(kind@, x))
                    =~= all.take(i as int).map_values(
                    |x: NlaData| parse_tc_option_spec(kind@, x),
                ).push(parse_tc_option_spec(kind@, all[i as int])));
            }
            acc.push(v);
            i += 1;
        }
        proof {
            assert(all.take(n as int) =~= all);
        }
        Ok(VecTcOption(acc))
    }
}

/// Driver-kind gating: a known driver kind decodes a container's value
/// into its typed option list, record by record; an unknown kind decodes
/// to exactly one opaque record spanning the entire value.
pub proof fn lemma_tc_driver_kind_gating(kind: Seq<char>, r: NlaData)
    ensures
        !known_tc_kind(kind) ==> parse_tc_list_spec(kind, r) == Ok::<Seq<TcOptionView>, DecodeError>(
            seq![TcOptionView::Other(r)],
        ),
        known_tc_kind(kind) && parse_nlas_spec(r.value) is Ok ==> parse_tc_list_spec(kind, r)
            == Ok::<Seq<TcOptionView>, DecodeError>(
            (parse_nlas_spec(r.value)->Ok_0).map_values(|x: NlaData| parse_tc_option_spec(kind, x)),
        ),
        known_tc_kind(kind) && parse_nlas_spec(r.value) is Err ==> parse_tc_list_spec(kind, r)
            == Err::<Seq<TcOptionView>, DecodeError>(parse_nlas_spec(r.value)->Err_0),
{
}

} // verus!
