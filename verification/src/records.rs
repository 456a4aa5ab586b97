//! The typed records whose canonical bytes the library defines, with their
//! mathematical models. Each record's model holds plain byte sequences
//! (strings as their UTF-8 bytes), and each record's canonical bytes are a
//! spec-level function of its model: fields in ascending field-number
//! order, defaults elided, explicit presence kept.

use vstd::prelude::*;
use vstd::utf8::encode_utf8;

use crate::wire::enc_bytes_field;
use crate::wire::enc_delim_field;
use crate::wire::enc_rep_delim_field;
use crate::wire::enc_scalar_field;
use crate::bytes::append_bytes;
use crate::wire::emit_bytes_field;
use crate::wire::emit_delim_present;
use crate::wire::emit_scalar_field;

verus! {

/// A record that has canonical bytes.
pub trait CanonicalRecord {
    /// The canonical bytes of this record.
    spec fn canon(&self) -> Seq<u8>;

    /// Encodes this record into its canonical bytes.
    fn canonical_bytes(&self) -> (r: Vec<u8>)
        ensures
            r@ == self.canon(),
    ;
}

/// Canonically encodes a record: emits its fields in ascending field-number
/// order with defaults elided. The caller is responsible for ordering any
/// repeated fields that are sets before invoking this function.
pub fn canonical_bytes<M: CanonicalRecord>(message: &M) -> (r: Vec<u8>)
    ensures
        r@ == message.canon(),
{
    message.canonical_bytes()
}

/// The delivery channel of an intent.
#[derive(Clone, Copy, Debug, PartialEq, Eq, Structural)]
pub enum Channel {
    Unspecified,
    Realtime,
    Batch,
}

/// The risk level an intent declares.
#[derive(Clone, Copy, Debug, PartialEq, Eq, Structural)]
pub enum RiskLevel {
    Unspecified,
    Low,
    Medium,
    High,
}

/// The data classification an intent declares.
#[derive(Clone, Copy, Debug, PartialEq, Eq, Structural)]
pub enum DataClass {
    Unspecified,
    Public,
    Internal,
    Restricted,
}

/// The microcircuit module a configuration belongs to.
#[derive(Clone, Copy, Debug, PartialEq, Eq, Structural)]
pub enum MicroModule {
    Unspecified,
    Hpa,
    Lc,
    Sn,
}

/// The kind of a digest-addressed asset.
#[derive(Clone, Copy, Debug, PartialEq, Eq, Structural)]
pub enum AssetKind {
    Unspecified,
    MorphologySet,
    ChannelParamsSet,
    SynapseParamsSet,
    ConnectivityGraph,
    Manifest,
}

/// The outcome a proof receipt records. A rejection is a first-class,
/// auditable outcome, not an error.
#[derive(Clone, Copy, Debug, PartialEq, Eq, Structural)]
pub enum ReceiptStatus {
    Unspecified,
    Accepted,
    Pending,
    Rejected,
}

/// The wire code of a channel.
pub open spec fn channel_code(c: Channel) -> u64 {
    match c {
        Channel::Unspecified => 0,
        Channel::Realtime => 1,
        Channel::Batch => 2,
    }
}

/// The channel a wire code denotes.
pub open spec fn channel_of_code(v: u64) -> Option<Channel> {
    if v == 0 {
        Some(Channel::Unspecified)
    } else if v == 1 {
        Some(Channel::Realtime)
    } else if v == 2 {
        Some(Channel::Batch)
    } else {
        None
    }
}

/// The wire code of a risk level.
pub open spec fn risk_level_code(c: RiskLevel) -> u64 {
    match c {
        RiskLevel::Unspecified => 0,
        RiskLevel::Low => 1,
        RiskLevel::Medium => 2,
        RiskLevel::High => 3,
    }
}

/// The risk level a wire code denotes.
pub open spec fn risk_level_of_code(v: u64) -> Option<RiskLevel> {
    if v == 0 {
        Some(RiskLevel::Unspecified)
    } else if v == 1 {
        Some(RiskLevel::Low)
    } else if v == 2 {
        Some(RiskLevel::Medium)
    } else if v == 3 {
        Some(RiskLevel::High)
    } else {
        None
    }
}

/// The wire code of a data class.
pub open spec fn data_class_code(c: DataClass) -> u64 {
    match c {
        DataClass::Unspecified => 0,
        DataClass::Public => 1,
        DataClass::Internal => 2,
        DataClass::Restricted => 3,
    }
}

/// The data class a wire code denotes.
pub open spec fn data_class_of_code(v: u64) -> Option<DataClass> {
    if v == 0 {
        Some(DataClass::Unspecified)
    } else if v == 1 {
        Some(DataClass::Public)
    } else if v == 2 {
        Some(DataClass::Internal)
    } else if v == 3 {
        Some(DataClass::Restricted)
    } else {
        None
    }
}

/// The wire code of a microcircuit module.
pub open spec fn micro_module_code(c: MicroModule) -> u64 {
    match c {
        MicroModule::Unspecified => 0,
        MicroModule::Hpa => 1,
        MicroModule::Lc => 2,
        MicroModule::Sn => 3,
    }
}

/// The microcircuit module a wire code denotes.
pub open spec fn micro_module_of_code(v: u64) -> Option<MicroModule> {
    if v == 0 {
        Some(MicroModule::Unspecified)
    } else if v == 1 {
        Some(MicroModule::Hpa)
    } else if v == 2 {
        Some(MicroModule::Lc)
    } else if v == 3 {
        Some(MicroModule::Sn)
    } else {
        None
    }
}

/// The wire code of an asset kind.
pub open spec fn asset_kind_code(c: AssetKind) -> u64 {
    match c {
        AssetKind::Unspecified => 0,
        AssetKind::MorphologySet => 1,
        AssetKind::ChannelParamsSet => 2,
        AssetKind::SynapseParamsSet => 3,
        AssetKind::ConnectivityGraph => 4,
        AssetKind::Manifest => 5,
    }
}

/// The asset kind a wire code denotes.
pub open spec fn asset_kind_of_code(v: u64) -> Option<AssetKind> {
    if v == 0 {
        Some(AssetKind::Unspecified)
    } else if v == 1 {
        Some(AssetKind::MorphologySet)
    } else if v == 2 {
        Some(AssetKind::ChannelParamsSet)
    } else if v == 3 {
        Some(AssetKind::SynapseParamsSet)
    } else if v == 4 {
        Some(AssetKind::ConnectivityGraph)
    } else if v == 5 {
        Some(AssetKind::Manifest)
    } else {
        None
    }
}

/// The wire code of a receipt status.
pub open spec fn receipt_status_code(c: ReceiptStatus) -> u64 {
    match c {
        ReceiptStatus::Unspecified => 0,
        ReceiptStatus::Accepted => 1,
        ReceiptStatus::Pending => 2,
        ReceiptStatus::Rejected => 3,
    }
}

/// The receipt status a wire code denotes.
pub open spec fn receipt_status_of_code(v: u64) -> Option<ReceiptStatus> {
    if v == 0 {
        Some(ReceiptStatus::Unspecified)
    } else if v == 1 {
        Some(ReceiptStatus::Accepted)
    } else if v == 2 {
        Some(ReceiptStatus::Pending)
    } else if v == 3 {
        Some(ReceiptStatus::Rejected)
    } else {
        None
    }
}

/// A 32-byte digest carried on the wire.
#[derive(Clone, Debug, PartialEq, Eq)]
pub struct Digest32 {
    pub value: Vec<u8>,
}

/// The model of a `Digest32`.
pub struct Digest32V {
    pub value: Seq<u8>,
}

impl View for Digest32 {
    type V = Digest32V;

    open spec fn view(&self) -> Digest32V {
        Digest32V { value: self.value@ }
    }
}

/// The canonical bytes of a digest record.
pub open spec fn canon_digest32(v: Digest32V) -> Seq<u8> {
    enc_bytes_field(1, v.value)
}

impl CanonicalRecord for Digest32 {
    open spec fn canon(&self) -> Seq<u8> {
        canon_digest32(self@)
    }

    fn canonical_bytes(&self) -> (r: Vec<u8>) {
        let mut out: Vec<u8> = Vec::new();
        emit_bytes_field(&mut out, 1, self.value.as_slice());
        proof {
            assert(out@ =~= canon_digest32(self@));
        }
        out
    }
}

/// A signature: the algorithm label, the signer, and the signature bytes.
#[derive(Clone, Debug, PartialEq, Eq)]
pub struct Signature {
    pub algorithm: String,
    pub signer: Vec<u8>,
    pub signature: Vec<u8>,
}

/// The model of a `Signature`; the algorithm as its UTF-8 bytes.
pub struct SignatureV {
    pub algorithm: Seq<u8>,
    pub signer: Seq<u8>,
    pub signature: Seq<u8>,
}

impl View for Signature {
    type V = SignatureV;

    open spec fn view(&self) -> SignatureV {
        SignatureV {
            algorithm: encode_utf8(self.algorithm@),
            signer: self.signer@,
            signature: self.signature@,
        }
    }
}

/// The canonical bytes of a signature record.
pub open spec fn canon_signature(v: SignatureV) -> Seq<u8> {
    enc_bytes_field(1, v.algorithm) + enc_bytes_field(2, v.signer) + enc_bytes_field(
        3,
        v.signature,
    )
}

impl CanonicalRecord for Signature {
    open spec fn canon(&self) -> Seq<u8> {
        canon_signature(self@)
    }

    fn canonical_bytes(&self) -> (r: Vec<u8>) {
        let mut out: Vec<u8> = Vec::new();
        emit_bytes_field(&mut out, 1, self.algorithm.as_str().as_bytes());
        emit_bytes_field(&mut out, 2, self.signer.as_slice());
        emit_bytes_field(&mut out, 3, self.signature.as_slice());
        proof {
            assert(out@ =~= canon_signature(self@));
        }
        out
    }
}

/// An opaque pointer to another record's digest-addressable location.
#[derive(Clone, Debug, PartialEq, Eq)]
pub struct Ref {
    pub uri: String,
    pub label: String,
}

/// The model of a `Ref`; both strings as their UTF-8 bytes.
pub struct RefV {
    pub uri: Seq<u8>,
    pub label: Seq<u8>,
}

impl View for Ref {
    type V = RefV;

    open spec fn view(&self) -> RefV {
        RefV { uri: encode_utf8(self.uri@), label: encode_utf8(self.label@) }
    }
}

/// The canonical bytes of a reference record.
pub open spec fn canon_ref(v: RefV) -> Seq<u8> {
    enc_bytes_field(1, v.uri) + enc_bytes_field(2, v.label)
}

impl CanonicalRecord for Ref {
    open spec fn canon(&self) -> Seq<u8> {
        canon_ref(self@)
    }

    fn canonical_bytes(&self) -> (r: Vec<u8>) {
        let mut out: Vec<u8> = Vec::new();
        emit_bytes_field(&mut out, 1, self.uri.as_str().as_bytes());
        emit_bytes_field(&mut out, 2, self.label.as_str().as_bytes());
        proof {
            assert(out@ =~= canon_ref(self@));
        }
        out
    }
}

/// A set of reason codes. The codes are a set-typed repeated field: the
/// producer must hand them over already sorted in ascending byte order.
#[derive(Clone, Debug, PartialEq, Eq)]
pub struct ReasonCodes {
    pub codes: Vec<String>,
}

/// The model of `ReasonCodes`; each code as its UTF-8 bytes.
pub struct ReasonCodesV {
    pub codes: Seq<Seq<u8>>,
}

impl View for ReasonCodes {
    type V = ReasonCodesV;

    open spec fn view(&self) -> ReasonCodesV {
        ReasonCodesV { codes: Seq::new(self.codes@.len(), |i: int| encode_utf8(self.codes@[i]@)) }
    }
}

/// The canonical bytes of a reason-codes record.
pub open spec fn canon_reason_codes(v: ReasonCodesV) -> Seq<u8> {
    enc_rep_delim_field(1, v.codes)
}

impl CanonicalRecord for ReasonCodes {
    open spec fn canon(&self) -> Seq<u8> {
        canon_reason_codes(self@)
    }

    fn canonical_bytes(&self) -> (r: Vec<u8>) {
        let mut out: Vec<u8> = Vec::new();
        emit_rep_string_field(&mut out, 1, &self.codes);
        proof {
            assert(out@ =~= canon_reason_codes(self@));
        }
        out
    }
}

/// The UTF-8 bytes of each string in a vector, in order.
pub open spec fn strings_bytes(v: Seq<String>) -> Seq<Seq<u8>> {
    Seq::new(v.len(), |i: int| encode_utf8(v[i]@))
}

/// Appends the encoding of a repeated string field: one tagged element per
/// entry, in the order given.
pub fn emit_rep_string_field(out: &mut Vec<u8>, field: u64, elems: &Vec<String>)
    requires
        1 <= field,
        field * 8 + 2 < 128,
    ensures
        final(out)@ == old(out)@ + enc_rep_delim_field(field, strings_bytes(elems@)),
{
    let ghost all = strings_bytes(elems@);
    proof {
        assert(all.skip(0) =~= all);
    }
    let mut i: usize = 0;
    while i < elems.len()
        invariant
            i <= elems@.len(),
            1 <= field,
            field * 8 + 2 < 128,
            all == strings_bytes(elems@),
            out@ + enc_rep_delim_field(field, all.skip(i as int)) == old(out)@
                + enc_rep_delim_field(field, all),
        decreases elems@.len() - i,
    {
        let ghost pre = out@;
        emit_delim_present(out, field, elems[i].as_str().as_bytes());
        proof {
            let rest = all.skip(i as int);
            assert(rest[0] == all[i as int]);
            assert(rest.drop_first() =~= all.skip(i + 1));
            assert(enc_rep_delim_field(field, rest) == enc_delim_field(
                field,
                Option::Some(rest[0]),
            ) + enc_rep_delim_field(field, rest.drop_first()));
            assert(pre + (enc_delim_field(field, Option::Some(all[i as int]))
                + enc_rep_delim_field(field, all.skip(i + 1))) =~= out@ + enc_rep_delim_field(
                field,
                all.skip(i + 1),
            ));
        }
        i = i + 1;
    }
    proof {
        assert(all.skip(i as int) =~= Seq::<Seq<u8>>::empty());
        assert(out@ + Seq::<u8>::empty() =~= out@);
        assert(out@ =~= old(out)@ + enc_rep_delim_field(field, all));
    }
}

/// The query parameters of an intent. The selectors are a set-typed
/// repeated field: the producer must hand them over already sorted.
#[derive(Clone, Debug, PartialEq, Eq)]
pub struct QueryParams {
    pub query: String,
    pub selectors: Vec<String>,
}

/// The model of `QueryParams`.
pub struct QueryParamsV {
    pub query: Seq<u8>,
    pub selectors: Seq<Seq<u8>>,
}

impl View for QueryParams {
    type V = QueryParamsV;

    open spec fn view(&self) -> QueryParamsV {
        QueryParamsV { query: encode_utf8(self.query@), selectors: strings_bytes(self.selectors@) }
    }
}

/// The canonical bytes of a query-parameters record.
pub open spec fn canon_query_params(v: QueryParamsV) -> Seq<u8> {
    enc_bytes_field(1, v.query) + enc_rep_delim_field(2, v.selectors)
}

impl CanonicalRecord for QueryParams {
    open spec fn canon(&self) -> Seq<u8> {
        canon_query_params(self@)
    }

    fn canonical_bytes(&self) -> (r: Vec<u8>) {
        let mut out: Vec<u8> = Vec::new();
        emit_bytes_field(&mut out, 1, self.query.as_str().as_bytes());
        emit_rep_string_field(&mut out, 2, &self.selectors);
        proof {
            assert(out@ =~= canon_query_params(self@));
        }
        out
    }
}

impl Channel {
    /// The wire code of this channel.
    pub fn code(&self) -> (r: u64)
        ensures
            r == channel_code(*self),
    {
        match self {
            Channel::Unspecified => 0,
            Channel::Realtime => 1,
            Channel::Batch => 2,
        }
    }

    /// The channel a wire code denotes, if any.
    pub fn from_code(v: u64) -> (r: Option<Channel>)
        ensures
            r == channel_of_code(v),
    {
        if v == 0 {
            Some(Channel::Unspecified)
        } else if v == 1 {
            Some(Channel::Realtime)
        } else if v == 2 {
            Some(Channel::Batch)
        } else {
            None
        }
    }
}

impl RiskLevel {
    /// The wire code of this risk level.
    pub fn code(&self) -> (r: u64)
        ensures
            r == risk_level_code(*self),
    {
        match self {
            RiskLevel::Unspecified => 0,
            RiskLevel::Low => 1,
            RiskLevel::Medium => 2,
            RiskLevel::High => 3,
        }
    }

    /// The risk level a wire code denotes, if any.
    pub fn from_code(v: u64) -> (r: Option<RiskLevel>)
        ensures
            r == risk_level_of_code(v),
    {
        if v == 0 {
            Some(RiskLevel::Unspecified)
        } else if v == 1 {
            Some(RiskLevel::Low)
        } else if v == 2 {
            Some(RiskLevel::Medium)
        } else if v == 3 {
            Some(RiskLevel::High)
        } else {
            None
        }
    }
}

impl DataClass {
    /// The wire code of this data class.
    pub fn code(&self) -> (r: u64)
        ensures
            r == data_class_code(*self),
    {
        match self {
            DataClass::Unspecified => 0,
            DataClass::Public => 1,
            DataClass::Internal => 2,
            DataClass::Restricted => 3,
        }
    }

    /// The data class a wire code denotes, if any.
    pub fn from_code(v: u64) -> (r: Option<DataClass>)
        ensures
            r == data_class_of_code(v),
    {
        if v == 0 {
            Some(DataClass::Unspecified)
        } else if v == 1 {
            Some(DataClass::Public)
        } else if v == 2 {
            Some(DataClass::Internal)
        } else if v == 3 {
            Some(DataClass::Restricted)
        } else {
            None
        }
    }
}

impl MicroModule {
    /// The wire code of this module.
    pub fn code(&self) -> (r: u64)
        ensures
            r == micro_module_code(*self),
    {
        match self {
            MicroModule::Unspecified => 0,
            MicroModule::Hpa => 1,
            MicroModule::Lc => 2,
            MicroModule::Sn => 3,
        }
    }

    /// The module a wire code denotes, if any.
    pub fn from_code(v: u64) -> (r: Option<MicroModule>)
        ensures
            r == micro_module_of_code(v),
    {
        if v == 0 {
            Some(MicroModule::Unspecified)
        } else if v == 1 {
            Some(MicroModule::Hpa)
        } else if v == 2 {
            Some(MicroModule::Lc)
        } else if v == 3 {
            Some(MicroModule::Sn)
        } else {
            None
        }
    }
}

impl AssetKind {
    /// The wire code of this asset kind.
    pub fn code(&self) -> (r: u64)
        ensures
            r == asset_kind_code(*self),
    {
        match self {
            AssetKind::Unspecified => 0,
            AssetKind::MorphologySet => 1,
            AssetKind::ChannelParamsSet => 2,
            AssetKind::SynapseParamsSet => 3,
            AssetKind::ConnectivityGraph => 4,
            AssetKind::Manifest => 5,
        }
    }

    /// The asset kind a wire code denotes, if any.
    pub fn from_code(v: u64) -> (r: Option<AssetKind>)
        ensures
            r == asset_kind_of_code(v),
    {
        if v == 0 {
            Some(AssetKind::Unspecified)
        } else if v == 1 {
            Some(AssetKind::MorphologySet)
        } else if v == 2 {
            Some(AssetKind::ChannelParamsSet)
        } else if v == 3 {
            Some(AssetKind::SynapseParamsSet)
        } else if v == 4 {
            Some(AssetKind::ConnectivityGraph)
        } else if v == 5 {
            Some(AssetKind::Manifest)
        } else {
            None
        }
    }
}

impl ReceiptStatus {
    /// The wire code of this status.
    pub fn code(&self) -> (r: u64)
        ensures
            r == receipt_status_code(*self),
    {
        match self {
            ReceiptStatus::Unspecified => 0,
            ReceiptStatus::Accepted => 1,
            ReceiptStatus::Pending => 2,
            ReceiptStatus::Rejected => 3,
        }
    }

    /// The status a wire code denotes, if any.
    pub fn from_code(v: u64) -> (r: Option<ReceiptStatus>)
        ensures
            r == receipt_status_of_code(v),
    {
        if v == 0 {
            Some(ReceiptStatus::Unspecified)
        } else if v == 1 {
            Some(ReceiptStatus::Accepted)
        } else if v == 2 {
            Some(ReceiptStatus::Pending)
        } else if v == 3 {
            Some(ReceiptStatus::Rejected)
        } else {
            None
        }
    }
}

/// The parameters an intent carries: exactly one variant of the group.
#[derive(Clone, Debug, PartialEq, Eq)]
pub enum IntentParams {
    Query(QueryParams),
}

/// The model of `IntentParams`.
pub enum IntentParamsV {
    Query(QueryParamsV),
}

impl View for IntentParams {
    type V = IntentParamsV;

    open spec fn view(&self) -> IntentParamsV {
        match self {
            IntentParams::Query(q) => IntentParamsV::Query(q@),
        }
    }
}

/// A canonical intent: what a caller asks the governed system to do.
#[derive(Clone, Debug, PartialEq, Eq)]
pub struct CanonicalIntent {
    pub intent_id: String,
    pub channel: Channel,
    pub risk_level: RiskLevel,
    pub data_class: DataClass,
    pub subject: Option<Ref>,
    pub reason_codes: Option<ReasonCodes>,
    pub params: Option<IntentParams>,
}

/// The model of a `CanonicalIntent`.
pub struct CanonicalIntentV {
    pub intent_id: Seq<u8>,
    pub channel: Channel,
    pub risk_level: RiskLevel,
    pub data_class: DataClass,
    pub subject: Option<RefV>,
    pub reason_codes: Option<ReasonCodesV>,
    pub params: Option<IntentParamsV>,
}

impl View for CanonicalIntent {
    type V = CanonicalIntentV;

    open spec fn view(&self) -> CanonicalIntentV {
        CanonicalIntentV {
            intent_id: encode_utf8(self.intent_id@),
            channel: self.channel,
            risk_level: self.risk_level,
            data_class: self.data_class,
            subject: match self.subject {
                Some(r) => Some(r@),
                None => None,
            },
            reason_codes: match self.reason_codes {
                Some(rc) => Some(rc@),
                None => None,
            },
            params: match self.params {
                Some(p) => Some(p@),
                None => None,
            },
        }
    }
}

/// The canonical bytes of an optional digest sub-message.
pub open spec fn opt_canon_digest32(c: Option<Digest32V>) -> Option<Seq<u8>> {
    match c {
        Some(d) => Some(canon_digest32(d)),
        None => None,
    }
}

/// The canonical bytes of an optional reference sub-message.
pub open spec fn opt_canon_ref(c: Option<RefV>) -> Option<Seq<u8>> {
    match c {
        Some(r) => Some(canon_ref(r)),
        None => None,
    }
}

/// The canonical bytes of an optional signature sub-message.
pub open spec fn opt_canon_signature(c: Option<SignatureV>) -> Option<Seq<u8>> {
    match c {
        Some(sig) => Some(canon_signature(sig)),
        None => None,
    }
}

/// The canonical bytes of an optional reason-codes sub-message.
pub open spec fn opt_canon_reason_codes(c: Option<ReasonCodesV>) -> Option<Seq<u8>> {
    match c {
        Some(rc) => Some(canon_reason_codes(rc)),
        None => None,
    }
}

/// The canonical bytes of an intent's parameter group: exactly one variant
/// when present.
pub open spec fn opt_canon_params(c: Option<IntentParamsV>) -> Option<Seq<u8>> {
    match c {
        Some(IntentParamsV::Query(q)) => Some(canon_query_params(q)),
        None => None,
    }
}

/// The canonical bytes of an intent record.
pub open spec fn canon_intent(v: CanonicalIntentV) -> Seq<u8> {
    enc_bytes_field(1, v.intent_id) + enc_scalar_field(2, channel_code(v.channel))
        + enc_scalar_field(3, risk_level_code(v.risk_level)) + enc_scalar_field(
        4,
        data_class_code(v.data_class),
    ) + enc_delim_field(5, opt_canon_ref(v.subject)) + enc_delim_field(
        6,
        opt_canon_reason_codes(v.reason_codes),
    ) + enc_delim_field(7, opt_canon_params(v.params))
}

impl CanonicalRecord for CanonicalIntent {
    open spec fn canon(&self) -> Seq<u8> {
        canon_intent(self@)
    }

    fn canonical_bytes(&self) -> (r: Vec<u8>) {
        let mut out: Vec<u8> = Vec::new();
        emit_bytes_field(&mut out, 1, self.intent_id.as_str().as_bytes());
        emit_scalar_field(&mut out, 2, self.channel.code());
        emit_scalar_field(&mut out, 3, self.risk_level.code());
        emit_scalar_field(&mut out, 4, self.data_class.code());
        match &self.subject {
            Some(r) => {
                let sub = r.canonical_bytes();
                emit_delim_present(&mut out, 5, sub.as_slice());
            },
            None => {},
        }
        match &self.reason_codes {
            Some(rc) => {
                let sub = rc.canonical_bytes();
                emit_delim_present(&mut out, 6, sub.as_slice());
            },
            None => {},
        }
        match &self.params {
            Some(IntentParams::Query(q)) => {
                let sub = q.canonical_bytes();
                emit_delim_present(&mut out, 7, sub.as_slice());
            },
            None => {},
        }
        proof {
            assert(out@ =~= canon_intent(self@));
        }
        out
    }
}

/// Evidence that a microcircuit module ran under a given configuration.
#[derive(Clone, Debug, PartialEq, Eq)]
pub struct MicrocircuitConfigEvidence {
    pub module: MicroModule,
    pub config_version: u32,
    pub config_digest: Option<Digest32>,
    pub created_at_ms: u64,
    pub prev_config_digest: Option<Digest32>,
    pub proof_receipt_ref: Option<Ref>,
    pub attestation_sig: Option<Signature>,
    pub attestation_key_id: Option<String>,
}

/// The model of a `MicrocircuitConfigEvidence`.
pub struct MicrocircuitConfigEvidenceV {
    pub module: MicroModule,
    pub config_version: u32,
    pub config_digest: Option<Digest32V>,
    pub created_at_ms: u64,
    pub prev_config_digest: Option<Digest32V>,
    pub proof_receipt_ref: Option<RefV>,
    pub attestation_sig: Option<SignatureV>,
    pub attestation_key_id: Option<Seq<u8>>,
}

impl View for MicrocircuitConfigEvidence {
    type V = MicrocircuitConfigEvidenceV;

    open spec fn view(&self) -> MicrocircuitConfigEvidenceV {
        MicrocircuitConfigEvidenceV {
            module: self.module,
            config_version: self.config_version,
            config_digest: match self.config_digest {
                Some(d) => Some(d@),
                None => None,
            },
            created_at_ms: self.created_at_ms,
            prev_config_digest: match self.prev_config_digest {
                Some(d) => Some(d@),
                None => None,
            },
            proof_receipt_ref: match self.proof_receipt_ref {
                Some(r) => Some(r@),
                None => None,
            },
            attestation_sig: match self.attestation_sig {
                Some(sig) => Some(sig@),
                None => None,
            },
            attestation_key_id: match self.attestation_key_id {
                Some(k) => Some(encode_utf8(k@)),
                None => None,
            },
        }
    }
}

/// The canonical bytes of a microcircuit configuration evidence record. The
/// key identifier keeps its field even when set to the empty string: the
/// schema marks it optional presence.
pub open spec fn canon_micro(v: MicrocircuitConfigEvidenceV) -> Seq<u8> {
    enc_scalar_field(1, micro_module_code(v.module)) + enc_scalar_field(
        2,
        v.config_version as u64,
    ) + enc_delim_field(3, opt_canon_digest32(v.config_digest)) + enc_scalar_field(
        4,
        v.created_at_ms,
    ) + enc_delim_field(5, opt_canon_digest32(v.prev_config_digest)) + enc_delim_field(
        6,
        opt_canon_ref(v.proof_receipt_ref),
    ) + enc_delim_field(7, opt_canon_signature(v.attestation_sig)) + enc_delim_field(
        8,
        v.attestation_key_id,
    )
}

impl CanonicalRecord for MicrocircuitConfigEvidence {
    open spec fn canon(&self) -> Seq<u8> {
        canon_micro(self@)
    }

    fn canonical_bytes(&self) -> (r: Vec<u8>) {
        let mut out: Vec<u8> = Vec::new();
        emit_scalar_field(&mut out, 1, self.module.code());
        emit_scalar_field(&mut out, 2, self.config_version as u64);
        match &self.config_digest {
            Some(d) => {
                let sub = d.canonical_bytes();
                emit_delim_present(&mut out, 3, sub.as_slice());
            },
            None => {},
        }
        emit_scalar_field(&mut out, 4, self.created_at_ms);
        match &self.prev_config_digest {
            Some(d) => {
                let sub = d.canonical_bytes();
                emit_delim_present(&mut out, 5, sub.as_slice());
            },
            None => {},
        }
        match &self.proof_receipt_ref {
            Some(r) => {
                let sub = r.canonical_bytes();
                emit_delim_present(&mut out, 6, sub.as_slice());
            },
            None => {},
        }
        match &self.attestation_sig {
            Some(sig) => {
                let sub = sig.canonical_bytes();
                emit_delim_present(&mut out, 7, sub.as_slice());
            },
            None => {},
        }
        match &self.attestation_key_id {
            Some(k) => {
                emit_delim_present(&mut out, 8, k.as_str().as_bytes());
            },
            None => {},
        }
        proof {
            assert(out@ =~= canon_micro(self@));
        }
        out
    }
}

/// The digest record of one versioned asset payload.
#[derive(Clone, Debug, PartialEq, Eq)]
pub struct AssetDigest {
    pub kind: AssetKind,
    pub version: u32,
    pub digest: Option<Digest32>,
    pub created_at_ms: u64,
    pub prev_digest: Option<Digest32>,
    pub proof_receipt_ref: Option<Ref>,
}

/// The model of an `AssetDigest`.
pub struct AssetDigestV {
    pub kind: AssetKind,
    pub version: u32,
    pub digest: Option<Digest32V>,
    pub created_at_ms: u64,
    pub prev_digest: Option<Digest32V>,
    pub proof_receipt_ref: Option<RefV>,
}

impl View for AssetDigest {
    type V = AssetDigestV;

    open spec fn view(&self) -> AssetDigestV {
        AssetDigestV {
            kind: self.kind,
            version: self.version,
            digest: match self.digest {
                Some(d) => Some(d@),
                None => None,
            },
            created_at_ms: self.created_at_ms,
            prev_digest: match self.prev_digest {
                Some(d) => Some(d@),
                None => None,
            },
            proof_receipt_ref: match self.proof_receipt_ref {
                Some(r) => Some(r@),
                None => None,
            },
        }
    }
}

/// The canonical bytes of an asset digest record.
pub open spec fn canon_asset_digest(v: AssetDigestV) -> Seq<u8> {
    enc_scalar_field(1, asset_kind_code(v.kind)) + enc_scalar_field(2, v.version as u64)
        + enc_delim_field(3, opt_canon_digest32(v.digest)) + enc_scalar_field(4, v.created_at_ms)
        + enc_delim_field(5, opt_canon_digest32(v.prev_digest)) + enc_delim_field(
        6,
        opt_canon_ref(v.proof_receipt_ref),
    )
}

impl CanonicalRecord for AssetDigest {
    open spec fn canon(&self) -> Seq<u8> {
        canon_asset_digest(self@)
    }

    fn canonical_bytes(&self) -> (r: Vec<u8>) {
        let mut out: Vec<u8> = Vec::new();
        emit_scalar_field(&mut out, 1, self.kind.code());
        emit_scalar_field(&mut out, 2, self.version as u64);
        match &self.digest {
            Some(d) => {
                let sub = d.canonical_bytes();
                emit_delim_present(&mut out, 3, sub.as_slice());
            },
            None => {},
        }
        emit_scalar_field(&mut out, 4, self.created_at_ms);
        match &self.prev_digest {
            Some(d) => {
                let sub = d.canonical_bytes();
                emit_delim_present(&mut out, 5, sub.as_slice());
            },
            None => {},
        }
        match &self.proof_receipt_ref {
            Some(r) => {
                let sub = r.canonical_bytes();
                emit_delim_present(&mut out, 6, sub.as_slice());
            },
            None => {},
        }
        proof {
            assert(out@ =~= canon_asset_digest(self@));
        }
        out
    }
}

/// A proof receipt: the status, the receipt digest the validator signed,
/// the validator's signature, and the VRF tag that binds the receipt to the
/// record chain.
#[derive(Clone, Debug, PartialEq, Eq)]
pub struct ProofReceipt {
    pub status: ReceiptStatus,
    pub receipt_digest: Option<Digest32>,
    pub validator: Option<Signature>,
    pub vrf_digest: Option<Digest32>,
}

/// The model of a `ProofReceipt`.
pub struct ProofReceiptV {
    pub status: ReceiptStatus,
    pub receipt_digest: Option<Digest32V>,
    pub validator: Option<SignatureV>,
    pub vrf_digest: Option<Digest32V>,
}

impl View for ProofReceipt {
    type V = ProofReceiptV;

    open spec fn view(&self) -> ProofReceiptV {
        ProofReceiptV {
            status: self.status,
            receipt_digest: match self.receipt_digest {
                Some(d) => Some(d@),
                None => None,
            },
            validator: match self.validator {
                Some(sig) => Some(sig@),
                None => None,
            },
            vrf_digest: match self.vrf_digest {
                Some(d) => Some(d@),
                None => None,
            },
        }
    }
}

/// The canonical bytes of a proof receipt record: what a validator signs.
pub open spec fn canon_receipt(v: ProofReceiptV) -> Seq<u8> {
    enc_scalar_field(1, receipt_status_code(v.status)) + enc_delim_field(
        2,
        opt_canon_digest32(v.receipt_digest),
    ) + enc_delim_field(3, opt_canon_signature(v.validator)) + enc_delim_field(
        4,
        opt_canon_digest32(v.vrf_digest),
    )
}

impl CanonicalRecord for ProofReceipt {
    open spec fn canon(&self) -> Seq<u8> {
        canon_receipt(self@)
    }

    fn canonical_bytes(&self) -> (r: Vec<u8>) {
        let mut out: Vec<u8> = Vec::new();
        emit_scalar_field(&mut out, 1, self.status.code());
        match &self.receipt_digest {
            Some(d) => {
                let sub = d.canonical_bytes();
                emit_delim_present(&mut out, 2, sub.as_slice());
            },
            None => {},
        }
        match &self.validator {
            Some(sig) => {
                let sub = sig.canonical_bytes();
                emit_delim_present(&mut out, 3, sub.as_slice());
            },
            None => {},
        }
        match &self.vrf_digest {
            Some(d) => {
                let sub = d.canonical_bytes();
                emit_delim_present(&mut out, 4, sub.as_slice());
            },
            None => {},
        }
        proof {
            assert(out@ =~= canon_receipt(self@));
        }
        out
    }
}

} // verus!
