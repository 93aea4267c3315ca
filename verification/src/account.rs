//! The account record, its wire shape, and the codec between them.

use vstd::prelude::*;

use crate::string_codec;
use crate::wire;
use crate::wire::PubKeyView;
use crate::wire::WireView;
use crate::DecodeError;

verus! {

/// A public key as it stands on the wire: its own `@type` tag and its
/// base64-encoded `key` payload.  This crate treats the key as an opaque
/// value with a symmetric wire shape of its own and does not validate it.
#[derive(Clone, Debug, PartialEq, Eq)]
pub struct PublicKey {
    pub type_url: String,
    pub key: String,
}

impl View for PublicKey {
    type V = PubKeyView;

    open spec fn view(&self) -> PubKeyView {
        PubKeyView { type_url: self.type_url@, key: self.key@ }
    }
}

/// The canonical, in-memory account record.  The wire tag is not stored:
/// it is derived from the record's kind when encoding.
#[derive(Clone, Debug, PartialEq, Eq)]
pub struct BaseAccount {
    pub address: String,
    pub pub_key: Option<PublicKey>,
    pub account_number: u64,
    pub sequence: u64,
}

/// The mathematical content of an account record.
#[verifier::ext_equal]
pub struct AccountView {
    pub address: Seq<char>,
    pub pub_key: Option<PubKeyView>,
    pub account_number: u64,
    pub sequence: u64,
}

impl View for BaseAccount {
    type V = AccountView;

    open spec fn view(&self) -> AccountView {
        AccountView {
            address: self.address@,
            pub_key: match self.pub_key {
                Some(p) => Some(p@),
                None => None,
            },
            account_number: self.account_number,
            sequence: self.sequence,
        }
    }
}

/// The wire shape of an account record, as an in-memory value: the record's
/// fields beside the `@type` tag that the wire object carries.  It exists
/// only while encoding or decoding.
#[derive(Clone, Debug, PartialEq, Eq)]
pub struct BaseAccountJson {
    pub type_url: String,
    pub account_number: u64,
    pub address: String,
    pub pub_key: Option<PublicKey>,
    pub sequence: u64,
}

impl View for BaseAccountJson {
    type V = WireView;

    open spec fn view(&self) -> WireView {
        WireView {
            type_url: self.type_url@,
            account_number: self.account_number,
            address: self.address@,
            pub_key: match self.pub_key {
                Some(p) => Some(p@),
                None => None,
            },
            sequence: self.sequence,
        }
    }
}

/// The wire object of a record: the record's fields beside the fixed tag.
pub open spec fn wire_of(a: AccountView) -> WireView {
    WireView {
        type_url: BaseAccount::TYPE_URL@,
        account_number: a.account_number,
        address: a.address,
        pub_key: a.pub_key,
        sequence: a.sequence,
    }
}

/// The record a wire object denotes: the wire object's fields, with its
/// tag dropped.
pub open spec fn account_of(w: WireView) -> AccountView {
    AccountView {
        address: w.address,
        pub_key: w.pub_key,
        account_number: w.account_number,
        sequence: w.sequence,
    }
}

/// The canonical JSON text of a record.
pub open spec fn account_text(a: AccountView) -> Seq<char> {
    wire::wire_text(wire_of(a))
}

/// What decoding a text yields at the record level: the wire parse, with
/// the tag dropped.
pub open spec fn account_parse(t: Seq<char>) -> Result<AccountView, DecodeError> {
    match wire::wire_parse(t) {
        Ok(w) => Ok(account_of(w)),
        Err(e) => Err(e),
    }
}

impl BaseAccount {
    /// The fixed tag that every encoded record carries in its `@type`
    /// member.
    pub const TYPE_URL: &'static str = "/cosmos.auth.v1beta1.BaseAccount";

    /// Decodes a record from its wire JSON text.  Returns `Ok` exactly on
    /// the texts that `account_parse` accepts, and otherwise the error
    /// that classifies the failure.
    pub fn from_json(s: &str) -> (r: Result<BaseAccount, DecodeError>)
        ensures
            match r {
                Ok(a) => account_parse(s@) == Ok::<AccountView, DecodeError>(a@),
                Err(e) => account_parse(s@) == Err::<AccountView, DecodeError>(e),
            },
    {
        let w = match BaseAccountJson::parse(s) {
            Ok(w) => w,
            Err(e) => {
                return Err(e);
            },
        };
        let a = BaseAccount {
            address: w.address,
            pub_key: w.pub_key,
            account_number: w.account_number,
            sequence: w.sequence,
        };
        proof {
            assert(account_parse(s@)->Ok_0 =~= a@);
        }
        Ok(a)
    }

    /// Encodes the record as its canonical wire JSON text, always carrying
    /// the fixed `@type` tag.
    pub fn to_json(&self) -> (r: String)
        ensures
            r@ == account_text(self@),
    {
        let w = BaseAccountJson::from_account(self);
        w.render()
    }
}

impl core::str::FromStr for BaseAccount {
    type Err = DecodeError;

    /// Decoding a record from text, under the standard parsing interface.
    fn from_str(s: &str) -> Result<BaseAccount, DecodeError> {
        BaseAccount::from_json(s)
    }
}

/// A copy of an optional public key, field by field.
fn clone_pub_key(pk: &Option<PublicKey>) -> (r: Option<PublicKey>)
    ensures
        r == *pk,
{
    match pk {
        Some(p) => Some(PublicKey { type_url: p.type_url.clone(), key: p.key.clone() }),
        None => None,
    }
}

impl BaseAccountJson {
    /// The wire shape of a record: the record's fields with the fixed tag
    /// attached.
    pub fn from_account(a: &BaseAccount) -> (r: BaseAccountJson)
        ensures
            r@ == wire_of(a@),
    {
        let type_url: String = BaseAccount::TYPE_URL.to_owned();
        BaseAccountJson {
            type_url,
            address: a.address.clone(),
            pub_key: clone_pub_key(&a.pub_key),
            account_number: a.account_number,
            sequence: a.sequence,
        }
    }
}

impl TryFrom<BaseAccountJson> for BaseAccount {
    type Error = DecodeError;

    /// The record a wire shape denotes: its fields, with the tag dropped.
    /// This conversion itself cannot fail; it is fallible in form because
    /// it stands at the end of the decoding path, whose numeric failures
    /// are reported before a wire shape is built.
    fn try_from(json: BaseAccountJson) -> Result<BaseAccount, DecodeError> {
        Ok(
            BaseAccount {
                account_number: json.account_number,
                address: json.address,
                pub_key: json.pub_key,
                sequence: json.sequence,
            },
        )
    }
}

impl vstd::std_specs::convert::TryFromSpecImpl<BaseAccountJson> for BaseAccount {
    open spec fn obeys_try_from_spec() -> bool {
        true
    }

    open spec fn try_from_spec(v: BaseAccountJson) -> Result<BaseAccount, DecodeError> {
        Ok(
            BaseAccount {
                account_number: v.account_number,
                address: v.address,
                pub_key: v.pub_key,
                sequence: v.sequence,
            },
        )
    }
}

impl TryFrom<&BaseAccountJson> for BaseAccount {
    type Error = DecodeError;

    /// As for the owned conversion, from a borrowed wire shape.
    fn try_from(json: &BaseAccountJson) -> Result<BaseAccount, DecodeError> {
        Ok(
            BaseAccount {
                account_number: json.account_number,
                address: json.address.clone(),
                pub_key: clone_pub_key(&json.pub_key),
                sequence: json.sequence,
            },
        )
    }
}

impl vstd::std_specs::convert::TryFromSpecImpl<&BaseAccountJson> for BaseAccount {
    open spec fn obeys_try_from_spec() -> bool {
        true
    }

    open spec fn try_from_spec(v: &BaseAccountJson) -> Result<BaseAccount, DecodeError> {
        Ok(
            BaseAccount {
                account_number: v.account_number,
                address: v.address,
                pub_key: v.pub_key,
                sequence: v.sequence,
            },
        )
    }
}

/// The fixed tag needs no escaping, and is 32 characters long.
proof fn lemma_type_url_ok()
    ensures
        wire::str_ok(BaseAccount::TYPE_URL@),
        wire::esc(BaseAccount::TYPE_URL@) == BaseAccount::TYPE_URL@,
        BaseAccount::TYPE_URL@.len() == 32,
{
    reveal_strlit("/cosmos.auth.v1beta1.BaseAccount");
    wire::lemma_esc_id(BaseAccount::TYPE_URL@);
}

/// Law (round trip): decoding the canonical text of any record yields the
/// record back, exactly.  With the contract of `BaseAccount::to_json` and
/// `BaseAccount::from_json` this makes `from_json` after `to_json` the
/// identity on every record, and `to_json` after `from_json` the identity
/// on every canonical text.
pub proof fn lemma_account_round_trip(a: AccountView)
    ensures
        account_parse(account_text(a)) == Ok::<AccountView, DecodeError>(a),
{
    wire::lemma_wire_round_trip(wire_of(a));
    assert(account_of(wire_of(a)) =~= a);
}

/// The canonical text of a record without a key, with the `pub_key`
/// member omitted rather than written as `null`.
pub open spec fn account_text_no_key(a: AccountView) -> Seq<char> {
    wire::wire_text_no_key(wire_of(a))
}

/// Law (optional key): a text that omits the `pub_key` member decodes to
/// the same record as the canonical text that writes it as `null`; both
/// yield a record without a key.  Encoding such a record always writes
/// `null`.
pub proof fn lemma_parse_omitted_pub_key(a: AccountView)
    requires
        a.pub_key is None,
    ensures
        account_parse(account_text_no_key(a)) == Ok::<AccountView, DecodeError>(a),
        account_parse(account_text(a)) == Ok::<AccountView, DecodeError>(a),
{
    wire::lemma_wire_parse_omitted_key(wire_of(a));
    wire::lemma_wire_round_trip(wire_of(a));
    assert(account_of(wire_of(a)) =~= a);
}

/// Law (tag presence): every encoded record opens with the `@type` member
/// carrying the fixed tag, whatever the record holds.
pub proof fn lemma_tag_presence(a: AccountView)
    ensures
        account_text(a).subrange(0, 43) == "{\"@type\":\"/cosmos.auth.v1beta1.BaseAccount\""@,
{
    reveal_strlit("{\"");
    reveal_strlit("@type");
    reveal_strlit("\":\"");
    reveal_strlit("/cosmos.auth.v1beta1.BaseAccount");
    reveal_strlit("{\"@type\":\"/cosmos.auth.v1beta1.BaseAccount\"");
    lemma_type_url_ok();
    let t = account_text(a);
    let w = wire_of(a);
    wire::lemma_wire_text_tag(w);
    let tagged = "{\"@type\":\"/cosmos.auth.v1beta1.BaseAccount\""@;
    assert(t.len() >= 43) by {
        assert(t.subrange(10, 42).len() == 32);
    }
    assert forall|i: int| 0 <= i < 43 implies t.subrange(0, 43)[i] == tagged[i] by {
        assert(t.subrange(0, 43)[i] == t[i]);
        if i < 2 {
            assert(t[i] == t.subrange(0, 2)[i]);
        } else if i < 7 {
            assert(t[i] == t.subrange(2, 7)[i - 2]);
        } else if i < 10 {
            assert(t[i] == t.subrange(7, 10)[i - 7]);
        } else if i < 42 {
            assert(t[i] == t.subrange(10, 42)[i - 10]);
        }
    }
    assert(t.subrange(0, 43) =~= tagged);
}

impl BaseAccountJson {
    /// Renders the wire shape as its canonical JSON text: members in the
    /// fixed order, integers as decimal strings, no whitespace, and
    /// `pub_key` written as `null` when no key is present.
    pub fn render(&self) -> (r: String)
        ensures
            r@ == wire::wire_text(self@),
    {
        let mut r = String::new();
        r.append("{\"");
        r.append("@type");
        r.append("\":\"");
        wire::append_escaped(&mut r, self.type_url.as_str());
        r.append("\",\"");
        r.append("account_number");
        r.append("\":\"");
        let an = string_codec::serialize(self.account_number);
        r.append(an.as_str());
        r.append("\",\"");
        r.append("address");
        r.append("\":\"");
        wire::append_escaped(&mut r, self.address.as_str());
        r.append("\",\"");
        r.append("pub_key");
        r.append("\":");
        match &self.pub_key {
            Some(p) => {
                r.append("{\"");
                r.append("@type");
                r.append("\":\"");
                wire::append_escaped(&mut r, p.type_url.as_str());
                r.append("\",\"");
                r.append("key");
                r.append("\":\"");
                wire::append_escaped(&mut r, p.key.as_str());
                r.append("\"}");
            },
            None => {
                r.append("null");
            },
        }
        r.append(",\"");
        r.append("sequence");
        r.append("\":\"");
        let sq = string_codec::serialize(self.sequence);
        r.append(sq.as_str());
        r.append("\"}");
        proof {
            wire::lemma_render_text(self@, r@);
        }
        r
    }

    /// Parses wire JSON text into the wire shape.  The members may come
    /// in any order, with any whitespace between tokens, and strings may
    /// carry the short escape sequences; a duplicated or unknown member
    /// is refused.  The `@type` tag is taken as it stands, without
    /// comparing it to the record's own constant; `pub_key` may be an
    /// object, `null`, or absent.
    pub fn parse(s: &str) -> (r: Result<BaseAccountJson, DecodeError>)
        ensures
            match r {
                Ok(w) => wire::wire_parse(s@) == Ok::<WireView, DecodeError>(w@),
                Err(e) => wire::wire_parse(s@) == Err::<WireView, DecodeError>(e),
            },
    {
        let n = s.unicode_len();
        let i0 = wire::skip_ws_run(s, 0);
        if i0 == n {
            return Err(DecodeError::InvalidJson);
        }
        if s.get_char(i0) != '{' {
            return Err(DecodeError::InvalidJson);
        }
        let i1 = wire::skip_ws_run(s, i0 + 1);
        let empty = Parts { tag: None, account_number: None, address: None, pub_key: None, sequence: None };
        proof {
            assert(empty@ =~= wire::macc_empty());
        }
        let (parts, j) = match read_members(s, i1, empty, 5) {
            Ok(p) => p,
            Err(e) => {
                return Err(e);
            },
        };
        let j2 = wire::skip_ws_run(s, j);
        if j2 != n {
            return Err(DecodeError::InvalidJson);
        }
        match parts {
            Parts {
                tag: Some(tag),
                account_number: Some(account_number),
                address: Some(address),
                pub_key,
                sequence: Some(sequence),
            } => {
                let pk = match pub_key {
                    Some(x) => x,
                    None => None,
                };
                let w = BaseAccountJson { type_url: tag, account_number, address, pub_key: pk, sequence };
                proof {
                    assert(wire::wire_parse(s@)->Ok_0 =~= w@);
                }
                Ok(w)
            },
            _ => Err(DecodeError::InvalidJson),
        }
    }
}

/// What has been read of the object so far, as values: one slot per
/// member.
struct Parts {
    tag: Option<String>,
    account_number: Option<u64>,
    address: Option<String>,
    pub_key: Option<Option<PublicKey>>,
    sequence: Option<u64>,
}

impl View for Parts {
    type V = wire::MAcc;

    closed spec fn view(&self) -> wire::MAcc {
        wire::MAcc {
            tag: match self.tag {
                Some(x) => Some(x@),
                None => None,
            },
            account_number: self.account_number,
            address: match self.address {
                Some(x) => Some(x@),
                None => None,
            },
            pub_key: match self.pub_key {
                Some(Some(p)) => Some(Some(p@)),
                Some(None) => Some(None),
                None => None,
            },
            sequence: self.sequence,
        }
    }
}

/// The view of an optional owned string.
pub open spec fn opt_str_view(o: Option<String>) -> Option<Seq<char>> {
    match o {
        Some(x) => Some(x@),
        None => None,
    }
}

/// Reads a string value: an opening quote, then contents to the closing
/// quote.
fn read_str_value(s: &str, v: usize) -> (r: Option<(String, usize)>)
    requires
        v <= s@.len(),
    ensures
        match r {
            Some(p) => wire::parse_str_value(s@, v as int) == Some((p.0@, p.1 as int)) && p.1
                <= s@.len(),
            None => wire::parse_str_value(s@, v as int) is None,
        },
{
    let n = s.unicode_len();
    if v == n {
        return None;
    }
    if s.get_char(v) != '"' {
        return None;
    }
    wire::scan_string(s, v + 1)
}

/// Reads the members of a `pub_key` object, from the opening quote of a
/// member name.
fn read_pk_members(
    s: &str,
    i: usize,
    ptag: Option<String>,
    pkey: Option<String>,
    fuel: u8,
) -> (r: Result<(PublicKey, usize), DecodeError>)
    requires
        i <= s@.len(),
    ensures
        match r {
            Ok(p) => wire::parse_pk_members(
                s@,
                i as int,
                opt_str_view(ptag),
                opt_str_view(pkey),
                fuel as nat,
            ) == Ok::<(PubKeyView, int), DecodeError>((p.0@, p.1 as int)) && p.1 <= s@.len(),
            Err(e) => wire::parse_pk_members(
                s@,
                i as int,
                opt_str_view(ptag),
                opt_str_view(pkey),
                fuel as nat,
            ) == Err::<(PubKeyView, int), DecodeError>(e),
        },
    decreases fuel as int, 1int,
{
    if fuel == 0 {
        return Err(DecodeError::InvalidJson);
    }
    let n = s.unicode_len();
    if i == n {
        return Err(DecodeError::InvalidJson);
    }
    if s.get_char(i) != '"' {
        return Err(DecodeError::InvalidJson);
    }
    let (name, p) = match wire::scan_string(s, i + 1) {
        Some(x) => x,
        None => {
            return Err(DecodeError::InvalidJson);
        },
    };
    let q = wire::skip_ws_run(s, p);
    if q == n {
        return Err(DecodeError::InvalidJson);
    }
    if s.get_char(q) != ':' {
        return Err(DecodeError::InvalidJson);
    }
    let v = wire::skip_ws_run(s, q + 1);
    if wire::str_eq(name.as_str(), "@type") {
        if ptag.is_some() {
            return Err(DecodeError::InvalidJson);
        }
        let (sv, j) = match read_str_value(s, v) {
            Some(x) => x,
            None => {
                return Err(DecodeError::InvalidJson);
            },
        };
        read_pk_tail(s, Some(sv), pkey, j, fuel)
    } else if wire::str_eq(name.as_str(), "key") {
        if pkey.is_some() {
            return Err(DecodeError::InvalidJson);
        }
        let (sv, j) = match read_str_value(s, v) {
            Some(x) => x,
            None => {
                return Err(DecodeError::InvalidJson);
            },
        };
        read_pk_tail(s, ptag, Some(sv), j, fuel)
    } else {
        Err(DecodeError::InvalidJson)
    }
}

/// After one member of a `pub_key` object: continue at a comma, finish at
/// the closing brace.
fn read_pk_tail(
    s: &str,
    ptag: Option<String>,
    pkey: Option<String>,
    j: usize,
    fuel: u8,
) -> (r: Result<(PublicKey, usize), DecodeError>)
    requires
        j <= s@.len(),
    ensures
        match r {
            Ok(p) => wire::pk_members_tail(
                s@,
                opt_str_view(ptag),
                opt_str_view(pkey),
                j as int,
                fuel as nat,
            ) == Ok::<(PubKeyView, int), DecodeError>((p.0@, p.1 as int)) && p.1 <= s@.len(),
            Err(e) => wire::pk_members_tail(
                s@,
                opt_str_view(ptag),
                opt_str_view(pkey),
                j as int,
                fuel as nat,
            ) == Err::<(PubKeyView, int), DecodeError>(e),
        },
    decreases fuel as int, 0int,
{
    let n = s.unicode_len();
    let r2 = wire::skip_ws_run(s, j);
    if r2 < n && s.get_char(r2) == ',' {
        if fuel == 0 {
            return Err(DecodeError::InvalidJson);
        }
        let n2 = wire::skip_ws_run(s, r2 + 1);
        read_pk_members(s, n2, ptag, pkey, fuel - 1)
    } else if r2 < n && s.get_char(r2) == '}' {
        match (ptag, pkey) {
            (Some(a), Some(b)) => Ok((PublicKey { type_url: a, key: b }, r2 + 1)),
            _ => Err(DecodeError::InvalidJson),
        }
    } else {
        Err(DecodeError::InvalidJson)
    }
}

/// Reads the value of the `pub_key` member: `null`, or the key's own
/// object.
fn read_pk_value(s: &str, v: usize) -> (r: Result<(Option<PublicKey>, usize), DecodeError>)
    requires
        v <= s@.len(),
    ensures
        match r {
            Ok(p) => wire::parse_pk_value(s@, v as int) == Ok::<
                (Option<PubKeyView>, int),
                DecodeError,
            >(
                (
                    match p.0 {
                        Some(k) => Some(k@),
                        None => None,
                    },
                    p.1 as int,
                ),
            ) && p.1 <= s@.len(),
            Err(e) => wire::parse_pk_value(s@, v as int) == Err::<
                (Option<PubKeyView>, int),
                DecodeError,
            >(e),
        },
{
    let n = s.unicode_len();
    proof {
        reveal_strlit("null");
    }
    match wire::expect_lit(s, v, "null") {
        Some(j) => Ok((None, j)),
        None => {
            if v == n {
                return Err(DecodeError::InvalidJson);
            }
            if s.get_char(v) != '{' {
                return Err(DecodeError::InvalidJson);
            }
            let i2 = wire::skip_ws_run(s, v + 1);
            match read_pk_members(s, i2, None, None, 2) {
                Ok((p, j)) => Ok((Some(p), j)),
                Err(e) => Err(e),
            }
        },
    }
}

/// Reads the members of the account object, from the opening quote of a
/// member name.
fn read_members(s: &str, i: usize, m: Parts, fuel: u8) -> (r: Result<
    (Parts, usize),
    DecodeError,
>)
    requires
        i <= s@.len(),
    ensures
        match r {
            Ok(p) => wire::parse_members(s@, i as int, m@, fuel as nat) == Ok::<
                (wire::MAcc, int),
                DecodeError,
            >((p.0@, p.1 as int)) && p.1 <= s@.len(),
            Err(e) => wire::parse_members(s@, i as int, m@, fuel as nat) == Err::<
                (wire::MAcc, int),
                DecodeError,
            >(e),
        },
    decreases fuel as int,
{
    if fuel == 0 {
        return Err(DecodeError::InvalidJson);
    }
    let n = s.unicode_len();
    if i == n {
        return Err(DecodeError::InvalidJson);
    }
    if s.get_char(i) != '"' {
        return Err(DecodeError::InvalidJson);
    }
    let (name, p) = match wire::scan_string(s, i + 1) {
        Some(x) => x,
        None => {
            return Err(DecodeError::InvalidJson);
        },
    };
    let q = wire::skip_ws_run(s, p);
    if q == n {
        return Err(DecodeError::InvalidJson);
    }
    if s.get_char(q) != ':' {
        return Err(DecodeError::InvalidJson);
    }
    let v = wire::skip_ws_run(s, q + 1);
    let one = read_one_member(s, v, name, m);
    let (m2, j) = match one {
        Ok(x) => x,
        Err(e) => {
            return Err(e);
        },
    };
    let r2 = wire::skip_ws_run(s, j);
    if r2 < n && s.get_char(r2) == ',' {
        let n2 = wire::skip_ws_run(s, r2 + 1);
        read_members(s, n2, m2, fuel - 1)
    } else if r2 < n && s.get_char(r2) == '}' {
        Ok((m2, r2 + 1))
    } else {
        Err(DecodeError::InvalidJson)
    }
}

/// Reads one member of the account object, its name already read and its
/// value starting at `v`.
fn read_one_member(s: &str, v: usize, name: String, m: Parts) -> (r: Result<
    (Parts, usize),
    DecodeError,
>)
    requires
        v <= s@.len(),
    ensures
        match r {
            Ok(p) => wire::parse_one_member(s@, v as int, name@, m@) == Ok::<
                (wire::MAcc, int),
                DecodeError,
            >((p.0@, p.1 as int)) && p.1 <= s@.len(),
            Err(e) => wire::parse_one_member(s@, v as int, name@, m@) == Err::<
                (wire::MAcc, int),
                DecodeError,
            >(e),
        },
{
    if wire::str_eq(name.as_str(), "@type") {
        if m.tag.is_some() {
            return Err(DecodeError::InvalidJson);
        }
        match read_str_value(s, v) {
            Some((sv, j)) => Ok((Parts { tag: Some(sv), ..m }, j)),
            None => Err(DecodeError::InvalidJson),
        }
    } else if wire::str_eq(name.as_str(), "account_number") {
        if m.account_number.is_some() {
            return Err(DecodeError::InvalidJson);
        }
        match read_str_value(s, v) {
            Some((sv, j)) => match string_codec::deserialize(sv.as_str()) {
                Ok(u) => Ok((Parts { account_number: Some(u), ..m }, j)),
                Err(e) => Err(e),
            },
            None => Err(DecodeError::InvalidJson),
        }
    } else if wire::str_eq(name.as_str(), "address") {
        if m.address.is_some() {
            return Err(DecodeError::InvalidJson);
        }
        match read_str_value(s, v) {
            Some((sv, j)) => Ok((Parts { address: Some(sv), ..m }, j)),
            None => Err(DecodeError::InvalidJson),
        }
    } else if wire::str_eq(name.as_str(), "sequence") {
        if m.sequence.is_some() {
            return Err(DecodeError::InvalidJson);
        }
        match read_str_value(s, v) {
            Some((sv, j)) => match string_codec::deserialize(sv.as_str()) {
                Ok(u) => Ok((Parts { sequence: Some(u), ..m }, j)),
                Err(e) => Err(e),
            },
            None => Err(DecodeError::InvalidJson),
        }
    } else if wire::str_eq(name.as_str(), "pub_key") {
        if m.pub_key.is_some() {
            return Err(DecodeError::InvalidJson);
        }
        match read_pk_value(s, v) {
            Ok((pk, j)) => Ok((Parts { pub_key: Some(pk), ..m }, j)),
            Err(e) => Err(e),
        }
    } else {
        Err(DecodeError::InvalidJson)
    }
}

/// A query for the account standing at an address: a plain data carrier
/// for an outer query layer.
#[derive(Clone, Debug, PartialEq, Eq)]
pub struct QueryAccountRequest {
    pub address: String,
}

/// The answer to an account query: the account, if one exists.
#[derive(Clone, Debug, PartialEq, Eq)]
pub struct QueryAccountResponse {
    pub account: Option<BaseAccount>,
}

} // verus!
