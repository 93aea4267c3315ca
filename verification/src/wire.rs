//! The wire grammar of the account record.
//!
//! A record travels as one JSON object with the members `@type` (a string
//! tag), `account_number` (a string of decimal digits), `address` (a
//! string), `pub_key` (an object of the key's own shape, or `null`, or
//! absent), and `sequence` (a string of decimal digits).  The parser takes
//! the members in any order, with any whitespace between tokens, and reads
//! the short escape sequences inside strings; it rejects a duplicated or
//! unknown member, a `\u` escape, and a missing required member.  The
//! encoder writes the canonical text: members in the fixed order, no
//! whitespace, `pub_key` as `null` when absent, and only the quote and the
//! backslash escaped.

use vstd::prelude::*;

use crate::string_codec::all_digits;
use crate::string_codec::dec_digits;
use crate::string_codec::digits_ok;
use crate::string_codec::digits_val;
use crate::string_codec::is_digit;
use crate::DecodeError;

verus! {

/// The mathematical content of a public key on the wire: its own `@type`
/// tag and its base64 `key` payload.
#[verifier::ext_equal]
pub struct PubKeyView {
    pub type_url: Seq<char>,
    pub key: Seq<char>,
}

/// The mathematical content of the wire object.
#[verifier::ext_equal]
pub struct WireView {
    pub type_url: Seq<char>,
    pub account_number: u64,
    pub address: Seq<char>,
    pub pub_key: Option<PubKeyView>,
    pub sequence: u64,
}

/// JSON whitespace: what may stand between tokens.
pub open spec fn is_ws(c: char) -> bool {
    c == ' ' || c == '\t' || c == '\n' || c == '\r'
}

/// The first position at or after `i` that does not hold whitespace.
pub open spec fn skip_ws(t: Seq<char>, i: int) -> int
    decreases t.len() - i,
{
    if i < 0 || i >= t.len() {
        i
    } else if is_ws(t[i]) {
        skip_ws(t, i + 1)
    } else {
        i
    }
}

/// A character that the encoder writes without an escape: anything but
/// the delimiting quote and the backslash.
pub open spec fn ok_char(c: char) -> bool {
    c != '"' && c != '\\'
}

/// Every character of `s` is written without an escape.
pub open spec fn str_ok(s: Seq<char>) -> bool {
    forall|i: int| 0 <= i < s.len() ==> ok_char(#[trigger] s[i])
}

/// How the encoder writes one character inside a JSON string: the quote
/// and the backslash get a backslash before them, everything else stands
/// as it is.
pub open spec fn esc_char(c: char) -> Seq<char> {
    if c == '"' {
        seq!['\\', '"']
    } else if c == '\\' {
        seq!['\\', '\\']
    } else {
        seq![c]
    }
}

/// How the encoder writes a whole string's contents.
pub open spec fn esc(s: Seq<char>) -> Seq<char>
    decreases s.len(),
{
    if s.len() == 0 {
        Seq::empty()
    } else {
        esc_char(s[0]) + esc(s.subrange(1, s.len() as int))
    }
}

/// The character denoted by a short escape sequence `\e`, or `None` when
/// `e` opens no escape this parser takes.
pub open spec fn unesc_char(e: char) -> Option<char> {
    if e == '"' {
        Some('"')
    } else if e == '\\' {
        Some('\\')
    } else if e == '/' {
        Some('/')
    } else if e == 'n' {
        Some('\n')
    } else if e == 't' {
        Some('\t')
    } else if e == 'r' {
        Some('\r')
    } else if e == 'b' {
        Some('\u{8}')
    } else if e == 'f' {
        Some('\u{c}')
    } else {
        None
    }
}

/// Reads a string's contents from position `i` (just after the opening
/// quote) to the closing quote, undoing escapes.  Yields the denoted
/// contents and the position after the closing quote.
pub open spec fn scan_str(t: Seq<char>, i: int) -> Option<(Seq<char>, int)>
    decreases t.len() - i,
{
    if i < 0 || i >= t.len() {
        None
    } else if t[i] == '"' {
        Some((Seq::empty(), i + 1))
    } else if t[i] == '\\' {
        if i + 1 >= t.len() {
            None
        } else {
            match unesc_char(t[i + 1]) {
                Some(c) => match scan_str(t, i + 2) {
                    Some((s, j)) => Some((seq![c] + s, j)),
                    None => None,
                },
                None => None,
            }
        }
    } else {
        match scan_str(t, i + 1) {
            Some((s, j)) => Some((seq![t[i]] + s, j)),
            None => None,
        }
    }
}

/// The literal `lit` stands in `t` at position `i`.
pub open spec fn lit_at(t: Seq<char>, i: int, lit: Seq<char>) -> bool {
    0 <= i && i + lit.len() <= t.len() && t.subrange(i, i + lit.len()) == lit
}

/// A string value: an opening quote at `i`, then contents to the closing
/// quote.
pub open spec fn parse_str_value(t: Seq<char>, i: int) -> Option<(Seq<char>, int)> {
    if 0 <= i < t.len() && t[i] == '"' {
        scan_str(t, i + 1)
    } else {
        None
    }
}

/// What has been read of the object so far: one slot per member, `None`
/// while the member has not appeared.
#[verifier::ext_equal]
pub struct MAcc {
    pub tag: Option<Seq<char>>,
    pub account_number: Option<u64>,
    pub address: Option<Seq<char>>,
    pub pub_key: Option<Option<PubKeyView>>,
    pub sequence: Option<u64>,
}

/// No member read yet.
pub open spec fn macc_empty() -> MAcc {
    MAcc { tag: None, account_number: None, address: None, pub_key: None, sequence: None }
}

/// The members of a `pub_key` object, from the opening quote of a member
/// name at `i`.  Both `@type` and `key` must appear, once each, in either
/// order; `fuel` bounds the member count, and two suffice, since a third
/// member would repeat one or be unknown.
pub open spec fn parse_pk_members(
    t: Seq<char>,
    i: int,
    ptag: Option<Seq<char>>,
    pkey: Option<Seq<char>>,
    fuel: nat,
) -> Result<(PubKeyView, int), DecodeError>
    decreases fuel, 1nat,
{
    if fuel == 0 {
        Err(DecodeError::InvalidJson)
    } else if !(0 <= i < t.len() && t[i] == '"') {
        Err(DecodeError::InvalidJson)
    } else {
        match scan_str(t, i + 1) {
            None => Err(DecodeError::InvalidJson),
            Some((name, p)) => {
                let q = skip_ws(t, p);
                if !(q < t.len() && t[q] == ':') {
                    Err(DecodeError::InvalidJson)
                } else {
                    let v = skip_ws(t, q + 1);
                    if name == "@type"@ {
                        if ptag is Some {
                            Err(DecodeError::InvalidJson)
                        } else {
                            match parse_str_value(t, v) {
                                None => Err(DecodeError::InvalidJson),
                                Some((s, j)) => pk_members_tail(t, Some(s), pkey, j, fuel),
                            }
                        }
                    } else if name == "key"@ {
                        if pkey is Some {
                            Err(DecodeError::InvalidJson)
                        } else {
                            match parse_str_value(t, v) {
                                None => Err(DecodeError::InvalidJson),
                                Some((s, j)) => pk_members_tail(t, ptag, Some(s), j, fuel),
                            }
                        }
                    } else {
                        Err(DecodeError::InvalidJson)
                    }
                }
            },
        }
    }
}

/// After one member of a `pub_key` object: a comma continues with the
/// next member, a closing brace ends the object if both members have
/// appeared.
pub open spec fn pk_members_tail(
    t: Seq<char>,
    ptag: Option<Seq<char>>,
    pkey: Option<Seq<char>>,
    j: int,
    fuel: nat,
) -> Result<(PubKeyView, int), DecodeError>
    decreases fuel, 0nat,
{
    let r = skip_ws(t, j);
    if r < t.len() && t[r] == ',' {
        if fuel == 0 {
            Err(DecodeError::InvalidJson)
        } else {
            parse_pk_members(t, skip_ws(t, r + 1), ptag, pkey, (fuel - 1) as nat)
        }
    } else if r < t.len() && t[r] == '}' {
        match (ptag, pkey) {
            (Some(a), Some(b)) => Ok((PubKeyView { type_url: a, key: b }, r + 1)),
            _ => Err(DecodeError::InvalidJson),
        }
    } else {
        Err(DecodeError::InvalidJson)
    }
}

/// The value of the `pub_key` member: `null` for no key, or the key's own
/// object.
pub open spec fn parse_pk_value(t: Seq<char>, i: int) -> Result<
    (Option<PubKeyView>, int),
    DecodeError,
> {
    if lit_at(t, i, "null"@) {
        Ok((None, i + 4))
    } else if 0 <= i < t.len() && t[i] == '{' {
        match parse_pk_members(t, skip_ws(t, i + 1), None, None, 2) {
            Ok((p, j)) => Ok((Some(p), j)),
            Err(e) => Err(e),
        }
    } else {
        Err(DecodeError::InvalidJson)
    }
}

/// One member of the account object, with its name already read and its
/// value starting at `v`.  A duplicated or unknown member is refused; a
/// numeric member whose string is not an unsigned 64-bit decimal is
/// `MalformedNumber`.
pub open spec fn parse_one_member(t: Seq<char>, v: int, name: Seq<char>, m: MAcc) -> Result<
    (MAcc, int),
    DecodeError,
> {
    if name == "@type"@ {
        if m.tag is Some {
            Err(DecodeError::InvalidJson)
        } else {
            match parse_str_value(t, v) {
                Some((s, j)) => Ok((MAcc { tag: Some(s), ..m }, j)),
                None => Err(DecodeError::InvalidJson),
            }
        }
    } else if name == "account_number"@ {
        if m.account_number is Some {
            Err(DecodeError::InvalidJson)
        } else {
            match parse_str_value(t, v) {
                Some((s, j)) => if digits_ok(s) {
                    Ok((MAcc { account_number: Some(digits_val(s) as u64), ..m }, j))
                } else {
                    Err(DecodeError::MalformedNumber)
                },
                None => Err(DecodeError::InvalidJson),
            }
        }
    } else if name == "address"@ {
        if m.address is Some {
            Err(DecodeError::InvalidJson)
        } else {
            match parse_str_value(t, v) {
                Some((s, j)) => Ok((MAcc { address: Some(s), ..m }, j)),
                None => Err(DecodeError::InvalidJson),
            }
        }
    } else if name == "sequence"@ {
        if m.sequence is Some {
            Err(DecodeError::InvalidJson)
        } else {
            match parse_str_value(t, v) {
                Some((s, j)) => if digits_ok(s) {
                    Ok((MAcc { sequence: Some(digits_val(s) as u64), ..m }, j))
                } else {
                    Err(DecodeError::MalformedNumber)
                },
                None => Err(DecodeError::InvalidJson),
            }
        }
    } else if name == "pub_key"@ {
        if m.pub_key is Some {
            Err(DecodeError::InvalidJson)
        } else {
            match parse_pk_value(t, v) {
                Ok((pk, j)) => Ok((MAcc { pub_key: Some(pk), ..m }, j)),
                Err(e) => Err(e),
            }
        }
    } else {
        Err(DecodeError::InvalidJson)
    }
}

/// The members of the account object, from the opening quote of a member
/// name at `i`.  `fuel` bounds the member count; five suffice, since a
/// sixth member would repeat one or be unknown.
pub open spec fn parse_members(t: Seq<char>, i: int, m: MAcc, fuel: nat) -> Result<
    (MAcc, int),
    DecodeError,
>
    decreases fuel,
{
    if fuel == 0 {
        Err(DecodeError::InvalidJson)
    } else if !(0 <= i < t.len() && t[i] == '"') {
        Err(DecodeError::InvalidJson)
    } else {
        match scan_str(t, i + 1) {
            None => Err(DecodeError::InvalidJson),
            Some((name, p)) => {
                let q = skip_ws(t, p);
                if !(q < t.len() && t[q] == ':') {
                    Err(DecodeError::InvalidJson)
                } else {
                    match parse_one_member(t, skip_ws(t, q + 1), name, m) {
                        Err(e) => Err(e),
                        Ok((m2, j)) => {
                            let r = skip_ws(t, j);
                            if r < t.len() && t[r] == ',' {
                                parse_members(t, skip_ws(t, r + 1), m2, (fuel - 1) as nat)
                            } else if r < t.len() && t[r] == '}' {
                                Ok((m2, r + 1))
                            } else {
                                Err(DecodeError::InvalidJson)
                            }
                        },
                    }
                }
            },
        }
    }
}

/// What decoding the text `t` yields: the wire object it denotes, or the
/// error that classifies the failure.  `InvalidJson` names a text not of
/// the object's shape or missing a required member, `MalformedNumber` a
/// numeric member whose string is not an unsigned 64-bit decimal.  The
/// `pub_key` member may be absent, `null`, or an object; the `@type` tag
/// is taken as it stands.
pub open spec fn wire_parse(t: Seq<char>) -> Result<WireView, DecodeError> {
    let i0 = skip_ws(t, 0);
    if !(i0 < t.len() && t[i0] == '{') {
        Err(DecodeError::InvalidJson)
    } else {
        match parse_members(t, skip_ws(t, i0 + 1), macc_empty(), 5) {
            Err(e) => Err(e),
            Ok((m, j)) => if skip_ws(t, j) != t.len() {
                Err(DecodeError::InvalidJson)
            } else {
                match (m.tag, m.account_number, m.address, m.sequence) {
                    (Some(tag), Some(an), Some(addr), Some(sq)) => Ok(
                        WireView {
                            type_url: tag,
                            account_number: an,
                            address: addr,
                            pub_key: match m.pub_key {
                                Some(pk) => pk,
                                None => None,
                            },
                            sequence: sq,
                        },
                    ),
                    _ => Err(DecodeError::InvalidJson),
                }
            },
        }
    }
}

/// The canonical text of the wire object `w`: members in the fixed order,
/// no whitespace, strings escaped, `pub_key` written as `null` when no key
/// is present.  The concatenation is grouped to the right so that proofs
/// can peel it one piece at a time.
pub open spec fn wire_text(w: WireView) -> Seq<char> {
    match w.pub_key {
        None => "{\""@ + ("@type"@ + ("\":\""@ + (esc(w.type_url) + ("\",\""@ + ("account_number"@
            + ("\":\""@ + (dec_digits(w.account_number as nat) + ("\",\""@ + ("address"@ + (
        "\":\""@ + (esc(w.address) + ("\",\""@ + ("pub_key"@ + ("\":"@ + ("null"@ + (",\""@ + (
        "sequence"@ + ("\":\""@ + (dec_digits(w.sequence as nat) + "\"}"@))))))))))))))))))),
        Some(p) => "{\""@ + ("@type"@ + ("\":\""@ + (esc(w.type_url) + ("\",\""@ + (
        "account_number"@ + ("\":\""@ + (dec_digits(w.account_number as nat) + ("\",\""@ + (
        "address"@ + ("\":\""@ + (esc(w.address) + ("\",\""@ + ("pub_key"@ + ("\":"@ + ("{\""@ + (
        "@type"@ + ("\":\""@ + (esc(p.type_url) + ("\",\""@ + ("key"@ + ("\":\""@ + (esc(p.key) + (
        "\"}"@ + (",\""@ + ("sequence"@ + ("\":\""@ + (dec_digits(w.sequence as nat)
            + "\"}"@))))))))))))))))))))))))))),
    }
}

/// The canonical text of a record without a key, with the `pub_key`
/// member omitted rather than written as `null`.  The parser accepts this
/// form too; only `wire_text` is ever produced.
pub open spec fn wire_text_no_key(w: WireView) -> Seq<char> {
    "{\""@ + ("@type"@ + ("\":\""@ + (esc(w.type_url) + ("\",\""@ + ("account_number"@ + ("\":\""@
        + (dec_digits(w.account_number as nat) + ("\",\""@ + ("address"@ + ("\":\""@ + (esc(
        w.address,
    ) + ("\",\""@ + ("sequence"@ + ("\":\""@ + (dec_digits(w.sequence as nat)
        + "\"}"@)))))))))))))))
}

/// Seeks the literal `lit` in `s` at position `i`, comparing character by
/// character.
pub(crate) fn expect_lit(s: &str, i: usize, lit: &str) -> (r: Option<usize>)
    ensures
        match r {
            Some(j) => lit_at(s@, i as int, lit@) && j as int == i + lit@.len() && j <= s@.len(),
            None => !lit_at(s@, i as int, lit@),
        },
{
    let n = lit.unicode_len();
    let sl = s.unicode_len();
    if n > sl || i > sl - n {
        return None;
    }
    let mut k: usize = 0;
    while k < n
        invariant
            k <= n,
            n == lit@.len(),
            sl == s@.len(),
            i + n <= sl,
            forall|m: int| 0 <= m < k ==> s@[i + m] == lit@[m],
        decreases n - k,
    {
        let a = s.get_char(i + k);
        let b = lit.get_char(k);
        if a != b {
            proof {
                if lit_at(s@, i as int, lit@) {
                    assert(s@.subrange(i as int, i + n as int)[k as int] == lit@[k as int]);
                    assert(s@.subrange(i as int, i + n as int)[k as int] == s@[i + k]);
                }
            }
            return None;
        }
        k = k + 1;
    }
    proof {
        assert(s@.subrange(i as int, i + n as int) =~= lit@);
    }
    Some(i + n)
}

/// Whether two texts hold the same characters.
pub(crate) fn str_eq(a: &str, b: &str) -> (r: bool)
    ensures
        r == (a@ == b@),
{
    let n = a.unicode_len();
    if n != b.unicode_len() {
        return false;
    }
    let mut k: usize = 0;
    while k < n
        invariant
            k <= n,
            n == a@.len(),
            n == b@.len(),
            forall|m: int| 0 <= m < k ==> a@[m] == b@[m],
        decreases n - k,
    {
        if a.get_char(k) != b.get_char(k) {
            return false;
        }
        k = k + 1;
    }
    proof {
        assert(a@ =~= b@);
    }
    true
}

/// Advances past whitespace.
pub(crate) fn skip_ws_run(s: &str, i: usize) -> (j: usize)
    requires
        i <= s@.len(),
    ensures
        j as int == skip_ws(s@, i as int),
        i <= j <= s@.len(),
{
    let n = s.unicode_len();
    let mut j = i;
    loop
        invariant
            i <= j <= n,
            n == s@.len(),
            skip_ws(s@, i as int) == skip_ws(s@, j as int),
        decreases n - j,
    {
        if j == n {
            return j;
        }
        let c = s.get_char(j);
        if !(c == ' ' || c == '\t' || c == '\n' || c == '\r') {
            return j;
        }
        j = j + 1;
    }
}

/// Collects a string's contents from position `i` (just after the opening
/// quote) to the closing quote, undoing escapes.
pub(crate) fn scan_string(s: &str, i: usize) -> (r: Option<(String, usize)>)
    requires
        i <= s@.len(),
    ensures
        match r {
            Some(p) => scan_str(s@, i as int) == Some((p.0@, p.1 as int)) && i < p.1 <= s@.len(),
            None => scan_str(s@, i as int) is None,
        },
{
    let n = s.unicode_len();
    let mut out = String::new();
    let mut j = i;
    proof {
        lemma_scan_str_bounds(s@, i as int);
        if scan_str(s@, i as int) is Some {
            let p2 = scan_str(s@, i as int)->Some_0;
            assert(Seq::<char>::empty() + p2.0 =~= p2.0);
        }
    }
    loop
        invariant
            i <= j <= n,
            n == s@.len(),
            match scan_str(s@, j as int) {
                Some(p2) => scan_str(s@, i as int) == Some((out@ + p2.0, p2.1)) && j < p2.1
                    <= s@.len(),
                None => scan_str(s@, i as int) is None,
            },
        decreases n - j,
    {
        proof {
            lemma_scan_str_bounds(s@, j as int);
        }
        if j == n {
            return None;
        }
        let c = s.get_char(j);
        if c == '"' {
            proof {
                assert(out@ + Seq::<char>::empty() =~= out@);
            }
            return Some((out, j + 1));
        }
        if c == '\\' {
            if j + 1 == n {
                return None;
            }
            let ghost out0 = out@;
            proof {
                reveal_strlit("\"");
                reveal_strlit("\\");
                reveal_strlit("/");
                reveal_strlit("\n");
                reveal_strlit("\t");
                reveal_strlit("\r");
                reveal_strlit("\u{8}");
                reveal_strlit("\u{c}");
            }
            let e = s.get_char(j + 1);
            match e {
                '"' => out.append("\""),
                '\\' => out.append("\\"),
                '/' => out.append("/"),
                'n' => out.append("\n"),
                't' => out.append("\t"),
                'r' => out.append("\r"),
                'b' => out.append("\u{8}"),
                'f' => out.append("\u{c}"),
                _ => {
                    return None;
                },
            }
            proof {
                lemma_scan_str_bounds(s@, j + 2);
                let u = unesc_char(s@[j + 1])->Some_0;
                assert(out@ =~= out0 + seq![u]);
                if scan_str(s@, j + 2) is Some {
                    let p2 = scan_str(s@, j + 2)->Some_0;
                    assert(scan_str(s@, j as int) == Some((seq![u] + p2.0, p2.1)));
                    assert(out0 + (seq![u] + p2.0) =~= (out0 + seq![u]) + p2.0);
                } else {
                    assert(scan_str(s@, j as int) is None);
                }
            }
            j = j + 2;
        } else {
            let ghost out0 = out@;
            let piece = s.substring_char(j, j + 1);
            out.append(piece);
            proof {
                lemma_scan_str_bounds(s@, j + 1);
                assert(piece@ =~= seq![s@[j as int]]);
                assert(out@ =~= out0 + seq![s@[j as int]]);
                if scan_str(s@, j + 1) is Some {
                    let p2 = scan_str(s@, j + 1)->Some_0;
                    assert(scan_str(s@, j as int) == Some((seq![s@[j as int]] + p2.0, p2.1)));
                    assert(out0 + (seq![s@[j as int]] + p2.0) =~= (out0 + seq![s@[j as int]])
                        + p2.0);
                } else {
                    assert(scan_str(s@, j as int) is None);
                }
            }
            j = j + 1;
        }
    }
}

/// A successful scan ends after its start and inside the text.
pub proof fn lemma_scan_str_bounds(t: Seq<char>, i: int)
    ensures
        match scan_str(t, i) {
            Some(p) => i < p.1 <= t.len(),
            None => true,
        },
    decreases t.len() - i,
{
    if 0 <= i < t.len() {
        if t[i] == '"' {
        } else if t[i] == '\\' {
            if i + 1 < t.len() {
                lemma_scan_str_bounds(t, i + 2);
            }
        } else {
            lemma_scan_str_bounds(t, i + 1);
        }
    }
}

/// A digit run needs no escaping.
proof fn lemma_digits_str_ok(s: Seq<char>)
    requires
        all_digits(s),
    ensures
        str_ok(s),
{
    assert forall|i: int| 0 <= i < s.len() implies ok_char(#[trigger] s[i]) by {
        assert(is_digit(s[i]));
    }
}

/// Concatenation of texts is associative.
proof fn lemma_assoc(a: Seq<char>, b: Seq<char>, c: Seq<char>)
    ensures
        (a + b) + c == a + (b + c),
{
    assert((a + b) + c =~= a + (b + c));
}

/// A text is the subrange that spans all of it.
proof fn lemma_subrange_all(t: Seq<char>)
    ensures
        t.subrange(0, t.len() as int) == t,
{
    assert(t.subrange(0, t.len() as int) =~= t);
}

/// One character of a piece that stands in `t` at position `o`.
proof fn lemma_char_at(t: Seq<char>, o: int, piece: Seq<char>, i: int)
    requires
        0 <= o,
        0 <= i < piece.len(),
        o + piece.len() <= t.len(),
        t.subrange(o, o + piece.len()) == piece,
    ensures
        t[o + i] == piece[i],
{
    assert(t.subrange(o, o + piece.len())[i] == t[o + i]);
}

/// Peels the leading piece off the part of `t` that starts at `o`.
proof fn lemma_peel(t: Seq<char>, o: int, piece: Seq<char>, rest: Seq<char>)
    requires
        0 <= o <= t.len(),
        t.subrange(o, t.len() as int) == piece + rest,
    ensures
        o + piece.len() + rest.len() == t.len(),
        t.subrange(o, o + piece.len()) == piece,
        t.subrange(o + piece.len(), t.len() as int) == rest,
{
    assert(t.subrange(o, t.len() as int).len() == piece.len() + rest.len());
    assert(t.subrange(o, o + piece.len()) =~= piece) by {
        assert forall|i: int| 0 <= i < piece.len() implies t.subrange(o, o + piece.len())[i]
            == piece[i] by {
            assert((piece + rest)[i] == piece[i]);
            assert(t.subrange(o, t.len() as int)[i] == (piece + rest)[i]);
            assert(t.subrange(o, t.len() as int)[i] == t[o + i]);
            assert(t.subrange(o, o + piece.len())[i] == t[o + i]);
        }
    }
    assert(t.subrange(o + piece.len(), t.len() as int) =~= rest) by {
        assert forall|i: int| 0 <= i < rest.len() implies t.subrange(
            o + piece.len(),
            t.len() as int,
        )[i] == rest[i] by {
            assert(t.subrange(o, t.len() as int)[piece.len() + i] == (piece + rest)[piece.len()
                + i]);
            assert((piece + rest)[piece.len() + i] == rest[i]);
            assert(t.subrange(o, t.len() as int)[piece.len() + i] == t[o + piece.len() + i]);
            assert(t.subrange(o + piece.len(), t.len() as int)[i] == t[o + piece.len() + i]);
        }
    }
}

/// Escaping distributes over appending one character.
pub proof fn lemma_esc_push(s: Seq<char>, c: char)
    ensures
        esc(s.push(c)) == esc(s) + esc_char(c),
    decreases s.len(),
{
    if s.len() == 0 {
        assert(s.push(c)[0] == c);
        assert(s.push(c).subrange(1, 1) =~= Seq::<char>::empty());
        assert(esc(Seq::<char>::empty()) =~= Seq::<char>::empty());
        assert(esc(s.push(c)) == esc_char(c) + esc(Seq::<char>::empty()));
        assert(esc_char(c) + Seq::<char>::empty() =~= esc_char(c));
        assert(esc(s) =~= Seq::<char>::empty());
        assert(Seq::<char>::empty() + esc_char(c) =~= esc_char(c));
    } else {
        let s2 = s.subrange(1, s.len() as int);
        assert(s.push(c)[0] == s[0]);
        assert(s.push(c).subrange(1, s.len() as int + 1) =~= s2.push(c));
        lemma_esc_push(s2, c);
        assert(esc(s.push(c)) == esc_char(s[0]) + (esc(s2) + esc_char(c)));
        lemma_assoc(esc_char(s[0]), esc(s2), esc_char(c));
    }
}

/// A string without quotes or backslashes is written as it is.
pub proof fn lemma_esc_id(s: Seq<char>)
    requires
        str_ok(s),
    ensures
        esc(s) == s,
    decreases s.len(),
{
    if s.len() == 0 {
        assert(esc(s) =~= s);
    } else {
        let s2 = s.subrange(1, s.len() as int);
        assert(str_ok(s2)) by {
            assert forall|i: int| 0 <= i < s2.len() implies ok_char(#[trigger] s2[i]) by {
                assert(s2[i] == s[i + 1]);
            }
        }
        lemma_esc_id(s2);
        assert(ok_char(s[0]));
        assert(esc(s) =~= s);
    }
}

/// Skipping whitespace stands still on a non-whitespace character, or at
/// the end of the text.
proof fn lemma_skip_here(t: Seq<char>, i: int)
    requires
        0 <= i <= t.len(),
        i == t.len() || !is_ws(t[i]),
    ensures
        skip_ws(t, i) == i,
{
}

/// Scanning the escaped form of `v`, closed by a quote, yields `v`.
proof fn lemma_scan_esc(t: Seq<char>, i: int, v: Seq<char>)
    requires
        0 <= i,
        i + esc(v).len() < t.len(),
        t.subrange(i, i + esc(v).len()) == esc(v),
        t[i + esc(v).len()] == '"',
    ensures
        scan_str(t, i) == Some((v, i + esc(v).len() + 1)),
    decreases v.len(),
{
    if v.len() == 0 {
        assert(esc(v) =~= Seq::<char>::empty());
        assert(v =~= Seq::<char>::empty());
    } else {
        let c = v[0];
        let v2 = v.subrange(1, v.len() as int);
        let ec = esc_char(c);
        assert(esc(v) == ec + esc(v2));
        assert(t.subrange(i, i + esc(v).len())[0] == t[i]);
        assert(esc(v)[0] == ec[0]);
        if ec.len() == 2 {
            assert(t.subrange(i, i + esc(v).len())[1] == t[i + 1]);
            assert(esc(v)[1] == ec[1]);
        }
        assert(t.subrange(i + ec.len(), i + esc(v).len()) =~= esc(v2)) by {
            assert forall|m: int| 0 <= m < esc(v2).len() implies t.subrange(
                i + ec.len(),
                i + esc(v).len(),
            )[m] == esc(v2)[m] by {
                assert(t.subrange(i + ec.len(), i + esc(v).len())[m] == t[i + ec.len() + m]);
                assert(esc(v)[ec.len() + m] == esc(v2)[m]);
            }
        }
        lemma_scan_esc(t, i + ec.len(), v2);
        assert(seq![c] + v2 =~= v);
        if c == '"' {
            assert(t[i] == '\\');
            assert(t[i + 1] == '"');
        } else if c == '\\' {
            assert(t[i] == '\\');
            assert(t[i + 1] == '\\');
        } else {
            assert(t[i] == c);
        }
    }
}

/// A quote at `v` followed by scanned contents is a string value.
proof fn lemma_psv(t: Seq<char>, v: int, val: Seq<char>, j: int)
    requires
        0 <= v < t.len(),
        t[v] == '"',
        scan_str(t, v + 1) == Some((val, j)),
    ensures
        parse_str_value(t, v) == Some((val, j)),
{
}

/// The `@type` member fills the tag slot.
proof fn lemma_eval_tag(t: Seq<char>, v: int, m: MAcc, val: Seq<char>, j: int)
    requires
        m.tag is None,
        parse_str_value(t, v) == Some((val, j)),
    ensures
        parse_one_member(t, v, "@type"@, m) == Ok::<(MAcc, int), DecodeError>(
            (MAcc { tag: Some(val), ..m }, j),
        ),
{
}

/// The `account_number` member fills its slot with the denoted value.
proof fn lemma_eval_an(t: Seq<char>, v: int, m: MAcc, val: Seq<char>, j: int)
    requires
        m.account_number is None,
        parse_str_value(t, v) == Some((val, j)),
        digits_ok(val),
    ensures
        parse_one_member(t, v, "account_number"@, m) == Ok::<(MAcc, int), DecodeError>(
            (MAcc { account_number: Some(digits_val(val) as u64), ..m }, j),
        ),
{
    reveal_strlit("@type");
    reveal_strlit("account_number");
    assert("account_number"@ != "@type"@) by {
        assert("account_number"@.len() == 14);
        assert("@type"@.len() == 5);
    }
}

/// The `address` member fills its slot.
proof fn lemma_eval_addr(t: Seq<char>, v: int, m: MAcc, val: Seq<char>, j: int)
    requires
        m.address is None,
        parse_str_value(t, v) == Some((val, j)),
    ensures
        parse_one_member(t, v, "address"@, m) == Ok::<(MAcc, int), DecodeError>(
            (MAcc { address: Some(val), ..m }, j),
        ),
{
    reveal_strlit("@type");
    reveal_strlit("account_number");
    reveal_strlit("address");
    assert("address"@ != "@type"@ && "address"@ != "account_number"@) by {
        assert("address"@.len() == 7);
        assert("@type"@.len() == 5);
        assert("account_number"@.len() == 14);
    }
}

/// The `sequence` member fills its slot with the denoted value.
proof fn lemma_eval_sq(t: Seq<char>, v: int, m: MAcc, val: Seq<char>, j: int)
    requires
        m.sequence is None,
        parse_str_value(t, v) == Some((val, j)),
        digits_ok(val),
    ensures
        parse_one_member(t, v, "sequence"@, m) == Ok::<(MAcc, int), DecodeError>(
            (MAcc { sequence: Some(digits_val(val) as u64), ..m }, j),
        ),
{
    reveal_strlit("@type");
    reveal_strlit("account_number");
    reveal_strlit("address");
    reveal_strlit("sequence");
    assert("sequence"@ != "@type"@ && "sequence"@ != "account_number"@ && "sequence"@
        != "address"@) by {
        assert("sequence"@.len() == 8);
        assert("@type"@.len() == 5);
        assert("account_number"@.len() == 14);
        assert("address"@.len() == 7);
    }
}

/// The `pub_key` member fills its slot with its parsed value.
proof fn lemma_eval_pk(t: Seq<char>, v: int, m: MAcc, pk: Option<PubKeyView>, j: int)
    requires
        m.pub_key is None,
        parse_pk_value(t, v) == Ok::<(Option<PubKeyView>, int), DecodeError>((pk, j)),
    ensures
        parse_one_member(t, v, "pub_key"@, m) == Ok::<(MAcc, int), DecodeError>(
            (MAcc { pub_key: Some(pk), ..m }, j),
        ),
{
    reveal_strlit("@type");
    reveal_strlit("account_number");
    reveal_strlit("address");
    reveal_strlit("sequence");
    reveal_strlit("pub_key");
    assert("pub_key"@ != "@type"@ && "pub_key"@ != "account_number"@ && "pub_key"@
        != "sequence"@) by {
        assert("pub_key"@.len() == 7);
        assert("@type"@.len() == 5);
        assert("account_number"@.len() == 14);
        assert("sequence"@.len() == 8);
    }
    assert("pub_key"@ != "address"@) by {
        assert("pub_key"@[0] == 'p');
        assert("address"@[0] == 'a');
    }
}

/// A `null` value for `pub_key` means no key.
proof fn lemma_eval_pk_null(t: Seq<char>, v: int)
    requires
        lit_at(t, v, "null"@),
    ensures
        parse_pk_value(t, v) == Ok::<(Option<PubKeyView>, int), DecodeError>((None, v + 4)),
{
    reveal_strlit("null");
}

/// A brace at `v` opens the key's own object.
proof fn lemma_eval_pk_obj(t: Seq<char>, v: int, i2: int, p: PubKeyView, j: int)
    requires
        0 <= v < t.len(),
        t[v] == '{',
        skip_ws(t, v + 1) == i2,
        parse_pk_members(t, i2, None, None, 2) == Ok::<(PubKeyView, int), DecodeError>((p, j)),
    ensures
        parse_pk_value(t, v) == Ok::<(Option<PubKeyView>, int), DecodeError>((Some(p), j)),
{
    reveal_strlit("null");
    assert(!lit_at(t, v, "null"@)) by {
        if lit_at(t, v, "null"@) {
            assert(t.subrange(v, v + 4)[0] == t[v]);
            assert(t.subrange(v, v + 4)[0] == 'n');
        }
    }
}

/// A canonical key object: `@type` then `key`, both strings, no
/// whitespace.
proof fn lemma_pk_object(
    t: Seq<char>,
    i: int,
    url: Seq<char>,
    key: Seq<char>,
    p1: int,
    v1: int,
    j1: int,
    i2: int,
    p2: int,
    v2: int,
    j2: int,
)
    requires
        0 <= i < t.len(),
        t[i] == '"',
        scan_str(t, i + 1) == Some(("@type"@, p1)),
        skip_ws(t, p1) == p1,
        0 <= p1 < t.len(),
        t[p1] == ':',
        skip_ws(t, p1 + 1) == v1,
        parse_str_value(t, v1) == Some((url, j1)),
        skip_ws(t, j1) == j1,
        0 <= j1 < t.len(),
        t[j1] == ',',
        skip_ws(t, j1 + 1) == i2,
        0 <= i2 < t.len(),
        t[i2] == '"',
        scan_str(t, i2 + 1) == Some(("key"@, p2)),
        skip_ws(t, p2) == p2,
        0 <= p2 < t.len(),
        t[p2] == ':',
        skip_ws(t, p2 + 1) == v2,
        parse_str_value(t, v2) == Some((key, j2)),
        skip_ws(t, j2) == j2,
        0 <= j2 < t.len(),
        t[j2] == '}',
    ensures
        parse_pk_members(t, i, None, None, 2) == Ok::<(PubKeyView, int), DecodeError>(
            (PubKeyView { type_url: url, key: key }, j2 + 1),
        ),
{
    reveal_strlit("@type");
    reveal_strlit("key");
    assert("key"@ != "@type"@) by {
        assert("key"@.len() == 3);
        assert("@type"@.len() == 5);
    }
    assert(parse_pk_members(t, i2, Some(url), None, 1) == Ok::<(PubKeyView, int), DecodeError>(
        (PubKeyView { type_url: url, key: key }, j2 + 1),
    )) by {
        assert(pk_members_tail(t, Some(url), Some(key), j2, 1)
            == Ok::<(PubKeyView, int), DecodeError>(
            (PubKeyView { type_url: url, key: key }, j2 + 1),
        ));
    }
    assert(pk_members_tail(t, Some(url), None, j1, 2) == parse_pk_members(
        t,
        i2,
        Some(url),
        None,
        1,
    ));
}

/// One member followed by a comma continues the object with the rest.
proof fn lemma_members_comma(
    t: Seq<char>,
    i: int,
    m: MAcc,
    m2: MAcc,
    name: Seq<char>,
    p: int,
    v: int,
    j: int,
    n2: int,
    fuel: nat,
    r: Result<(MAcc, int), DecodeError>,
)
    requires
        fuel >= 1,
        0 <= i < t.len(),
        t[i] == '"',
        scan_str(t, i + 1) == Some((name, p)),
        skip_ws(t, p) == p,
        0 <= p < t.len(),
        t[p] == ':',
        skip_ws(t, p + 1) == v,
        parse_one_member(t, v, name, m) == Ok::<(MAcc, int), DecodeError>((m2, j)),
        skip_ws(t, j) == j,
        0 <= j < t.len(),
        t[j] == ',',
        skip_ws(t, j + 1) == n2,
        parse_members(t, n2, m2, (fuel - 1) as nat) == r,
    ensures
        parse_members(t, i, m, fuel) == r,
{
}

/// One member followed by the closing brace ends the object.
proof fn lemma_members_end(
    t: Seq<char>,
    i: int,
    m: MAcc,
    m2: MAcc,
    name: Seq<char>,
    p: int,
    v: int,
    j: int,
    fuel: nat,
)
    requires
        fuel >= 1,
        0 <= i < t.len(),
        t[i] == '"',
        scan_str(t, i + 1) == Some((name, p)),
        skip_ws(t, p) == p,
        0 <= p < t.len(),
        t[p] == ':',
        skip_ws(t, p + 1) == v,
        parse_one_member(t, v, name, m) == Ok::<(MAcc, int), DecodeError>((m2, j)),
        skip_ws(t, j) == j,
        0 <= j < t.len(),
        t[j] == '}',
    ensures
        parse_members(t, i, m, fuel) == Ok::<(MAcc, int), DecodeError>((m2, j + 1)),
{
}

/// The whole object, once its members are read, denotes the wire object
/// they fill in.
proof fn lemma_wire_assemble(t: Seq<char>, w: WireView, m: MAcc, i0: int, i1: int, jend: int)
    requires
        skip_ws(t, 0) == i0,
        0 <= i0 < t.len(),
        t[i0] == '{',
        skip_ws(t, i0 + 1) == i1,
        parse_members(t, i1, macc_empty(), 5) == Ok::<(MAcc, int), DecodeError>((m, jend)),
        skip_ws(t, jend) == t.len(),
        m.tag == Some(w.type_url),
        m.account_number == Some(w.account_number),
        m.address == Some(w.address),
        m.sequence == Some(w.sequence),
        m.pub_key == Some(w.pub_key) || (m.pub_key is None && w.pub_key is None),
    ensures
        wire_parse(t) == Ok::<WireView, DecodeError>(w),
{
    assert(wire_parse(t) is Ok);
    let res = wire_parse(t)->Ok_0;
    assert(res =~= w);
}

/// The member names are written as they are, unescaped.
proof fn lemma_name_esc()
    ensures
        esc("@type"@) == "@type"@,
        esc("account_number"@) == "account_number"@,
        esc("address"@) == "address"@,
        esc("pub_key"@) == "pub_key"@,
        esc("key"@) == "key"@,
        esc("sequence"@) == "sequence"@,
        "@type"@.len() == 5,
        "account_number"@.len() == 14,
        "address"@.len() == 7,
        "pub_key"@.len() == 7,
        "key"@.len() == 3,
        "sequence"@.len() == 8,
{
    reveal_strlit("@type");
    reveal_strlit("account_number");
    reveal_strlit("address");
    reveal_strlit("pub_key");
    reveal_strlit("key");
    reveal_strlit("sequence");
    assert(str_ok("@type"@));
    assert(str_ok("account_number"@));
    assert(str_ok("address"@));
    assert(str_ok("pub_key"@));
    assert(str_ok("key"@));
    assert(str_ok("sequence"@));
    lemma_esc_id("@type"@);
    lemma_esc_id("account_number"@);
    lemma_esc_id("address"@);
    lemma_esc_id("pub_key"@);
    lemma_esc_id("key"@);
    lemma_esc_id("sequence"@);
}

/// Offsets of the members inside the canonical text of a key-less
/// record: where `account_number`, `address`, `pub_key` and the final
/// digits begin, by the lengths of what comes before them.
pub open spec fn nk_a5(w: WireView) -> int {
    10 + esc(w.type_url).len() as int
}

pub open spec fn nk_a9(w: WireView) -> int {
    nk_a5(w) + 20 + dec_digits(w.account_number as nat).len() as int
}

pub open spec fn nk_a13(w: WireView) -> int {
    nk_a9(w) + 13 + esc(w.address).len() as int
}

pub open spec fn nk_zz(w: WireView) -> int {
    nk_a13(w) + 29 + dec_digits(w.sequence as nat).len() as int
}

/// Where each token of the canonical text of a key-less record stands:
/// the facts the parser walk rests on.
#[verifier::rlimit(100)]
#[verifier::spinoff_prover]
proof fn lemma_canon_facts_no_key(w: WireView)
    requires
        w.pub_key is None,
    ensures
        ({
            let t = wire_text(w);
            let a5 = nk_a5(w);
            let a9 = nk_a9(w);
            let a13 = nk_a13(w);
            let zz = nk_zz(w);
            &&& t.len() == zz + 2
            &&& skip_ws(t, 0) == 0
            &&& t[0] == '{'
            &&& skip_ws(t, 1) == 1
            &&& t[1] == '"'
            &&& scan_str(t, 2) == Some(("@type"@, 8int))
            &&& skip_ws(t, 8) == 8
            &&& t[8] == ':'
            &&& skip_ws(t, 9) == 9
            &&& parse_str_value(t, 9) == Some((w.type_url, a5 + 1))
            &&& skip_ws(t, a5 + 1) == a5 + 1
            &&& t[a5 + 1] == ','
            &&& skip_ws(t, a5 + 2) == a5 + 2
            &&& t[a5 + 2] == '"'
            &&& scan_str(t, a5 + 3) == Some(("account_number"@, a5 + 18))
            &&& skip_ws(t, a5 + 18) == a5 + 18
            &&& t[a5 + 18] == ':'
            &&& skip_ws(t, a5 + 19) == a5 + 19
            &&& parse_str_value(t, a5 + 19) == Some(
                (dec_digits(w.account_number as nat), a9 + 1),
            )
            &&& skip_ws(t, a9 + 1) == a9 + 1
            &&& t[a9 + 1] == ','
            &&& skip_ws(t, a9 + 2) == a9 + 2
            &&& t[a9 + 2] == '"'
            &&& scan_str(t, a9 + 3) == Some(("address"@, a9 + 11))
            &&& skip_ws(t, a9 + 11) == a9 + 11
            &&& t[a9 + 11] == ':'
            &&& skip_ws(t, a9 + 12) == a9 + 12
            &&& parse_str_value(t, a9 + 12) == Some((w.address, a13 + 1))
            &&& skip_ws(t, a13 + 1) == a13 + 1
            &&& t[a13 + 1] == ','
            &&& skip_ws(t, a13 + 2) == a13 + 2
            &&& t[a13 + 2] == '"'
            &&& scan_str(t, a13 + 3) == Some(("pub_key"@, a13 + 11))
            &&& skip_ws(t, a13 + 11) == a13 + 11
            &&& t[a13 + 11] == ':'
            &&& skip_ws(t, a13 + 12) == a13 + 12
            &&& lit_at(t, a13 + 12, "null"@)
            &&& skip_ws(t, a13 + 16) == a13 + 16
            &&& t[a13 + 16] == ','
            &&& skip_ws(t, a13 + 17) == a13 + 17
            &&& t[a13 + 17] == '"'
            &&& scan_str(t, a13 + 18) == Some(("sequence"@, a13 + 27))
            &&& skip_ws(t, a13 + 27) == a13 + 27
            &&& t[a13 + 27] == ':'
            &&& skip_ws(t, a13 + 28) == a13 + 28
            &&& parse_str_value(t, a13 + 28) == Some((dec_digits(w.sequence as nat), zz + 1))
            &&& skip_ws(t, zz + 1) == zz + 1
            &&& t[zz + 1] == '}'
            &&& skip_ws(t, t.len() as int) == t.len()
        }),
{
    reveal_strlit("{\"");
    reveal_strlit("\":\"");
    reveal_strlit("\",\"");
    reveal_strlit("\":");
    reveal_strlit("null");
    reveal_strlit(",\"");
    reveal_strlit("\"}");
    lemma_name_esc();
    let t = wire_text(w);
    let tg = esc(w.type_url);
    let dd = esc(w.address);
    let an = dec_digits(w.account_number as nat);
    let sq = dec_digits(w.sequence as nat);
    crate::string_codec::lemma_dec_digits(w.account_number as nat);
    crate::string_codec::lemma_dec_digits(w.sequence as nat);
    lemma_digits_str_ok(an);
    lemma_digits_str_ok(sq);
    lemma_esc_id(an);
    lemma_esc_id(sq);
    let a5 = 10 + tg.len() as int;
    let a9 = a5 + 20 + an.len() as int;
    let a13 = a9 + 13 + dd.len() as int;
    let zz = a13 + 29 + sq.len() as int;
    lemma_subrange_all(t);
    let r21 = "\"}"@;
    let r20 = sq + r21;
    let r19 = "\":\""@ + r20;
    let r18 = "sequence"@ + r19;
    let r17 = ",\""@ + r18;
    let r16 = "null"@ + r17;
    let r15 = "\":"@ + r16;
    let r14 = "pub_key"@ + r15;
    let r13 = "\",\""@ + r14;
    let r12 = dd + r13;
    let r11 = "\":\""@ + r12;
    let r10 = "address"@ + r11;
    let r9 = "\",\""@ + r10;
    let r8 = an + r9;
    let r7 = "\":\""@ + r8;
    let r6 = "account_number"@ + r7;
    let r5 = "\",\""@ + r6;
    let r4 = tg + r5;
    let r3 = "\":\""@ + r4;
    let r2 = "@type"@ + r3;
    assert(t == "{\""@ + r2);
    lemma_peel(t, 0, "{\""@, r2);
    lemma_peel(t, 2, "@type"@, r3);
    lemma_peel(t, 7, "\":\""@, r4);
    lemma_peel(t, 10, tg, r5);
    lemma_peel(t, a5, "\",\""@, r6);
    lemma_peel(t, a5 + 3, "account_number"@, r7);
    lemma_peel(t, a5 + 17, "\":\""@, r8);
    lemma_peel(t, a5 + 20, an, r9);
    lemma_peel(t, a9, "\",\""@, r10);
    lemma_peel(t, a9 + 3, "address"@, r11);
    lemma_peel(t, a9 + 10, "\":\""@, r12);
    lemma_peel(t, a9 + 13, dd, r13);
    lemma_peel(t, a13, "\",\""@, r14);
    lemma_peel(t, a13 + 3, "pub_key"@, r15);
    lemma_peel(t, a13 + 10, "\":"@, r16);
    lemma_peel(t, a13 + 12, "null"@, r17);
    lemma_peel(t, a13 + 16, ",\""@, r18);
    lemma_peel(t, a13 + 18, "sequence"@, r19);
    lemma_peel(t, a13 + 26, "\":\""@, r20);
    lemma_peel(t, a13 + 29, sq, r21);
    lemma_char_at(t, 0, "{\""@, 0);
    lemma_char_at(t, 0, "{\""@, 1);
    lemma_char_at(t, 7, "\":\""@, 0);
    lemma_char_at(t, 7, "\":\""@, 1);
    lemma_char_at(t, 7, "\":\""@, 2);
    lemma_char_at(t, a5, "\",\""@, 0);
    lemma_char_at(t, a5, "\",\""@, 1);
    lemma_char_at(t, a5, "\",\""@, 2);
    lemma_char_at(t, a5 + 17, "\":\""@, 0);
    lemma_char_at(t, a5 + 17, "\":\""@, 1);
    lemma_char_at(t, a5 + 17, "\":\""@, 2);
    lemma_char_at(t, a9, "\",\""@, 0);
    lemma_char_at(t, a9, "\",\""@, 1);
    lemma_char_at(t, a9, "\",\""@, 2);
    lemma_char_at(t, a9 + 10, "\":\""@, 0);
    lemma_char_at(t, a9 + 10, "\":\""@, 1);
    lemma_char_at(t, a9 + 10, "\":\""@, 2);
    lemma_char_at(t, a13, "\",\""@, 0);
    lemma_char_at(t, a13, "\",\""@, 1);
    lemma_char_at(t, a13, "\",\""@, 2);
    lemma_char_at(t, a13 + 10, "\":"@, 0);
    lemma_char_at(t, a13 + 10, "\":"@, 1);
    lemma_char_at(t, a13 + 12, "null"@, 0);
    lemma_char_at(t, a13 + 16, ",\""@, 0);
    lemma_char_at(t, a13 + 16, ",\""@, 1);
    lemma_char_at(t, a13 + 26, "\":\""@, 0);
    lemma_char_at(t, a13 + 26, "\":\""@, 1);
    lemma_char_at(t, a13 + 26, "\":\""@, 2);
    lemma_char_at(t, zz, "\"}"@, 0);
    lemma_char_at(t, zz, "\"}"@, 1);
    lemma_skip_here(t, 0);
    lemma_skip_here(t, 1);
    lemma_skip_here(t, 8);
    lemma_skip_here(t, 9);
    lemma_skip_here(t, a5 + 1);
    lemma_skip_here(t, a5 + 2);
    lemma_skip_here(t, a5 + 18);
    lemma_skip_here(t, a5 + 19);
    lemma_skip_here(t, a9 + 1);
    lemma_skip_here(t, a9 + 2);
    lemma_skip_here(t, a9 + 11);
    lemma_skip_here(t, a9 + 12);
    lemma_skip_here(t, a13 + 1);
    lemma_skip_here(t, a13 + 2);
    lemma_skip_here(t, a13 + 11);
    lemma_skip_here(t, a13 + 12);
    lemma_skip_here(t, a13 + 16);
    lemma_skip_here(t, a13 + 17);
    lemma_skip_here(t, a13 + 27);
    lemma_skip_here(t, a13 + 28);
    lemma_skip_here(t, zz + 1);
    lemma_skip_here(t, t.len() as int);
    lemma_scan_esc(t, 2, "@type"@);
    lemma_scan_esc(t, 10, w.type_url);
    lemma_scan_esc(t, a5 + 3, "account_number"@);
    lemma_scan_esc(t, a5 + 20, an);
    lemma_scan_esc(t, a9 + 3, "address"@);
    lemma_scan_esc(t, a9 + 13, w.address);
    lemma_scan_esc(t, a13 + 3, "pub_key"@);
    lemma_scan_esc(t, a13 + 18, "sequence"@);
    lemma_scan_esc(t, a13 + 29, sq);
    lemma_psv(t, 9, w.type_url, a5 + 1);
    lemma_psv(t, a5 + 19, an, a9 + 1);
    lemma_psv(t, a9 + 12, w.address, a13 + 1);
    lemma_psv(t, a13 + 28, sq, zz + 1);
}

/// The round trip for a wire object without a key.
#[verifier::rlimit(50)]
#[verifier::spinoff_prover]
proof fn lemma_wire_round_trip_no_key(w: WireView)
    requires
        w.pub_key is None,
    ensures
        wire_parse(wire_text(w)) == Ok::<WireView, DecodeError>(w),
{
    lemma_canon_facts_no_key(w);
    let t = wire_text(w);
    let a5 = nk_a5(w);
    let a9 = nk_a9(w);
    let a13 = nk_a13(w);
    let zz = nk_zz(w);
    let an = dec_digits(w.account_number as nat);
    let sq = dec_digits(w.sequence as nat);
    crate::string_codec::lemma_dec_digits(w.account_number as nat);
    crate::string_codec::lemma_dec_digits(w.sequence as nat);
    let m0 = macc_empty();
    let m1 = MAcc { tag: Some(w.type_url), ..m0 };
    let m2 = MAcc { account_number: Some(w.account_number), ..m1 };
    let m3 = MAcc { address: Some(w.address), ..m2 };
    let m4 = MAcc { pub_key: Some(None), ..m3 };
    let m5 = MAcc { sequence: Some(w.sequence), ..m4 };
    lemma_eval_tag(t, 9, m0, w.type_url, a5 + 1);
    assert(digits_val(an) as u64 == w.account_number);
    lemma_eval_an(t, a5 + 19, m1, an, a9 + 1);
    lemma_eval_addr(t, a9 + 12, m2, w.address, a13 + 1);
    lemma_eval_pk_null(t, a13 + 12);
    lemma_eval_pk(t, a13 + 12, m3, None, a13 + 16);
    assert(digits_val(sq) as u64 == w.sequence);
    lemma_eval_sq(t, a13 + 28, m4, sq, zz + 1);
    let fin: Result<(MAcc, int), DecodeError> = Ok((m5, t.len() as int));
    lemma_members_end(t, a13 + 17, m4, m5, "sequence"@, a13 + 27, a13 + 28, zz + 1, 1);
    lemma_members_comma(
        t,
        a13 + 2,
        m3,
        m4,
        "pub_key"@,
        a13 + 11,
        a13 + 12,
        a13 + 16,
        a13 + 17,
        2,
        fin,
    );
    lemma_members_comma(t, a9 + 2, m2, m3, "address"@, a9 + 11, a9 + 12, a13 + 1, a13 + 2, 3, fin);
    lemma_members_comma(
        t,
        a5 + 2,
        m1,
        m2,
        "account_number"@,
        a5 + 18,
        a5 + 19,
        a9 + 1,
        a9 + 2,
        4,
        fin,
    );
    lemma_members_comma(t, 1, m0, m1, "@type"@, 8, 9, a5 + 1, a5 + 2, 5, fin);
    lemma_wire_assemble(t, w, m5, 0, 1, t.len() as int);
}

/// Where each token of the head of the canonical text of a record with a
/// key stands: everything before the key object, and what the rest of the
/// text is.
#[verifier::rlimit(100)]
#[verifier::spinoff_prover]
proof fn lemma_canon_facts_with_key_head(w: WireView, p: PubKeyView)
    requires
        w.pub_key == Some(p),
    ensures
        ({
            let t = wire_text(w);
            let a5 = nk_a5(w);
            let a9 = nk_a9(w);
            let a13 = nk_a13(w);
            &&& skip_ws(t, 0) == 0
            &&& t[0] == '{'
            &&& skip_ws(t, 1) == 1
            &&& t[1] == '"'
            &&& scan_str(t, 2) == Some(("@type"@, 8int))
            &&& skip_ws(t, 8) == 8
            &&& t[8] == ':'
            &&& skip_ws(t, 9) == 9
            &&& parse_str_value(t, 9) == Some((w.type_url, a5 + 1))
            &&& skip_ws(t, a5 + 1) == a5 + 1
            &&& t[a5 + 1] == ','
            &&& skip_ws(t, a5 + 2) == a5 + 2
            &&& t[a5 + 2] == '"'
            &&& scan_str(t, a5 + 3) == Some(("account_number"@, a5 + 18))
            &&& skip_ws(t, a5 + 18) == a5 + 18
            &&& t[a5 + 18] == ':'
            &&& skip_ws(t, a5 + 19) == a5 + 19
            &&& parse_str_value(t, a5 + 19) == Some(
                (dec_digits(w.account_number as nat), a9 + 1),
            )
            &&& skip_ws(t, a9 + 1) == a9 + 1
            &&& t[a9 + 1] == ','
            &&& skip_ws(t, a9 + 2) == a9 + 2
            &&& t[a9 + 2] == '"'
            &&& scan_str(t, a9 + 3) == Some(("address"@, a9 + 11))
            &&& skip_ws(t, a9 + 11) == a9 + 11
            &&& t[a9 + 11] == ':'
            &&& skip_ws(t, a9 + 12) == a9 + 12
            &&& parse_str_value(t, a9 + 12) == Some((w.address, a13 + 1))
            &&& skip_ws(t, a13 + 1) == a13 + 1
            &&& t[a13 + 1] == ','
            &&& skip_ws(t, a13 + 2) == a13 + 2
            &&& t[a13 + 2] == '"'
            &&& scan_str(t, a13 + 3) == Some(("pub_key"@, a13 + 11))
            &&& skip_ws(t, a13 + 11) == a13 + 11
            &&& t[a13 + 11] == ':'
            &&& t.subrange(a13 + 12, t.len() as int) == "{\""@ + ("@type"@ + ("\":\""@ + (esc(
                p.type_url,
            ) + ("\",\""@ + ("key"@ + ("\":\""@ + (esc(p.key) + ("\"}"@ + (",\""@ + ("sequence"@
                + ("\":\""@ + (dec_digits(w.sequence as nat) + "\"}"@))))))))))))
        }),
{
    reveal_strlit("{\"");
    reveal_strlit("\":\"");
    reveal_strlit("\",\"");
    reveal_strlit("\":");
    reveal_strlit(",\"");
    reveal_strlit("\"}");
    lemma_name_esc();
    let t = wire_text(w);
    let tg = esc(w.type_url);
    let dd = esc(w.address);
    let an = dec_digits(w.account_number as nat);
    let sq = dec_digits(w.sequence as nat);
    crate::string_codec::lemma_dec_digits(w.account_number as nat);
    lemma_digits_str_ok(an);
    lemma_esc_id(an);
    let a5 = 10 + tg.len() as int;
    let a9 = a5 + 20 + an.len() as int;
    let a13 = a9 + 13 + dd.len() as int;
    lemma_subrange_all(t);
    let r23 = ",\""@ + ("sequence"@ + ("\":\""@ + (sq + "\"}"@)));
    let r22 = "\"}"@ + r23;
    let r21 = esc(p.key) + r22;
    let r20 = "\":\""@ + r21;
    let r19 = "key"@ + r20;
    let r18 = "\",\""@ + r19;
    let r17 = esc(p.type_url) + r18;
    let r16 = "\":\""@ + r17;
    let r15b = "@type"@ + r16;
    let r15 = "{\""@ + r15b;
    let r14b = "\":"@ + r15;
    let r14 = "pub_key"@ + r14b;
    let r13 = "\",\""@ + r14;
    let r12 = dd + r13;
    let r11 = "\":\""@ + r12;
    let r10 = "address"@ + r11;
    let r9 = "\",\""@ + r10;
    let r8 = an + r9;
    let r7 = "\":\""@ + r8;
    let r6 = "account_number"@ + r7;
    let r5 = "\",\""@ + r6;
    let r4 = tg + r5;
    let r3 = "\":\""@ + r4;
    let r2 = "@type"@ + r3;
    assert(t == "{\""@ + r2);
    lemma_peel(t, 0, "{\""@, r2);
    lemma_peel(t, 2, "@type"@, r3);
    lemma_peel(t, 7, "\":\""@, r4);
    lemma_peel(t, 10, tg, r5);
    lemma_peel(t, a5, "\",\""@, r6);
    lemma_peel(t, a5 + 3, "account_number"@, r7);
    lemma_peel(t, a5 + 17, "\":\""@, r8);
    lemma_peel(t, a5 + 20, an, r9);
    lemma_peel(t, a9, "\",\""@, r10);
    lemma_peel(t, a9 + 3, "address"@, r11);
    lemma_peel(t, a9 + 10, "\":\""@, r12);
    lemma_peel(t, a9 + 13, dd, r13);
    lemma_peel(t, a13, "\",\""@, r14);
    lemma_peel(t, a13 + 3, "pub_key"@, r14b);
    lemma_peel(t, a13 + 10, "\":"@, r15);
    lemma_char_at(t, 0, "{\""@, 0);
    lemma_char_at(t, 0, "{\""@, 1);
    lemma_char_at(t, 7, "\":\""@, 0);
    lemma_char_at(t, 7, "\":\""@, 1);
    lemma_char_at(t, 7, "\":\""@, 2);
    lemma_char_at(t, a5, "\",\""@, 0);
    lemma_char_at(t, a5, "\",\""@, 1);
    lemma_char_at(t, a5, "\",\""@, 2);
    lemma_char_at(t, a5 + 17, "\":\""@, 0);
    lemma_char_at(t, a5 + 17, "\":\""@, 1);
    lemma_char_at(t, a5 + 17, "\":\""@, 2);
    lemma_char_at(t, a9, "\",\""@, 0);
    lemma_char_at(t, a9, "\",\""@, 1);
    lemma_char_at(t, a9, "\",\""@, 2);
    lemma_char_at(t, a9 + 10, "\":\""@, 0);
    lemma_char_at(t, a9 + 10, "\":\""@, 1);
    lemma_char_at(t, a9 + 10, "\":\""@, 2);
    lemma_char_at(t, a13, "\",\""@, 0);
    lemma_char_at(t, a13, "\",\""@, 1);
    lemma_char_at(t, a13, "\",\""@, 2);
    lemma_char_at(t, a13 + 10, "\":"@, 0);
    lemma_char_at(t, a13 + 10, "\":"@, 1);
    lemma_skip_here(t, 0);
    lemma_skip_here(t, 1);
    lemma_skip_here(t, 8);
    lemma_skip_here(t, 9);
    lemma_skip_here(t, a5 + 1);
    lemma_skip_here(t, a5 + 2);
    lemma_skip_here(t, a5 + 18);
    lemma_skip_here(t, a5 + 19);
    lemma_skip_here(t, a9 + 1);
    lemma_skip_here(t, a9 + 2);
    lemma_skip_here(t, a9 + 11);
    lemma_skip_here(t, a9 + 12);
    lemma_skip_here(t, a13 + 1);
    lemma_skip_here(t, a13 + 2);
    lemma_skip_here(t, a13 + 11);
    lemma_scan_esc(t, 2, "@type"@);
    lemma_scan_esc(t, 10, w.type_url);
    lemma_scan_esc(t, a5 + 3, "account_number"@);
    lemma_scan_esc(t, a5 + 20, an);
    lemma_scan_esc(t, a9 + 3, "address"@);
    lemma_scan_esc(t, a9 + 13, w.address);
    lemma_scan_esc(t, a13 + 3, "pub_key"@);
    lemma_psv(t, 9, w.type_url, a5 + 1);
    lemma_psv(t, a5 + 19, an, a9 + 1);
    lemma_psv(t, a9 + 12, w.address, a13 + 1);
}

/// Where each token of the key object and the tail of the canonical text
/// of a record with a key stands.
#[verifier::rlimit(100)]
#[verifier::spinoff_prover]
proof fn lemma_canon_facts_with_key_tail(w: WireView, p: PubKeyView)
    requires
        w.pub_key == Some(p),
        ({
            let t = wire_text(w);
            let a13 = nk_a13(w);
            t.subrange(a13 + 12, t.len() as int) == "{\""@ + ("@type"@ + ("\":\""@ + (esc(
                p.type_url,
            ) + ("\",\""@ + ("key"@ + ("\":\""@ + (esc(p.key) + ("\"}"@ + (",\""@ + ("sequence"@
                + ("\":\""@ + (dec_digits(w.sequence as nat) + "\"}"@))))))))))))
        }),
    ensures
        ({
            let t = wire_text(w);
            let a13 = nk_a13(w);
            let b1 = a13 + 22 + esc(p.type_url).len() as int;
            let b2 = b1 + 9 + esc(p.key).len() as int;
            let zz = b2 + 15 + dec_digits(w.sequence as nat).len() as int;
            &&& t.len() == zz + 2
            &&& skip_ws(t, a13 + 12) == a13 + 12
            &&& t[a13 + 12] == '{'
            &&& skip_ws(t, a13 + 13) == a13 + 13
            &&& t[a13 + 13] == '"'
            &&& scan_str(t, a13 + 14) == Some(("@type"@, a13 + 20))
            &&& skip_ws(t, a13 + 20) == a13 + 20
            &&& t[a13 + 20] == ':'
            &&& skip_ws(t, a13 + 21) == a13 + 21
            &&& parse_str_value(t, a13 + 21) == Some((p.type_url, b1 + 1))
            &&& skip_ws(t, b1 + 1) == b1 + 1
            &&& t[b1 + 1] == ','
            &&& skip_ws(t, b1 + 2) == b1 + 2
            &&& t[b1 + 2] == '"'
            &&& scan_str(t, b1 + 3) == Some(("key"@, b1 + 7))
            &&& skip_ws(t, b1 + 7) == b1 + 7
            &&& t[b1 + 7] == ':'
            &&& skip_ws(t, b1 + 8) == b1 + 8
            &&& parse_str_value(t, b1 + 8) == Some((p.key, b2 + 1))
            &&& skip_ws(t, b2 + 1) == b2 + 1
            &&& t[b2 + 1] == '}'
            &&& skip_ws(t, b2 + 2) == b2 + 2
            &&& t[b2 + 2] == ','
            &&& skip_ws(t, b2 + 3) == b2 + 3
            &&& t[b2 + 3] == '"'
            &&& scan_str(t, b2 + 4) == Some(("sequence"@, b2 + 13))
            &&& skip_ws(t, b2 + 13) == b2 + 13
            &&& t[b2 + 13] == ':'
            &&& skip_ws(t, b2 + 14) == b2 + 14
            &&& parse_str_value(t, b2 + 14) == Some((dec_digits(w.sequence as nat), zz + 1))
            &&& skip_ws(t, zz + 1) == zz + 1
            &&& t[zz + 1] == '}'
            &&& skip_ws(t, t.len() as int) == t.len()
        }),
{
    reveal_strlit("{\"");
    reveal_strlit("\":\"");
    reveal_strlit("\",\"");
    reveal_strlit(",\"");
    reveal_strlit("\"}");
    lemma_name_esc();
    let t = wire_text(w);
    let uu = esc(p.type_url);
    let kk = esc(p.key);
    let sq = dec_digits(w.sequence as nat);
    crate::string_codec::lemma_dec_digits(w.sequence as nat);
    lemma_digits_str_ok(sq);
    lemma_esc_id(sq);
    let a13 = nk_a13(w);
    let b1 = a13 + 22 + uu.len() as int;
    let b2 = b1 + 9 + kk.len() as int;
    let zz = b2 + 15 + sq.len() as int;
    let r28 = "\"}"@;
    let r27 = sq + r28;
    let r26 = "\":\""@ + r27;
    let r25 = "sequence"@ + r26;
    let r24 = ",\""@ + r25;
    let r23 = "\"}"@ + r24;
    let r22 = kk + r23;
    let r21 = "\":\""@ + r22;
    let r20 = "key"@ + r21;
    let r19 = "\",\""@ + r20;
    let r18 = uu + r19;
    let r17 = "\":\""@ + r18;
    let r16 = "@type"@ + r17;
    lemma_peel(t, a13 + 12, "{\""@, r16);
    lemma_peel(t, a13 + 14, "@type"@, r17);
    lemma_peel(t, a13 + 19, "\":\""@, r18);
    lemma_peel(t, a13 + 22, uu, r19);
    lemma_peel(t, b1, "\",\""@, r20);
    lemma_peel(t, b1 + 3, "key"@, r21);
    lemma_peel(t, b1 + 6, "\":\""@, r22);
    lemma_peel(t, b1 + 9, kk, r23);
    lemma_peel(t, b2, "\"}"@, r24);
    lemma_peel(t, b2 + 2, ",\""@, r25);
    lemma_peel(t, b2 + 4, "sequence"@, r26);
    lemma_peel(t, b2 + 12, "\":\""@, r27);
    lemma_peel(t, b2 + 15, sq, r28);
    lemma_char_at(t, a13 + 12, "{\""@, 0);
    lemma_char_at(t, a13 + 12, "{\""@, 1);
    lemma_char_at(t, a13 + 19, "\":\""@, 0);
    lemma_char_at(t, a13 + 19, "\":\""@, 1);
    lemma_char_at(t, a13 + 19, "\":\""@, 2);
    lemma_char_at(t, b1, "\",\""@, 0);
    lemma_char_at(t, b1, "\",\""@, 1);
    lemma_char_at(t, b1, "\",\""@, 2);
    lemma_char_at(t, b1 + 6, "\":\""@, 0);
    lemma_char_at(t, b1 + 6, "\":\""@, 1);
    lemma_char_at(t, b1 + 6, "\":\""@, 2);
    lemma_char_at(t, b2, "\"}"@, 0);
    lemma_char_at(t, b2, "\"}"@, 1);
    lemma_char_at(t, b2 + 2, ",\""@, 0);
    lemma_char_at(t, b2 + 2, ",\""@, 1);
    lemma_char_at(t, b2 + 12, "\":\""@, 0);
    lemma_char_at(t, b2 + 12, "\":\""@, 1);
    lemma_char_at(t, b2 + 12, "\":\""@, 2);
    lemma_char_at(t, zz, "\"}"@, 0);
    lemma_char_at(t, zz, "\"}"@, 1);
    lemma_skip_here(t, a13 + 12);
    lemma_skip_here(t, a13 + 13);
    lemma_skip_here(t, a13 + 20);
    lemma_skip_here(t, a13 + 21);
    lemma_skip_here(t, b1 + 1);
    lemma_skip_here(t, b1 + 2);
    lemma_skip_here(t, b1 + 7);
    lemma_skip_here(t, b1 + 8);
    lemma_skip_here(t, b2 + 1);
    lemma_skip_here(t, b2 + 2);
    lemma_skip_here(t, b2 + 3);
    lemma_skip_here(t, b2 + 13);
    lemma_skip_here(t, b2 + 14);
    lemma_skip_here(t, zz + 1);
    lemma_skip_here(t, t.len() as int);
    lemma_scan_esc(t, a13 + 14, "@type"@);
    lemma_scan_esc(t, a13 + 22, p.type_url);
    lemma_scan_esc(t, b1 + 3, "key"@);
    lemma_scan_esc(t, b1 + 9, p.key);
    lemma_scan_esc(t, b2 + 4, "sequence"@);
    lemma_scan_esc(t, b2 + 15, sq);
    lemma_psv(t, a13 + 21, p.type_url, b1 + 1);
    lemma_psv(t, b1 + 8, p.key, b2 + 1);
    lemma_psv(t, b2 + 14, sq, zz + 1);
}

#[verifier::rlimit(100)]
#[verifier::spinoff_prover]
proof fn lemma_with_key_pk_value(t: Seq<char>, w: WireView, p: PubKeyView)
    requires
        w.pub_key == Some(p),
        ({
            let a13 = nk_a13(w);
            let b1 = a13 + 22 + esc(p.type_url).len() as int;
            let b2 = b1 + 9 + esc(p.key).len() as int;
            let zz = b2 + 15 + dec_digits(w.sequence as nat).len() as int;
            &&& t.len() == zz + 2
            &&& skip_ws(t, a13 + 12) == a13 + 12
            &&& t[a13 + 12] == '{'
            &&& skip_ws(t, a13 + 13) == a13 + 13
            &&& t[a13 + 13] == '"'
            &&& scan_str(t, a13 + 14) == Some(("@type"@, a13 + 20))
            &&& skip_ws(t, a13 + 20) == a13 + 20
            &&& t[a13 + 20] == ':'
            &&& skip_ws(t, a13 + 21) == a13 + 21
            &&& parse_str_value(t, a13 + 21) == Some((p.type_url, b1 + 1))
            &&& skip_ws(t, b1 + 1) == b1 + 1
            &&& t[b1 + 1] == ','
            &&& skip_ws(t, b1 + 2) == b1 + 2
            &&& t[b1 + 2] == '"'
            &&& scan_str(t, b1 + 3) == Some(("key"@, b1 + 7))
            &&& skip_ws(t, b1 + 7) == b1 + 7
            &&& t[b1 + 7] == ':'
            &&& skip_ws(t, b1 + 8) == b1 + 8
            &&& parse_str_value(t, b1 + 8) == Some((p.key, b2 + 1))
            &&& skip_ws(t, b2 + 1) == b2 + 1
            &&& t[b2 + 1] == '}'
            &&& skip_ws(t, b2 + 2) == b2 + 2
            &&& t[b2 + 2] == ','
            &&& skip_ws(t, b2 + 3) == b2 + 3
            &&& t[b2 + 3] == '"'
            &&& scan_str(t, b2 + 4) == Some(("sequence"@, b2 + 13))
            &&& skip_ws(t, b2 + 13) == b2 + 13
            &&& t[b2 + 13] == ':'
            &&& skip_ws(t, b2 + 14) == b2 + 14
            &&& parse_str_value(t, b2 + 14) == Some((dec_digits(w.sequence as nat), zz + 1))
            &&& skip_ws(t, zz + 1) == zz + 1
            &&& t[zz + 1] == '}'
            &&& skip_ws(t, t.len() as int) == t.len()
        }),
    ensures
        ({
            let a13 = nk_a13(w);
            let b1 = a13 + 22 + esc(p.type_url).len() as int;
            let b2 = b1 + 9 + esc(p.key).len() as int;
            parse_pk_value(t, a13 + 12) == Ok::<(Option<PubKeyView>, int), DecodeError>(
                (Some(p), b2 + 2),
            )
        }),
{
    let a13 = nk_a13(w);
    let b1 = a13 + 22 + esc(p.type_url).len() as int;
    let b2 = b1 + 9 + esc(p.key).len() as int;
    lemma_pk_object(
        t,
        a13 + 13,
        p.type_url,
        p.key,
        a13 + 20,
        a13 + 21,
        b1 + 1,
        b1 + 2,
        b1 + 7,
        b1 + 8,
        b2 + 1,
    );
    lemma_eval_pk_obj(
        t,
        a13 + 12,
        a13 + 13,
        PubKeyView { type_url: p.type_url, key: p.key },
        b2 + 2,
    );
    assert(PubKeyView { type_url: p.type_url, key: p.key } =~= p);
}

/// The round trip for a wire object that carries a key.
#[verifier::rlimit(100)]
#[verifier::spinoff_prover]
proof fn lemma_with_key_chain(t: Seq<char>, w: WireView, p: PubKeyView)
    requires
        w.pub_key == Some(p),
        ({
            let a5 = nk_a5(w);
            let a9 = nk_a9(w);
            let a13 = nk_a13(w);
            &&& skip_ws(t, 0) == 0
            &&& t[0] == '{'
            &&& skip_ws(t, 1) == 1
            &&& t[1] == '"'
            &&& scan_str(t, 2) == Some(("@type"@, 8int))
            &&& skip_ws(t, 8) == 8
            &&& t[8] == ':'
            &&& skip_ws(t, 9) == 9
            &&& parse_str_value(t, 9) == Some((w.type_url, a5 + 1))
            &&& skip_ws(t, a5 + 1) == a5 + 1
            &&& t[a5 + 1] == ','
            &&& skip_ws(t, a5 + 2) == a5 + 2
            &&& t[a5 + 2] == '"'
            &&& scan_str(t, a5 + 3) == Some(("account_number"@, a5 + 18))
            &&& skip_ws(t, a5 + 18) == a5 + 18
            &&& t[a5 + 18] == ':'
            &&& skip_ws(t, a5 + 19) == a5 + 19
            &&& parse_str_value(t, a5 + 19) == Some(
                (dec_digits(w.account_number as nat), a9 + 1),
            )
            &&& skip_ws(t, a9 + 1) == a9 + 1
            &&& t[a9 + 1] == ','
            &&& skip_ws(t, a9 + 2) == a9 + 2
            &&& t[a9 + 2] == '"'
            &&& scan_str(t, a9 + 3) == Some(("address"@, a9 + 11))
            &&& skip_ws(t, a9 + 11) == a9 + 11
            &&& t[a9 + 11] == ':'
            &&& skip_ws(t, a9 + 12) == a9 + 12
            &&& parse_str_value(t, a9 + 12) == Some((w.address, a13 + 1))
            &&& skip_ws(t, a13 + 1) == a13 + 1
            &&& t[a13 + 1] == ','
            &&& skip_ws(t, a13 + 2) == a13 + 2
            &&& t[a13 + 2] == '"'
            &&& scan_str(t, a13 + 3) == Some(("pub_key"@, a13 + 11))
            &&& skip_ws(t, a13 + 11) == a13 + 11
            &&& t[a13 + 11] == ':'
            &&& t.subrange(a13 + 12, t.len() as int) == "{\""@ + ("@type"@ + ("\":\""@ + (esc(
                p.type_url,
            ) + ("\",\""@ + ("key"@ + ("\":\""@ + (esc(p.key) + ("\"}"@ + (",\""@ + ("sequence"@
                + ("\":\""@ + (dec_digits(w.sequence as nat) + "\"}"@))))))))))))
        }),
        ({
            let a13 = nk_a13(w);
            let b1 = a13 + 22 + esc(p.type_url).len() as int;
            let b2 = b1 + 9 + esc(p.key).len() as int;
            let zz = b2 + 15 + dec_digits(w.sequence as nat).len() as int;
            &&& t.len() == zz + 2
            &&& skip_ws(t, a13 + 12) == a13 + 12
            &&& t[a13 + 12] == '{'
            &&& skip_ws(t, a13 + 13) == a13 + 13
            &&& t[a13 + 13] == '"'
            &&& scan_str(t, a13 + 14) == Some(("@type"@, a13 + 20))
            &&& skip_ws(t, a13 + 20) == a13 + 20
            &&& t[a13 + 20] == ':'
            &&& skip_ws(t, a13 + 21) == a13 + 21
            &&& parse_str_value(t, a13 + 21) == Some((p.type_url, b1 + 1))
            &&& skip_ws(t, b1 + 1) == b1 + 1
            &&& t[b1 + 1] == ','
            &&& skip_ws(t, b1 + 2) == b1 + 2
            &&& t[b1 + 2] == '"'
            &&& scan_str(t, b1 + 3) == Some(("key"@, b1 + 7))
            &&& skip_ws(t, b1 + 7) == b1 + 7
            &&& t[b1 + 7] == ':'
            &&& skip_ws(t, b1 + 8) == b1 + 8
            &&& parse_str_value(t, b1 + 8) == Some((p.key, b2 + 1))
            &&& skip_ws(t, b2 + 1) == b2 + 1
            &&& t[b2 + 1] == '}'
            &&& skip_ws(t, b2 + 2) == b2 + 2
            &&& t[b2 + 2] == ','
            &&& skip_ws(t, b2 + 3) == b2 + 3
            &&& t[b2 + 3] == '"'
            &&& scan_str(t, b2 + 4) == Some(("sequence"@, b2 + 13))
            &&& skip_ws(t, b2 + 13) == b2 + 13
            &&& t[b2 + 13] == ':'
            &&& skip_ws(t, b2 + 14) == b2 + 14
            &&& parse_str_value(t, b2 + 14) == Some((dec_digits(w.sequence as nat), zz + 1))
            &&& skip_ws(t, zz + 1) == zz + 1
            &&& t[zz + 1] == '}'
            &&& skip_ws(t, t.len() as int) == t.len()
        }),
        ({
            let a13 = nk_a13(w);
            let b1 = a13 + 22 + esc(p.type_url).len() as int;
            let b2 = b1 + 9 + esc(p.key).len() as int;
            parse_pk_value(t, a13 + 12) == Ok::<(Option<PubKeyView>, int), DecodeError>(
                (Some(p), b2 + 2),
            )
        }),
    ensures
        wire_parse(t) == Ok::<WireView, DecodeError>(w),
{
    let a5 = nk_a5(w);
    let a9 = nk_a9(w);
    let a13 = nk_a13(w);
    let b1 = a13 + 22 + esc(p.type_url).len() as int;
    let b2 = b1 + 9 + esc(p.key).len() as int;
    let zz = b2 + 15 + dec_digits(w.sequence as nat).len() as int;
    let an = dec_digits(w.account_number as nat);
    let sq = dec_digits(w.sequence as nat);
    crate::string_codec::lemma_dec_digits(w.account_number as nat);
    crate::string_codec::lemma_dec_digits(w.sequence as nat);
    let m0 = macc_empty();
    let m1 = MAcc { tag: Some(w.type_url), ..m0 };
    let m2 = MAcc { account_number: Some(w.account_number), ..m1 };
    let m3 = MAcc { address: Some(w.address), ..m2 };
    let m4 = MAcc { pub_key: Some(Some(p)), ..m3 };
    let m5 = MAcc { sequence: Some(w.sequence), ..m4 };
    lemma_eval_tag(t, 9, m0, w.type_url, a5 + 1);
    assert(digits_val(an) as u64 == w.account_number);
    lemma_eval_an(t, a5 + 19, m1, an, a9 + 1);
    lemma_eval_addr(t, a9 + 12, m2, w.address, a13 + 1);
    lemma_eval_pk(t, a13 + 12, m3, Some(p), b2 + 2);
    assert(digits_val(sq) as u64 == w.sequence);
    lemma_eval_sq(t, b2 + 14, m4, sq, zz + 1);
    let fin: Result<(MAcc, int), DecodeError> = Ok((m5, t.len() as int));
    lemma_members_end(t, b2 + 3, m4, m5, "sequence"@, b2 + 13, b2 + 14, zz + 1, 1);
    lemma_members_comma(
        t,
        a13 + 2,
        m3,
        m4,
        "pub_key"@,
        a13 + 11,
        a13 + 12,
        b2 + 2,
        b2 + 3,
        2,
        fin,
    );
    lemma_members_comma(t, a9 + 2, m2, m3, "address"@, a9 + 11, a9 + 12, a13 + 1, a13 + 2, 3, fin);
    lemma_members_comma(
        t,
        a5 + 2,
        m1,
        m2,
        "account_number"@,
        a5 + 18,
        a5 + 19,
        a9 + 1,
        a9 + 2,
        4,
        fin,
    );
    lemma_members_comma(t, 1, m0, m1, "@type"@, 8, 9, a5 + 1, a5 + 2, 5, fin);
    lemma_wire_assemble(t, w, m5, 0, 1, t.len() as int);
}

/// The round trip for a wire object that carries a key.
proof fn lemma_wire_round_trip_with_key(w: WireView, p: PubKeyView)
    requires
        w.pub_key == Some(p),
    ensures
        wire_parse(wire_text(w)) == Ok::<WireView, DecodeError>(w),
{
    lemma_canon_facts_with_key_head(w, p);
    lemma_canon_facts_with_key_tail(w, p);
    lemma_with_key_pk_value(wire_text(w), w, p);
    lemma_with_key_chain(wire_text(w), w, p);
}

/// Law (round trip): the canonical text of any wire object parses back to
/// exactly that object.  Together with the contracts of
/// `BaseAccountJson::render` and `BaseAccountJson::parse` this makes
/// decode after encode the identity on every record, and encode after
/// decode the identity on every canonical text.
pub proof fn lemma_wire_round_trip(w: WireView)
    ensures
        wire_parse(wire_text(w)) == Ok::<WireView, DecodeError>(w),
{
    match w.pub_key {
        None => lemma_wire_round_trip_no_key(w),
        Some(p) => lemma_wire_round_trip_with_key(w, p),
    }
}

/// Appends the escaped form of `s`.
pub(crate) fn append_escaped(r: &mut String, s: &str)
    ensures
        final(r)@ == old(r)@ + esc(s@),
{
    let n = s.unicode_len();
    let mut i: usize = 0;
    proof {
        assert(s@.take(0) =~= Seq::<char>::empty());
        assert(esc(Seq::<char>::empty()) =~= Seq::<char>::empty());
        assert(old(r)@ + esc(s@.take(0)) =~= old(r)@);
    }
    while i < n
        invariant
            i <= n,
            n == s@.len(),
            r@ == old(r)@ + esc(s@.take(i as int)),
        decreases n - i,
    {
        let c = s.get_char(i);
        let ghost pre = r@;
        if c == '"' {
            r.append("\\\"");
            proof {
                reveal_strlit("\\\"");
                assert(("\\\"")@ =~= esc_char('"'));
            }
        } else if c == '\\' {
            r.append("\\\\");
            proof {
                reveal_strlit("\\\\");
                assert(("\\\\")@ =~= esc_char('\\'));
            }
        } else {
            let piece = s.substring_char(i, i + 1);
            r.append(piece);
            proof {
                assert(piece@ =~= esc_char(s@[i as int]));
            }
        }
        proof {
            lemma_esc_push(s@.take(i as int), s@[i as int]);
            assert(s@.take(i + 1) =~= s@.take(i as int).push(s@[i as int]));
            assert(r@ =~= pre + esc_char(s@[i as int]));
            assert(old(r)@ + esc(s@.take(i + 1)) =~= (old(r)@ + esc(s@.take(i as int)))
                + esc_char(s@[i as int]));
        }
        i = i + 1;
    }
    proof {
        assert(s@.take(n as int) =~= s@);
    }
}

/// A text built by appending the members left to right equals the
/// canonical text, which is grouped to the right.
pub(crate) proof fn lemma_render_text(w: WireView, t: Seq<char>)
    requires
        match w.pub_key {
            None => t == "{\""@ + "@type"@ + "\":\""@ + esc(w.type_url) + "\",\""@
                + "account_number"@ + "\":\""@ + dec_digits(w.account_number as nat) + "\",\""@
                + "address"@ + "\":\""@ + esc(w.address) + "\",\""@ + "pub_key"@ + "\":"@ + "null"@
                + ",\""@ + "sequence"@ + "\":\""@ + dec_digits(w.sequence as nat) + "\"}"@,
            Some(p) => t == "{\""@ + "@type"@ + "\":\""@ + esc(w.type_url) + "\",\""@
                + "account_number"@ + "\":\""@ + dec_digits(w.account_number as nat) + "\",\""@
                + "address"@ + "\":\""@ + esc(w.address) + "\",\""@ + "pub_key"@ + "\":"@ + "{\""@
                + "@type"@ + "\":\""@ + esc(p.type_url) + "\",\""@ + "key"@ + "\":\""@ + esc(p.key)
                + "\"}"@ + ",\""@ + "sequence"@ + "\":\""@ + dec_digits(w.sequence as nat)
                + "\"}"@,
        },
    ensures
        t == wire_text(w),
{
    let tg = esc(w.type_url);
    let dd = esc(w.address);
    let an = dec_digits(w.account_number as nat);
    let sq = dec_digits(w.sequence as nat);
    match w.pub_key {
        None => {
            let r21 = "\"}"@;
            let r20 = sq + r21;
            let r19 = "\":\""@ + r20;
            let r18 = "sequence"@ + r19;
            let r17 = ",\""@ + r18;
            let r16 = "null"@ + r17;
            let r15 = "\":"@ + r16;
            let r14 = "pub_key"@ + r15;
            let r13 = "\",\""@ + r14;
            let r12 = dd + r13;
            let r11 = "\":\""@ + r12;
            let r10 = "address"@ + r11;
            let r9 = "\",\""@ + r10;
            let r8 = an + r9;
            let r7 = "\":\""@ + r8;
            let r6 = "account_number"@ + r7;
            let r5 = "\",\""@ + r6;
            let r4 = tg + r5;
            let r3 = "\":\""@ + r4;
            let r2 = "@type"@ + r3;
            let l1 = "{\""@;
            let l2 = l1 + "@type"@;
            let l3 = l2 + "\":\""@;
            let l4 = l3 + tg;
            let l5 = l4 + "\",\""@;
            let l6 = l5 + "account_number"@;
            let l7 = l6 + "\":\""@;
            let l8 = l7 + an;
            let l9 = l8 + "\",\""@;
            let l10 = l9 + "address"@;
            let l11 = l10 + "\":\""@;
            let l12 = l11 + dd;
            let l13 = l12 + "\",\""@;
            let l14 = l13 + "pub_key"@;
            let l15 = l14 + "\":"@;
            let l16 = l15 + "null"@;
            let l17 = l16 + ",\""@;
            let l18 = l17 + "sequence"@;
            let l19 = l18 + "\":\""@;
            let l20 = l19 + sq;
            assert(t == l20 + "\"}"@);
            lemma_assoc(l19, sq, r21);
            lemma_assoc(l18, "\":\""@, r20);
            lemma_assoc(l17, "sequence"@, r19);
            lemma_assoc(l16, ",\""@, r18);
            lemma_assoc(l15, "null"@, r17);
            lemma_assoc(l14, "\":"@, r16);
            lemma_assoc(l13, "pub_key"@, r15);
            lemma_assoc(l12, "\",\""@, r14);
            lemma_assoc(l11, dd, r13);
            lemma_assoc(l10, "\":\""@, r12);
            lemma_assoc(l9, "address"@, r11);
            lemma_assoc(l8, "\",\""@, r10);
            lemma_assoc(l7, an, r9);
            lemma_assoc(l6, "\":\""@, r8);
            lemma_assoc(l5, "account_number"@, r7);
            lemma_assoc(l4, "\",\""@, r6);
            lemma_assoc(l3, tg, r5);
            lemma_assoc(l2, "\":\""@, r4);
            lemma_assoc(l1, "@type"@, r3);
        },
        Some(p) => {
            let uu = esc(p.type_url);
            let kk = esc(p.key);
            let r28 = "\"}"@;
            let r27 = sq + r28;
            let r26 = "\":\""@ + r27;
            let r25 = "sequence"@ + r26;
            let r24 = ",\""@ + r25;
            let r23 = "\"}"@ + r24;
            let r22 = kk + r23;
            let r21 = "\":\""@ + r22;
            let r20 = "key"@ + r21;
            let r19 = "\",\""@ + r20;
            let r18 = uu + r19;
            let r17 = "\":\""@ + r18;
            let r16 = "@type"@ + r17;
            let r15 = "{\""@ + r16;
            let r14b = "\":"@ + r15;
            let r14 = "pub_key"@ + r14b;
            let r13 = "\",\""@ + r14;
            let r12 = dd + r13;
            let r11 = "\":\""@ + r12;
            let r10 = "address"@ + r11;
            let r9 = "\",\""@ + r10;
            let r8 = an + r9;
            let r7 = "\":\""@ + r8;
            let r6 = "account_number"@ + r7;
            let r5 = "\",\""@ + r6;
            let r4 = tg + r5;
            let r3 = "\":\""@ + r4;
            let r2 = "@type"@ + r3;
            let l1 = "{\""@;
            let l2 = l1 + "@type"@;
            let l3 = l2 + "\":\""@;
            let l4 = l3 + tg;
            let l5 = l4 + "\",\""@;
            let l6 = l5 + "account_number"@;
            let l7 = l6 + "\":\""@;
            let l8 = l7 + an;
            let l9 = l8 + "\",\""@;
            let l10 = l9 + "address"@;
            let l11 = l10 + "\":\""@;
            let l12 = l11 + dd;
            let l13 = l12 + "\",\""@;
            let l14 = l13 + "pub_key"@;
            let l15 = l14 + "\":"@;
            let l16 = l15 + "{\""@;
            let l17 = l16 + "@type"@;
            let l18 = l17 + "\":\""@;
            let l19 = l18 + uu;
            let l20 = l19 + "\",\""@;
            let l21 = l20 + "key"@;
            let l22 = l21 + "\":\""@;
            let l23 = l22 + kk;
            let l24 = l23 + "\"}"@;
            let l25 = l24 + ",\""@;
            let l26 = l25 + "sequence"@;
            let l27 = l26 + "\":\""@;
            let l28 = l27 + sq;
            assert(t == l28 + "\"}"@);
            lemma_assoc(l27, sq, r28);
            lemma_assoc(l26, "\":\""@, r27);
            lemma_assoc(l25, "sequence"@, r26);
            lemma_assoc(l24, ",\""@, r25);
            lemma_assoc(l23, "\"}"@, r24);
            lemma_assoc(l22, kk, r23);
            lemma_assoc(l21, "\":\""@, r22);
            lemma_assoc(l20, "key"@, r21);
            lemma_assoc(l19, "\",\""@, r20);
            lemma_assoc(l18, uu, r19);
            lemma_assoc(l17, "\":\""@, r18);
            lemma_assoc(l16, "@type"@, r17);
            lemma_assoc(l15, "{\""@, r16);
            lemma_assoc(l14, "\":"@, r15);
            lemma_assoc(l13, "pub_key"@, r14b);
            lemma_assoc(l12, "\",\""@, r14);
            lemma_assoc(l11, dd, r13);
            lemma_assoc(l10, "\":\""@, r12);
            lemma_assoc(l9, "address"@, r11);
            lemma_assoc(l8, "\",\""@, r10);
            lemma_assoc(l7, an, r9);
            lemma_assoc(l6, "\":\""@, r8);
            lemma_assoc(l5, "account_number"@, r7);
            lemma_assoc(l4, "\",\""@, r6);
            lemma_assoc(l3, tg, r5);
            lemma_assoc(l2, "\":\""@, r4);
            lemma_assoc(l1, "@type"@, r3);
        },
    }
}

/// Where each token of the canonical text of a key-less record with the
/// `pub_key` member omitted stands.
#[verifier::rlimit(100)]
#[verifier::spinoff_prover]
proof fn lemma_canon_facts_omitted(w: WireView)
    requires
        w.pub_key is None,
    ensures
        ({
            let t = wire_text_no_key(w);
            let a5 = nk_a5(w);
            let a9 = nk_a9(w);
            let c13 = a9 + 13 + esc(w.address).len() as int;
            let zo = c13 + 14 + dec_digits(w.sequence as nat).len() as int;
            &&& t.len() == zo + 2
            &&& skip_ws(t, 0) == 0
            &&& t[0] == '{'
            &&& skip_ws(t, 1) == 1
            &&& t[1] == '"'
            &&& scan_str(t, 2) == Some(("@type"@, 8int))
            &&& skip_ws(t, 8) == 8
            &&& t[8] == ':'
            &&& skip_ws(t, 9) == 9
            &&& parse_str_value(t, 9) == Some((w.type_url, a5 + 1))
            &&& skip_ws(t, a5 + 1) == a5 + 1
            &&& t[a5 + 1] == ','
            &&& skip_ws(t, a5 + 2) == a5 + 2
            &&& t[a5 + 2] == '"'
            &&& scan_str(t, a5 + 3) == Some(("account_number"@, a5 + 18))
            &&& skip_ws(t, a5 + 18) == a5 + 18
            &&& t[a5 + 18] == ':'
            &&& skip_ws(t, a5 + 19) == a5 + 19
            &&& parse_str_value(t, a5 + 19) == Some(
                (dec_digits(w.account_number as nat), a9 + 1),
            )
            &&& skip_ws(t, a9 + 1) == a9 + 1
            &&& t[a9 + 1] == ','
            &&& skip_ws(t, a9 + 2) == a9 + 2
            &&& t[a9 + 2] == '"'
            &&& scan_str(t, a9 + 3) == Some(("address"@, a9 + 11))
            &&& skip_ws(t, a9 + 11) == a9 + 11
            &&& t[a9 + 11] == ':'
            &&& skip_ws(t, a9 + 12) == a9 + 12
            &&& parse_str_value(t, a9 + 12) == Some((w.address, c13 + 1))
            &&& skip_ws(t, c13 + 1) == c13 + 1
            &&& t[c13 + 1] == ','
            &&& skip_ws(t, c13 + 2) == c13 + 2
            &&& t[c13 + 2] == '"'
            &&& scan_str(t, c13 + 3) == Some(("sequence"@, c13 + 12))
            &&& skip_ws(t, c13 + 12) == c13 + 12
            &&& t[c13 + 12] == ':'
            &&& skip_ws(t, c13 + 13) == c13 + 13
            &&& parse_str_value(t, c13 + 13) == Some((dec_digits(w.sequence as nat), zo + 1))
            &&& skip_ws(t, zo + 1) == zo + 1
            &&& t[zo + 1] == '}'
            &&& skip_ws(t, t.len() as int) == t.len()
        }),
{
    reveal_strlit("{\"");
    reveal_strlit("\":\"");
    reveal_strlit("\",\"");
    reveal_strlit("\"}");
    lemma_name_esc();
    let t = wire_text_no_key(w);
    let tg = esc(w.type_url);
    let dd = esc(w.address);
    let an = dec_digits(w.account_number as nat);
    let sq = dec_digits(w.sequence as nat);
    crate::string_codec::lemma_dec_digits(w.account_number as nat);
    crate::string_codec::lemma_dec_digits(w.sequence as nat);
    lemma_digits_str_ok(an);
    lemma_digits_str_ok(sq);
    lemma_esc_id(an);
    lemma_esc_id(sq);
    let a5 = 10 + tg.len() as int;
    let a9 = a5 + 20 + an.len() as int;
    let c13 = a9 + 13 + dd.len() as int;
    let zo = c13 + 14 + sq.len() as int;
    lemma_subrange_all(t);
    let r16 = "\"}"@;
    let r15 = sq + r16;
    let r14 = "\":\""@ + r15;
    let r13 = "sequence"@ + r14;
    let r12b = "\",\""@ + r13;
    let r12 = dd + r12b;
    let r11 = "\":\""@ + r12;
    let r10 = "address"@ + r11;
    let r9 = "\",\""@ + r10;
    let r8 = an + r9;
    let r7 = "\":\""@ + r8;
    let r6 = "account_number"@ + r7;
    let r5 = "\",\""@ + r6;
    let r4 = tg + r5;
    let r3 = "\":\""@ + r4;
    let r2 = "@type"@ + r3;
    assert(t == "{\""@ + r2);
    lemma_peel(t, 0, "{\""@, r2);
    lemma_peel(t, 2, "@type"@, r3);
    lemma_peel(t, 7, "\":\""@, r4);
    lemma_peel(t, 10, tg, r5);
    lemma_peel(t, a5, "\",\""@, r6);
    lemma_peel(t, a5 + 3, "account_number"@, r7);
    lemma_peel(t, a5 + 17, "\":\""@, r8);
    lemma_peel(t, a5 + 20, an, r9);
    lemma_peel(t, a9, "\",\""@, r10);
    lemma_peel(t, a9 + 3, "address"@, r11);
    lemma_peel(t, a9 + 10, "\":\""@, r12);
    lemma_peel(t, a9 + 13, dd, r12b);
    lemma_peel(t, c13, "\",\""@, r13);
    lemma_peel(t, c13 + 3, "sequence"@, r14);
    lemma_peel(t, c13 + 11, "\":\""@, r15);
    lemma_peel(t, c13 + 14, sq, r16);
    lemma_char_at(t, 0, "{\""@, 0);
    lemma_char_at(t, 0, "{\""@, 1);
    lemma_char_at(t, 7, "\":\""@, 0);
    lemma_char_at(t, 7, "\":\""@, 1);
    lemma_char_at(t, 7, "\":\""@, 2);
    lemma_char_at(t, a5, "\",\""@, 0);
    lemma_char_at(t, a5, "\",\""@, 1);
    lemma_char_at(t, a5, "\",\""@, 2);
    lemma_char_at(t, a5 + 17, "\":\""@, 0);
    lemma_char_at(t, a5 + 17, "\":\""@, 1);
    lemma_char_at(t, a5 + 17, "\":\""@, 2);
    lemma_char_at(t, a9, "\",\""@, 0);
    lemma_char_at(t, a9, "\",\""@, 1);
    lemma_char_at(t, a9, "\",\""@, 2);
    lemma_char_at(t, a9 + 10, "\":\""@, 0);
    lemma_char_at(t, a9 + 10, "\":\""@, 1);
    lemma_char_at(t, a9 + 10, "\":\""@, 2);
    lemma_char_at(t, c13, "\",\""@, 0);
    lemma_char_at(t, c13, "\",\""@, 1);
    lemma_char_at(t, c13, "\",\""@, 2);
    lemma_char_at(t, c13 + 11, "\":\""@, 0);
    lemma_char_at(t, c13 + 11, "\":\""@, 1);
    lemma_char_at(t, c13 + 11, "\":\""@, 2);
    lemma_char_at(t, zo, "\"}"@, 0);
    lemma_char_at(t, zo, "\"}"@, 1);
    lemma_skip_here(t, 0);
    lemma_skip_here(t, 1);
    lemma_skip_here(t, 8);
    lemma_skip_here(t, 9);
    lemma_skip_here(t, a5 + 1);
    lemma_skip_here(t, a5 + 2);
    lemma_skip_here(t, a5 + 18);
    lemma_skip_here(t, a5 + 19);
    lemma_skip_here(t, a9 + 1);
    lemma_skip_here(t, a9 + 2);
    lemma_skip_here(t, a9 + 11);
    lemma_skip_here(t, a9 + 12);
    lemma_skip_here(t, c13 + 1);
    lemma_skip_here(t, c13 + 2);
    lemma_skip_here(t, c13 + 12);
    lemma_skip_here(t, c13 + 13);
    lemma_skip_here(t, zo + 1);
    lemma_skip_here(t, t.len() as int);
    lemma_scan_esc(t, 2, "@type"@);
    lemma_scan_esc(t, 10, w.type_url);
    lemma_scan_esc(t, a5 + 3, "account_number"@);
    lemma_scan_esc(t, a5 + 20, an);
    lemma_scan_esc(t, a9 + 3, "address"@);
    lemma_scan_esc(t, a9 + 13, w.address);
    lemma_scan_esc(t, c13 + 3, "sequence"@);
    lemma_scan_esc(t, c13 + 14, sq);
    lemma_psv(t, 9, w.type_url, a5 + 1);
    lemma_psv(t, a5 + 19, an, a9 + 1);
    lemma_psv(t, a9 + 12, w.address, c13 + 1);
    lemma_psv(t, c13 + 13, sq, zo + 1);
}

/// Law (optional key, absent form): a text that omits the `pub_key`
/// member decodes to the wire object without a key, exactly as the
/// canonical text with `pub_key` written as `null` does.
#[verifier::rlimit(100)]
#[verifier::spinoff_prover]
proof fn lemma_omitted_chain(w: WireView)
    requires
        w.pub_key is None,
        ({
            let t = wire_text_no_key(w);
            let a5 = nk_a5(w);
            let a9 = nk_a9(w);
            let c13 = a9 + 13 + esc(w.address).len() as int;
            let zo = c13 + 14 + dec_digits(w.sequence as nat).len() as int;
            &&& t.len() == zo + 2
            &&& skip_ws(t, 0) == 0
            &&& t[0] == '{'
            &&& skip_ws(t, 1) == 1
            &&& t[1] == '"'
            &&& scan_str(t, 2) == Some(("@type"@, 8int))
            &&& skip_ws(t, 8) == 8
            &&& t[8] == ':'
            &&& skip_ws(t, 9) == 9
            &&& parse_str_value(t, 9) == Some((w.type_url, a5 + 1))
            &&& skip_ws(t, a5 + 1) == a5 + 1
            &&& t[a5 + 1] == ','
            &&& skip_ws(t, a5 + 2) == a5 + 2
            &&& t[a5 + 2] == '"'
            &&& scan_str(t, a5 + 3) == Some(("account_number"@, a5 + 18))
            &&& skip_ws(t, a5 + 18) == a5 + 18
            &&& t[a5 + 18] == ':'
            &&& skip_ws(t, a5 + 19) == a5 + 19
            &&& parse_str_value(t, a5 + 19) == Some(
                (dec_digits(w.account_number as nat), a9 + 1),
            )
            &&& skip_ws(t, a9 + 1) == a9 + 1
            &&& t[a9 + 1] == ','
            &&& skip_ws(t, a9 + 2) == a9 + 2
            &&& t[a9 + 2] == '"'
            &&& scan_str(t, a9 + 3) == Some(("address"@, a9 + 11))
            &&& skip_ws(t, a9 + 11) == a9 + 11
            &&& t[a9 + 11] == ':'
            &&& skip_ws(t, a9 + 12) == a9 + 12
            &&& parse_str_value(t, a9 + 12) == Some((w.address, c13 + 1))
            &&& skip_ws(t, c13 + 1) == c13 + 1
            &&& t[c13 + 1] == ','
            &&& skip_ws(t, c13 + 2) == c13 + 2
            &&& t[c13 + 2] == '"'
            &&& scan_str(t, c13 + 3) == Some(("sequence"@, c13 + 12))
            &&& skip_ws(t, c13 + 12) == c13 + 12
            &&& t[c13 + 12] == ':'
            &&& skip_ws(t, c13 + 13) == c13 + 13
            &&& parse_str_value(t, c13 + 13) == Some((dec_digits(w.sequence as nat), zo + 1))
            &&& skip_ws(t, zo + 1) == zo + 1
            &&& t[zo + 1] == '}'
            &&& skip_ws(t, t.len() as int) == t.len()
        }),
    ensures
        wire_parse(wire_text_no_key(w)) == Ok::<WireView, DecodeError>(w),
{
    let t = wire_text_no_key(w);
    let a5 = nk_a5(w);
    let a9 = nk_a9(w);
    let c13 = a9 + 13 + esc(w.address).len() as int;
    let zo = c13 + 14 + dec_digits(w.sequence as nat).len() as int;
    let an = dec_digits(w.account_number as nat);
    let sq = dec_digits(w.sequence as nat);
    crate::string_codec::lemma_dec_digits(w.account_number as nat);
    crate::string_codec::lemma_dec_digits(w.sequence as nat);
    let m0 = macc_empty();
    let m1 = MAcc { tag: Some(w.type_url), ..m0 };
    let m2 = MAcc { account_number: Some(w.account_number), ..m1 };
    let m3 = MAcc { address: Some(w.address), ..m2 };
    let m4 = MAcc { sequence: Some(w.sequence), ..m3 };
    lemma_eval_tag(t, 9, m0, w.type_url, a5 + 1);
    assert(digits_val(an) as u64 == w.account_number);
    lemma_eval_an(t, a5 + 19, m1, an, a9 + 1);
    lemma_eval_addr(t, a9 + 12, m2, w.address, c13 + 1);
    assert(digits_val(sq) as u64 == w.sequence);
    lemma_eval_sq(t, c13 + 13, m3, sq, zo + 1);
    let fin: Result<(MAcc, int), DecodeError> = Ok((m4, t.len() as int));
    lemma_members_end(t, c13 + 2, m3, m4, "sequence"@, c13 + 12, c13 + 13, zo + 1, 2);
    lemma_members_comma(
        t,
        a9 + 2,
        m2,
        m3,
        "address"@,
        a9 + 11,
        a9 + 12,
        c13 + 1,
        c13 + 2,
        3,
        fin,
    );
    lemma_members_comma(
        t,
        a5 + 2,
        m1,
        m2,
        "account_number"@,
        a5 + 18,
        a5 + 19,
        a9 + 1,
        a9 + 2,
        4,
        fin,
    );
    lemma_members_comma(t, 1, m0, m1, "@type"@, 8, 9, a5 + 1, a5 + 2, 5, fin);
    lemma_wire_assemble(t, w, m4, 0, 1, t.len() as int);
}

/// Law (optional key, absent form): a text that omits the `pub_key`
/// member decodes to the wire object without a key, exactly as the
/// canonical text with `pub_key` written as `null` does.
pub proof fn lemma_wire_parse_omitted_key(w: WireView)
    requires
        w.pub_key is None,
    ensures
        wire_parse(wire_text_no_key(w)) == Ok::<WireView, DecodeError>(w),
{
    lemma_canon_facts_omitted(w);
    lemma_omitted_chain(w);
}

/// Every canonical text opens with the object brace, the `@type` member
/// name, and then the wire object's own tag written escaped, whatever the
/// object holds.
#[verifier::rlimit(50)]
#[verifier::spinoff_prover]
pub proof fn lemma_wire_text_tag(w: WireView)
    ensures
        wire_text(w).subrange(0, 2) == "{\""@,
        wire_text(w).subrange(2, 7) == "@type"@,
        wire_text(w).subrange(7, 10) == "\":\""@,
        wire_text(w).subrange(10, 10 + esc(w.type_url).len() as int) == esc(w.type_url),
        wire_text(w)[10 + esc(w.type_url).len() as int] == '"',
        wire_text(w).len() > 10 + esc(w.type_url).len(),
{
    reveal_strlit("{\"");
    reveal_strlit("\":\"");
    reveal_strlit("\",\"");
    lemma_name_esc();
    let t = wire_text(w);
    let tg = esc(w.type_url);
    let an = dec_digits(w.account_number as nat);
    let a5 = 10 + tg.len() as int;
    lemma_subrange_all(t);
    match w.pub_key {
        None => {
            let rest = "account_number"@ + ("\":\""@ + (an + ("\",\""@ + ("address"@ + ("\":\""@
                + (esc(w.address) + ("\",\""@ + ("pub_key"@ + ("\":"@ + ("null"@ + (",\""@ + (
            "sequence"@ + ("\":\""@ + (dec_digits(w.sequence as nat) + "\"}"@))))))))))))));
            let r5 = "\",\""@ + rest;
            let r4 = tg + r5;
            let r3 = "\":\""@ + r4;
            let r2 = "@type"@ + r3;
            assert(t == "{\""@ + r2);
            lemma_peel(t, 0, "{\""@, r2);
            lemma_peel(t, 2, "@type"@, r3);
            lemma_peel(t, 7, "\":\""@, r4);
            lemma_peel(t, 10, tg, r5);
            lemma_peel(t, a5, "\",\""@, rest);
            lemma_char_at(t, a5, "\",\""@, 0);
        },
        Some(p) => {
            let rest = "account_number"@ + ("\":\""@ + (an + ("\",\""@ + ("address"@ + ("\":\""@
                + (esc(w.address) + ("\",\""@ + ("pub_key"@ + ("\":"@ + ("{\""@ + ("@type"@ + (
            "\":\""@ + (esc(p.type_url) + ("\",\""@ + ("key"@ + ("\":\""@ + (esc(p.key) + ("\"}"@
                + (",\""@ + ("sequence"@ + ("\":\""@ + (dec_digits(w.sequence as nat)
                + "\"}"@))))))))))))))))))))));
            let r5 = "\",\""@ + rest;
            let r4 = tg + r5;
            let r3 = "\":\""@ + r4;
            let r2 = "@type"@ + r3;
            assert(t == "{\""@ + r2);
            lemma_peel(t, 0, "{\""@, r2);
            lemma_peel(t, 2, "@type"@, r3);
            lemma_peel(t, 7, "\":\""@, r4);
            lemma_peel(t, 10, tg, r5);
            lemma_peel(t, a5, "\",\""@, rest);
            lemma_char_at(t, a5, "\",\""@, 0);
        },
    }
}

} // verus!
