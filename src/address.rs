//! Account identifiers: hex text to validated 20-byte handles.

use vstd::prelude::*;
use crate::error::EngineError;

verus! {

pub open spec fn is_hex_digit(c: char) -> bool {
    ||| ('0' <= c && c <= '9')
    ||| ('a' <= c && c <= 'f')
    ||| ('A' <= c && c <= 'F')
}

pub open spec fn hex_value(c: char) -> nat {
    if '0' <= c && c <= '9' {
        (c as u32 - '0' as u32) as nat
    } else if 'a' <= c && c <= 'f' {
        (c as u32 - 'a' as u32 + 10) as nat
    } else {
        (c as u32 - 'A' as u32 + 10) as nat
    }
}

/// Characters that the hex decoder skips wherever they stand.
pub open spec fn is_hex_blank(c: char) -> bool {
    c == ' ' || c == '\r' || c == '\n' || c == '\t'
}

/// The text with one leading `0x` taken off, if there is one.
pub open spec fn without_0x(s: Seq<char>) -> Seq<char> {
    if s.len() >= 2 && s[0] == '0' && s[1] == 'x' {
        s.skip(2)
    } else {
        s
    }
}

/// What the hex decoder reads of an identifier: the text after `0x`,
/// blanks left out.
pub open spec fn hex_digits_of(s: Seq<char>) -> Seq<char> {
    without_0x(s).filter(|c: char| !is_hex_blank(c))
}

/// An identifier names an account when it holds exactly 40 hex digits.
pub open spec fn is_account_text(s: Seq<char>) -> bool {
    let d = hex_digits_of(s);
    &&& d.len() == 40
    &&& forall|i: int| 0 <= i < 40 ==> is_hex_digit(#[trigger] d[i])
}

/// The 20 bytes, big endian, that an account identifier spells.
pub open spec fn account_bytes_of(s: Seq<char>) -> Seq<u8> {
    let d = hex_digits_of(s);
    Seq::new(20, |i: int| (hex_value(d[2 * i]) * 16 + hex_value(d[2 * i + 1])) as u8)
}

/// Relies on `FromStr` for `ethers::types::Address` (`H160` of fixed-hash,
/// decoding with rustc-hex): after an optional `0x`, blanks are skipped and
/// exactly 40 hex digits of either case must remain; each pair is a byte.
#[verifier::external_body]
fn parse_h160(s: &str) -> (r: Option<[u8; 20]>)
    ensures
        r is Some <==> is_account_text(s@),
        r matches Some(b) ==> b@ == account_bytes_of(s@),
{
    s.parse::<ethers::types::Address>().ok().map(|a| a.0)
}

/// A validated chain account. Only parsing makes one.
#[derive(Clone, Copy, Debug, PartialEq, Eq, Hash)]
pub struct AccountHandle {
    bytes: [u8; 20],
}

impl View for AccountHandle {
    type V = Seq<u8>;

    closed spec fn view(&self) -> Seq<u8> {
        self.bytes@
    }
}

impl AccountHandle {
    /// The account that `s` names, if it names one.
    pub fn parse(s: &str) -> (r: Option<AccountHandle>)
        ensures
            r is Some <==> is_account_text(s@),
            r matches Some(h) ==> h@ == account_bytes_of(s@),
    {
        match parse_h160(s) {
            Some(b) => Some(AccountHandle { bytes: b }),
            None => None,
        }
    }

    /// The account's 20 bytes, big endian.
    pub fn to_bytes(&self) -> (r: [u8; 20])
        ensures
            r@ == self@,
    {
        self.bytes
    }
}

/// Every identifier of the list names an account.
pub open spec fn all_accounts(raw: Seq<String>) -> bool {
    forall|i: int| 0 <= i < raw.len() ==> is_account_text(#[trigger] raw[i]@)
}

/// The first index whose identifier names no account (the list's length
/// when there is none).
pub open spec fn first_malformed(raw: Seq<String>) -> int
    decreases raw.len(),
{
    if raw.len() == 0 {
        0
    } else if !is_account_text(raw[0]@) {
        0
    } else {
        1 + first_malformed(raw.skip(1))
    }
}

proof fn lemma_first_malformed(raw: Seq<String>, k: int)
    requires
        0 <= k <= raw.len(),
        forall|i: int| 0 <= i < k ==> is_account_text(#[trigger] raw[i]@),
        k == raw.len() || !is_account_text(raw[k]@),
    ensures
        first_malformed(raw) == k,
    decreases k,
{
    if k > 0 {
        let t = raw.skip(1);
        assert forall|i: int| 0 <= i < k - 1 implies is_account_text(#[trigger] t[i]@) by {
            assert(t[i] == raw[i + 1]);
        }
        if k < raw.len() {
            assert(t[k - 1] == raw[k]);
        }
        lemma_first_malformed(t, k - 1);
    }
}

/// Parses an ordered list of identifiers, keeping order and duplicates;
/// fails on the first one that names no account.
pub fn parse_accounts(raw: &Vec<String>) -> (r: Result<Vec<AccountHandle>, EngineError>)
    ensures
        r is Ok <==> all_accounts(raw@),
        r matches Ok(v) ==> {
            &&& v@.len() == raw@.len()
            &&& forall|i: int| 0 <= i < raw@.len() ==> (#[trigger] v@[i])@ == account_bytes_of(raw@[i]@)
        },
        r matches Err(e) ==> {
            let k = first_malformed(raw@);
            &&& 0 <= k < raw@.len()
            &&& e == (EngineError::MalformedAddress { index: k as usize, raw: raw@[k] })
        },
{
    let mut out: Vec<AccountHandle> = Vec::new();
    let mut i: usize = 0;
    while i < raw.len()
        invariant
            0 <= i <= raw@.len(),
            out@.len() == i,
            forall|j: int| 0 <= j < i ==> is_account_text(#[trigger] raw@[j]@),
            forall|j: int| 0 <= j < i ==> (#[trigger] out@[j])@ == account_bytes_of(raw@[j]@),
        decreases raw@.len() - i,
    {
        match AccountHandle::parse(raw[i].as_str()) {
            Some(h) => out.push(h),
            None => {
                proof {
                    lemma_first_malformed(raw@, i as int);
                }
                return Err(EngineError::MalformedAddress { index: i, raw: raw[i].clone() });
            },
        }
        i = i + 1;
    }
    Ok(out)
}

/// Parses a single identifier; a failure reports index 0.
pub fn parse_one(raw: &String) -> (r: Result<AccountHandle, EngineError>)
    ensures
        r is Ok <==> is_account_text(raw@),
        r matches Ok(h) ==> h@ == account_bytes_of(raw@),
        r matches Err(e) ==> e == (EngineError::MalformedAddress { index: 0, raw: *raw }),
{
    match AccountHandle::parse(raw.as_str()) {
        Some(h) => Ok(h),
        None => Err(EngineError::MalformedAddress { index: 0, raw: raw.clone() }),
    }
}

} // verus!
