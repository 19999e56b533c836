use vstd::prelude::*;
use vstd::string::StringExecFns;

use crate::error::StorageError;

verus! {

#[verifier::external_type_specification]
#[verifier::external_body]
pub struct ExRegex(regex::Regex);

#[verifier::external_type_specification]
#[verifier::external_body]
pub struct ExRegexError(regex::Error);

/// The pattern that every key must match, anchored at both ends.
pub const KEY_PATTERN: &'static str = "^K-[a-z0-9]{5}-[A-Z]$";

/// The text that starts the message of a rejected key; the key follows it.
pub const INVALID_KEY_PREFIX: &'static str = "Key is wrong: ";

/// A lowercase ASCII letter or an ASCII digit.
pub open spec fn is_lower_alnum(c: char) -> bool {
    ('a' <= c && c <= 'z') || ('0' <= c && c <= '9')
}

/// An uppercase ASCII letter.
pub open spec fn is_upper(c: char) -> bool {
    'A' <= c && c <= 'Z'
}

/// `K-`, five lowercase letters or digits, `-`, one uppercase letter, and nothing else.
pub open spec fn is_well_formed_key(s: Seq<char>) -> bool {
    &&& s.len() == 9
    &&& s[0] == 'K'
    &&& s[1] == '-'
    &&& forall|i: int| 2 <= i < 7 ==> is_lower_alnum(#[trigger] s[i])
    &&& s[7] == '-'
    &&& is_upper(s[8])
}

/// A compiled key pattern together with the text it was compiled from.
/// Values are made only by `compile_pattern`, so `matcher` is always the
/// compilation of `pattern`.
pub struct KeyValidator {
    pattern: String,
    matcher: regex::Regex,
}

impl View for KeyValidator {
    type V = Seq<char>;

    /// The pattern text.
    closed spec fn view(&self) -> Seq<char> {
        self.pattern@
    }
}

/// Relies on regex::Regex::new: compiles `pattern`, or reports why it could not.
/// It fails only on a pattern of invalid syntax or one whose compiled form
/// exceeds the default size limit (10 MiB); the key pattern is neither.
#[verifier::external_body]
fn compile_pattern(pattern: &str) -> (r: Result<KeyValidator, regex::Error>)
    ensures
        r matches Ok(v) ==> v@ == pattern@,
        pattern@ == KEY_PATTERN@ ==> r is Ok,
{
    match regex::Regex::new(pattern) {
        Ok(matcher) => Ok(KeyValidator { pattern: pattern.to_owned(), matcher }),
        Err(e) => Err(e),
    }
}

/// Relies on regex::Regex::is_match: whether `text` holds a match of the
/// compiled pattern. For the key pattern (anchored by `^` and `$`, `$` being
/// the end of the text outside multi-line mode) that is the key shape.
#[verifier::external_body]
fn pattern_is_match(v: &KeyValidator, text: &str) -> (r: bool)
    ensures
        v@ == KEY_PATTERN@ ==> r == is_well_formed_key(text@),
{
    v.matcher.is_match(text)
}

/// The message of a rejected key: the prefix, then the key verbatim.
fn invalid_key_message(key: &str) -> (r: String)
    ensures
        r@ == INVALID_KEY_PREFIX@ + key@,
{
    let prefix = String::from_str(INVALID_KEY_PREFIX);
    prefix.concat(key)
}

impl KeyValidator {
    /// Compiles the key pattern once, so that it can be reused for every key.
    pub fn new() -> (r: KeyValidator)
        ensures
            r@ == KEY_PATTERN@,
    {
        compile_pattern(KEY_PATTERN).unwrap()
    }

    /// Checks `key` against the key pattern; on success pairs it with `tenant`.
    pub fn validate(&self, key: &str, tenant: &str) -> (r: Result<KeyAndTenant, StorageError>)
        requires
            self@ == KEY_PATTERN@,
        ensures
            r is Ok <==> is_well_formed_key(key@),
            r matches Ok(kt) ==> kt@ == (key@, tenant@),
            r matches Err(e) ==> (e matches StorageError::InvalidKey(m) && m@ == INVALID_KEY_PREFIX@
                + key@),
    {
        if pattern_is_match(self, key) {
            Ok(KeyAndTenant { key: String::from_str(key), tenant: String::from_str(tenant) })
        } else {
            Err(StorageError::InvalidKey(invalid_key_message(key)))
        }
    }
}

/// A message's identity: its key and its tenant. Two identities are the same
/// exactly when both texts are equal.
#[derive(Debug)]
pub struct KeyAndTenant {
    key: String,
    tenant: String,
}

impl View for KeyAndTenant {
    type V = (Seq<char>, Seq<char>);

    closed spec fn view(&self) -> (Seq<char>, Seq<char>) {
        (self.key@, self.tenant@)
    }
}

impl KeyAndTenant {
    /// Checks the key's shape and pairs it with the tenant: the key must be
    /// `K-`, five lowercase letters or digits, `-` and one uppercase letter.
    /// A key of any other shape is rejected with a message that names it.
    pub fn try_from_parts(key: &str, tenant: &str) -> (r: Result<KeyAndTenant, StorageError>)
        ensures
            r is Ok <==> is_well_formed_key(key@),
            r matches Ok(kt) ==> kt@ == (key@, tenant@),
            r matches Err(e) ==> (e matches StorageError::InvalidKey(m) && m@ == INVALID_KEY_PREFIX@
                + key@),
    {
        let validator = KeyValidator::new();
        validator.validate(key, tenant)
    }

    /// The key text.
    pub fn key(&self) -> (r: &str)
        ensures
            r@ == self@.0,
    {
        self.key.as_str()
    }

    /// The tenant text.
    pub fn tenant(&self) -> (r: &str)
        ensures
            r@ == self@.1,
    {
        self.tenant.as_str()
    }

    /// Whether `self` and `other` are the same identity.
    pub fn same_identity(&self, other: &KeyAndTenant) -> (r: bool)
        ensures
            r == (self@ == other@),
    {
        self.key == other.key && self.tenant == other.tenant
    }
}

} // verus!
