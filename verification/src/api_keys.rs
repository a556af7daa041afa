//! API keys of the MCP HTTP transport: scopes, key generation (random secret, stored only as a
//! SHA-256 hash), the checks on a new key, and the verdict on a presented key.
use vstd::prelude::*;
use crate::crypto::{
    base64url_encode, base64url_text, hex_text, is_base64url_char, lemma_base64url_shape, random_bytes, sha256_digest,
    sha256_hex,
};
use crate::error::CoreError;
use crate::text::{push_str, slice, str_eq, to_string, trim, trim_spec};
use crate::time::Timestamp;

verus! {

/// The prefix of every plaintext API key.
pub const API_KEY_PREFIX: &'static str = "omg_live_";
/// Random bytes in a key.
pub const API_KEY_ENTROPY_BYTES: usize = 32;
/// Characters of the encoded secret kept in the key's public prefix.
pub const KEY_PREFIX_REVEAL_CHARS: usize = 7;

/// What an API key may do.
#[derive(Clone, Copy, Debug, PartialEq, Eq, Structural)]
pub enum ApiKeyScope {
    /// Read tools only.
    TasksRead,
    /// Non-destructive write tools; implies read.
    TasksWrite,
}

impl ApiKeyScope {
    /// The text form of a scope.
    pub open spec fn text(self) -> Seq<char> {
        match self {
            ApiKeyScope::TasksRead => "tasks:read"@,
            ApiKeyScope::TasksWrite => "tasks:write"@,
        }
    }

    /// The scope a text names, ignoring surrounding white space.
    pub open spec fn from_text(s: Seq<char>) -> Option<ApiKeyScope> {
        if trim_spec(s) == "tasks:read"@ {
            Some(ApiKeyScope::TasksRead)
        } else if trim_spec(s) == "tasks:write"@ {
            Some(ApiKeyScope::TasksWrite)
        } else {
            None
        }
    }

    /// The text form of a scope.
    pub fn as_str(&self) -> (s: &'static str)
        ensures
            s@ == self.text(),
    {
        match self {
            ApiKeyScope::TasksRead => "tasks:read",
            ApiKeyScope::TasksWrite => "tasks:write",
        }
    }

    /// Read a scope, ignoring surrounding white space.
    pub fn parse(value: &str) -> (r: Option<ApiKeyScope>)
        ensures
            r == ApiKeyScope::from_text(value@),
    {
        let t = trim(value);
        if str_eq(t, "tasks:read") {
            Some(ApiKeyScope::TasksRead)
        } else if str_eq(t, "tasks:write") {
            Some(ApiKeyScope::TasksWrite)
        } else {
            None
        }
    }

    /// Whether the scope permits write tools.
    pub fn allows_write(self) -> (r: bool)
        ensures
            r == (self == ApiKeyScope::TasksWrite),
    {
        match self {
            ApiKeyScope::TasksWrite => true,
            ApiKeyScope::TasksRead => false,
        }
    }

    /// Law: reading back the text of a scope gives the scope.
    pub proof fn lemma_text_round_trip(self)
        ensures
            ApiKeyScope::from_text(self.text()) == Some(self),
    {
        reveal_strlit("tasks:read");
        reveal_strlit("tasks:write");
        assert("tasks:read"@[6] != "tasks:write"@[6]);
        crate::text::lemma_trim_fixed(self.text());
    }
}

impl ApiKeyScope {
    /// Law: a scope reads back from its text with any white space around it.
    pub proof fn lemma_padded_text_round_trip(self, w: Seq<char>)
        requires
            forall|i: int| 0 <= i < w.len() ==> crate::text::is_ws(#[trigger] w[i]),
        ensures
            ApiKeyScope::from_text(w + self.text() + w) == Some(self),
    {
        reveal_strlit("tasks:read");
        reveal_strlit("tasks:write");
        assert("tasks:read"@[6] != "tasks:write"@[6]);
        crate::text::lemma_trim_padded(w, self.text());
    }
}

/// Whether any granted scope permits write tools.
pub fn scopes_allow_write(scopes: &[ApiKeyScope]) -> (r: bool)
    ensures
        r == scopes@.contains(ApiKeyScope::TasksWrite),
{
    let mut i: usize = 0;
    while i < scopes.len()
        invariant
            i <= scopes@.len(),
            forall|k: int| 0 <= k < i ==> scopes@[k] != ApiKeyScope::TasksWrite,
        decreases scopes@.len() - i,
    {
        if scopes[i].allows_write() {
            return true;
        }
        i = i + 1;
    }
    false
}

/// The public record of a stored API key; the hash is never part of it.
#[derive(Clone, Debug)]
pub struct ApiKey {
    pub id: String,
    pub name: String,
    /// `omg_live_` and the first characters of the secret, safe for logs.
    pub key_prefix: String,
    pub scopes: Vec<ApiKeyScope>,
    pub created_at: Timestamp,
    pub revoked_at: Option<Timestamp>,
}

impl ApiKey {
    /// Whether the key was revoked.
    pub fn is_revoked(&self) -> (r: bool)
        ensures
            r == self.revoked_at is Some,
    {
        self.revoked_at.is_some()
    }
}

/// The verdict on a presented API key.
#[derive(Debug)]
pub enum ApiKeyValidation {
    /// An active key.
    Valid(ApiKey),
    /// A revoked key; its id is safe for audit rows.
    Revoked { id: String },
    /// No key has this hash.
    Unknown,
}

/// The verdict on a presented key, given the stored key its hash found, if any.
pub fn api_key_verdict(found: Option<ApiKey>) -> (v: ApiKeyValidation)
    ensures
        match found {
            None => v is Unknown,
            Some(k) => if k.revoked_at is Some {
                v matches ApiKeyValidation::Revoked { id } && id == k.id
            } else {
                v matches ApiKeyValidation::Valid(k2) && k2 == k
            },
        },
{
    match found {
        None => ApiKeyValidation::Unknown,
        Some(k) => if k.is_revoked() {
            ApiKeyValidation::Revoked { id: k.id }
        } else {
            ApiKeyValidation::Valid(k)
        },
    }
}

/// The hash a key is stored and looked up by: the lower-case hex SHA-256 digest of its text.
pub fn api_key_hash(plaintext: &str) -> (s: String)
    ensures
        s@ == hex_text(sha256_digest(vstd::utf8::encode_utf8(plaintext@))),
{
    sha256_hex(plaintext)
}

/// A freshly generated key.
pub struct GeneratedKey {
    /// `omg_live_` and the base64url text of 32 random bytes; shown once, never stored.
    pub plaintext: String,
    /// The hex SHA-256 digest of the plaintext, which is what is stored.
    pub hash: String,
    /// The first sixteen characters of the plaintext.
    pub key_prefix: String,
}

/// Generate a key from 32 random bytes: the plaintext, its hash and its public prefix.
pub fn generate_key() -> (k: GeneratedKey)
    ensures
        exists|entropy: Seq<u8>|
            entropy.len() == API_KEY_ENTROPY_BYTES && k.plaintext@ == API_KEY_PREFIX@
                + base64url_text(entropy),
        k.plaintext@.len() == 52,
        k.hash@ == hex_text(sha256_digest(vstd::utf8::encode_utf8(k.plaintext@))),
        k.key_prefix@ == k.plaintext@.subrange(0, 16),
{
    let entropy = random_bytes(API_KEY_ENTROPY_BYTES);
    let encoded = base64url_encode(entropy.as_slice());
    proof {
        lemma_base64url_shape(entropy@);
        reveal_strlit("omg_live_");
    }
    let mut plaintext = to_string(API_KEY_PREFIX);
    push_str(&mut plaintext, encoded.as_str());
    let hash = sha256_hex(plaintext.as_str());
    let key_prefix = to_string(slice(plaintext.as_str(), 0, 16));
    GeneratedKey { plaintext, hash, key_prefix }
}

/// Check a new key's name and scopes: the trimmed name must not be empty and at least one scope
/// is required. Gives the trimmed name.
pub fn check_new_api_key(name: &str, scopes: &[ApiKeyScope]) -> (r: Result<String, CoreError>)
    ensures
        trim_spec(name@).len() == 0 ==> (r matches Err(CoreError::Validation(m)) && m@
            == "API key name is required"@),
        trim_spec(name@).len() > 0 && scopes@.len() == 0 ==> (r matches Err(CoreError::Validation(m))
            && m@ == "at least one scope is required"@),
        trim_spec(name@).len() > 0 && scopes@.len() > 0 ==> (r matches Ok(n) && n@ == trim_spec(
            name@,
        )),
{
    let t = trim(name);
    if t.unicode_len() == 0 {
        return Err(CoreError::Validation(to_string("API key name is required")));
    }
    if scopes.len() == 0 {
        return Err(CoreError::Validation(to_string("at least one scope is required")));
    }
    Ok(to_string(t))
}

/// The JSON array text of scopes as stored: `["tasks:read","tasks:write"]`.
pub open spec fn scopes_json_text(scopes: Seq<ApiKeyScope>) -> Seq<char>
    decreases scopes.len(),
{
    if scopes.len() == 0 {
        "[]"@
    } else {
        scopes_json_inner(scopes) + "]"@
    }
}

/// The JSON array of scopes without its closing bracket.
pub open spec fn scopes_json_inner(scopes: Seq<ApiKeyScope>) -> Seq<char>
    decreases scopes.len(),
{
    if scopes.len() == 0 {
        "["@
    } else if scopes.len() == 1 {
        "[\""@ + scopes[0].text() + "\""@
    } else {
        scopes_json_inner(scopes.drop_last()) + ",\""@ + scopes.last().text() + "\""@
    }
}

/// The scopes as the stored JSON array of their names.
pub fn scopes_json(scopes: &[ApiKeyScope]) -> (s: String)
    ensures
        s@ == scopes_json_text(scopes@),
{
    let n = scopes.len();
    if n == 0 {
        return to_string("[]");
    }
    let mut s = to_string("[");
    let mut i: usize = 0;
    proof {
        assert(scopes@.subrange(0, 0) =~= Seq::<ApiKeyScope>::empty());
        reveal_strlit("[");
        reveal_strlit("\"");
        reveal_strlit("[\"");
        reveal_strlit(",");
        reveal_strlit(",\"");
    }
    while i < n
        invariant
            n == scopes@.len(),
            i <= n,
            s@ == scopes_json_inner(scopes@.subrange(0, i as int)),
        decreases n - i,
    {
        let ghost before = s@;
        if i > 0 {
            push_str(&mut s, ",");
        }
        push_str(&mut s, "\"");
        push_str(&mut s, scopes[i].as_str());
        push_str(&mut s, "\"");
        proof {
            reveal_strlit("[");
            reveal_strlit("\"");
            reveal_strlit("[\"");
            reveal_strlit(",");
            reveal_strlit(",\"");
            let pre = scopes@.subrange(0, i as int + 1);
            assert(pre.drop_last() =~= scopes@.subrange(0, i as int));
            assert(pre.last() == scopes@[i as int]);
            if i == 0 {
                assert(pre.len() == 1);
                assert(pre[0] == scopes@[0]);
                assert(s@ =~= "[\""@ + scopes@[0].text() + "\""@);
            } else {
                assert(s@ =~= before + ",\""@ + scopes@[i as int].text() + "\""@);
            }
        }
        i = i + 1;
    }
    push_str(&mut s, "]");
    proof {
        assert(scopes@.subrange(0, n as int) =~= scopes@);
    }
    s
}

/// The scopes named in a stored list, skipping names that are no scope.
pub open spec fn scopes_named(names: Seq<Seq<char>>) -> Seq<ApiKeyScope>
    decreases names.len(),
{
    if names.len() == 0 {
        Seq::empty()
    } else {
        let before = scopes_named(names.drop_last());
        match ApiKeyScope::from_text(names.last()) {
            Some(s) => before.push(s),
            None => before,
        }
    }
}

/// The scopes named in a stored list, skipping names that are no scope.
pub fn scopes_from_names(names: &[String]) -> (r: Vec<ApiKeyScope>)
    ensures
        r@ == scopes_named(names@.map_values(|s: String| s@)),
{
    let mut out: Vec<ApiKeyScope> = Vec::new();
    let mut i: usize = 0;
    proof {
        assert(names@.subrange(0, 0).map_values(|s: String| s@) =~= Seq::<Seq<char>>::empty());
    }
    while i < names.len()
        invariant
            i <= names@.len(),
            out@ == scopes_named(names@.subrange(0, i as int).map_values(|s: String| s@)),
        decreases names@.len() - i,
    {
        proof {
            let pre = names@.subrange(0, i as int + 1).map_values(|s: String| s@);
            assert(pre.drop_last() =~= names@.subrange(0, i as int).map_values(|s: String| s@));
            assert(pre.last() == names@[i as int]@);
        }
        match ApiKeyScope::parse(names[i].as_str()) {
            Some(s) => out.push(s),
            None => {},
        }
        i = i + 1;
    }
    proof {
        assert(names@.subrange(0, names@.len() as int) =~= names@);
    }
    out
}

/// The strings `serde_json` reads a text as, when it is a JSON array of strings.
pub uninterp spec fn string_list_of_text(text: Seq<char>) -> Option<Seq<Seq<char>>>;

/// `serde_json::from_str::<Vec<String>>`: the strings of a JSON array of strings, `None` for any
/// other text. The contract names the list.
#[verifier::external_body]
fn parse_string_list(text: &str) -> (r: Option<Vec<String>>)
    ensures
        match r {
            Some(v) => string_list_of_text(text@) == Some(v@.map_values(|s: String| s@)),
            None => string_list_of_text(text@) is None,
        },
{
    serde_json::from_str::<Vec<String>>(text).ok()
}

/// The scopes of a key as stored: a JSON list of scope names, names that are no scope skipped,
/// and no scope at all when the text is no such list.
pub fn scopes_from_stored(raw: &str) -> (r: Vec<ApiKeyScope>)
    ensures
        r@ == match string_list_of_text(raw@) {
            Some(names) => scopes_named(names),
            None => Seq::empty(),
        },
{
    match parse_string_list(raw) {
        Some(names) => scopes_from_names(names.as_slice()),
        None => Vec::new(),
    }
}

} // verus!
