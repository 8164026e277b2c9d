//! Cluster credential records, their validation and redaction, and the
//! in-memory collection that the encrypted store holds.
//!
//! The store file is a single AES-256-GCM ciphertext whose plaintext is a
//! JSON document of cluster records; reading and writing the file and the
//! JSON happen around this module, which seals and opens the envelope.

use vstd::prelude::*;
use crate::crypto::{
    aes256gcm_open, aes256gcm_seal, aes_gcm_max_len, base64_decode, base64_decoded, base64_encode, base64_encoded,
    new_cluster_id, open_aes256gcm, random_bytes, seal_aes256gcm,
};
use crate::error::{bad_input, AppError, ErrorV};
use crate::text::{concat, decimal, is_blank, push_decimal, starts_with, str_blank, chars_of};

verus! {

#[derive(Debug, Clone, Copy, PartialEq, Eq, Structural)]
pub enum Environment {
    Dev,
    Staging,
    Prod,
}

impl Environment {
    pub fn is_prod(self) -> (r: bool)
        ensures
            r == (self == Environment::Prod),
    {
        match self {
            Environment::Prod => true,
            _ => false,
        }
    }
}

/// Authentication material.
#[derive(Debug, Clone)]
pub enum Auth {
    BearerToken { token: String },
    ClientCert { cert_pem: String, key_pem: String },
}

pub enum AuthV {
    BearerToken { token: Seq<char> },
    ClientCert { cert_pem: Seq<char>, key_pem: Seq<char> },
}

impl View for Auth {
    type V = AuthV;

    open spec fn view(&self) -> AuthV {
        match self {
            Auth::BearerToken { token } => AuthV::BearerToken { token: token@ },
            Auth::ClientCert { cert_pem, key_pem } => AuthV::ClientCert {
                cert_pem: cert_pem@,
                key_pem: key_pem@,
            },
        }
    }
}

/// One cluster's connection settings and credentials. The id is the
/// cluster's UUID as a 128-bit number; 0 is the nil UUID.
#[derive(Debug, Clone)]
pub struct ClusterRecord {
    pub id: u128,
    pub name: String,
    pub environment: Environment,
    pub api_server: String,
    /// PEM-encoded CA bundle. Empty string = no CA pinning (only valid when
    /// `insecure_skip_tls_verify` is true).
    pub ca_pem: String,
    pub auth: Auth,
    pub default_namespace: String,
    pub insecure_skip_tls_verify: bool,
}

pub struct ClusterV {
    pub id: u128,
    pub name: Seq<char>,
    pub environment: Environment,
    pub api_server: Seq<char>,
    pub ca_pem: Seq<char>,
    pub auth: AuthV,
    pub default_namespace: Seq<char>,
    pub insecure_skip_tls_verify: bool,
}

impl View for ClusterRecord {
    type V = ClusterV;

    open spec fn view(&self) -> ClusterV {
        ClusterV {
            id: self.id,
            name: self.name@,
            environment: self.environment,
            api_server: self.api_server@,
            ca_pem: self.ca_pem@,
            auth: self.auth@,
            default_namespace: self.default_namespace@,
            insecure_skip_tls_verify: self.insecure_skip_tls_verify,
        }
    }
}

/// Frontend-safe view: never includes auth material or CA bytes.
#[derive(Debug, Clone)]
pub struct RedactedCluster {
    pub id: u128,
    pub name: String,
    pub environment: Environment,
    pub api_server: String,
    pub default_namespace: String,
    pub auth_kind: &'static str,
    pub has_ca: bool,
    pub insecure_skip_tls_verify: bool,
}

pub struct RedactedV {
    pub id: u128,
    pub name: Seq<char>,
    pub environment: Environment,
    pub api_server: Seq<char>,
    pub default_namespace: Seq<char>,
    pub auth_kind: Seq<char>,
    pub has_ca: bool,
    pub insecure_skip_tls_verify: bool,
}

impl View for RedactedCluster {
    type V = RedactedV;

    open spec fn view(&self) -> RedactedV {
        RedactedV {
            id: self.id,
            name: self.name@,
            environment: self.environment,
            api_server: self.api_server@,
            default_namespace: self.default_namespace@,
            auth_kind: self.auth_kind@,
            has_ca: self.has_ca,
            insecure_skip_tls_verify: self.insecure_skip_tls_verify,
        }
    }
}

pub open spec fn auth_kind_of(a: AuthV) -> Seq<char> {
    match a {
        AuthV::BearerToken { .. } => "bearer_token"@,
        AuthV::ClientCert { .. } => "client_cert"@,
    }
}

/// What the frontend may see of a record.
pub open spec fn redact(c: ClusterV) -> RedactedV {
    RedactedV {
        id: c.id,
        name: c.name,
        environment: c.environment,
        api_server: c.api_server,
        default_namespace: c.default_namespace,
        auth_kind: auth_kind_of(c.auth),
        has_ca: c.ca_pem.len() > 0,
        insecure_skip_tls_verify: c.insecure_skip_tls_verify,
    }
}

/// The redaction of a record as a value of the type.
pub open spec fn redacted_of(c: &ClusterRecord) -> RedactedCluster {
    RedactedCluster {
        id: c.id,
        name: c.name,
        environment: c.environment,
        api_server: c.api_server,
        default_namespace: c.default_namespace,
        auth_kind: match c.auth {
            Auth::BearerToken { .. } => "bearer_token",
            Auth::ClientCert { .. } => "client_cert",
        },
        has_ca: c.ca_pem@.len() > 0,
        insecure_skip_tls_verify: c.insecure_skip_tls_verify,
    }
}

/// The redacted value shows what `redact` says of the record.
proof fn lemma_redacted_view(c: &ClusterRecord)
    ensures
        redacted_of(c)@ == redact(c@),
{
}

impl<'a> From<&'a ClusterRecord> for RedactedCluster {
    fn from(c: &'a ClusterRecord) -> (r: RedactedCluster) {
        let kind: &'static str = match &c.auth {
            Auth::BearerToken { .. } => "bearer_token",
            Auth::ClientCert { .. } => "client_cert",
        };
        RedactedCluster {
            id: c.id,
            name: c.name.clone(),
            environment: c.environment,
            api_server: c.api_server.clone(),
            default_namespace: c.default_namespace.clone(),
            auth_kind: kind,
            has_ca: !c.ca_pem.as_str().is_empty(),
            insecure_skip_tls_verify: c.insecure_skip_tls_verify,
        }
    }
}

impl<'a> vstd::std_specs::convert::FromSpecImpl<&'a ClusterRecord> for RedactedCluster {
    open spec fn obeys_from_spec() -> bool {
        true
    }

    open spec fn from_spec(c: &'a ClusterRecord) -> RedactedCluster {
        redacted_of(c)
    }
}

impl ClusterRecord {
    /// A copy of the record.
    pub fn duplicate(&self) -> (r: ClusterRecord)
        ensures
            r@ == self@,
    {
        let auth = match &self.auth {
            Auth::BearerToken { token } => Auth::BearerToken { token: token.clone() },
            Auth::ClientCert { cert_pem, key_pem } => Auth::ClientCert {
                cert_pem: cert_pem.clone(),
                key_pem: key_pem.clone(),
            },
        };
        ClusterRecord {
            id: self.id,
            name: self.name.clone(),
            environment: self.environment,
            api_server: self.api_server.clone(),
            ca_pem: self.ca_pem.clone(),
            auth,
            default_namespace: self.default_namespace.clone(),
            insecure_skip_tls_verify: self.insecure_skip_tls_verify,
        }
    }
}

// ---------- validation ----------

/// Why a record cannot be stored, if it cannot.
pub open spec fn validation_error(c: ClusterV) -> Option<ErrorV> {
    if is_blank(c.name) {
        Some(ErrorV::BadInput("name required"@))
    } else if !"https://"@.is_prefix_of(c.api_server) && !"http://"@.is_prefix_of(c.api_server) {
        Some(ErrorV::BadInput("api_server must be a URL"@))
    } else if c.ca_pem.len() == 0 && !c.insecure_skip_tls_verify {
        Some(ErrorV::BadInput("either ca_pem or insecure_skip_tls_verify is required"@))
    } else {
        None
    }
}

/// Checks that a record can be stored.
pub fn validate(rec: &ClusterRecord) -> (r: Result<(), AppError>)
    ensures
        match validation_error(rec@) {
            Some(e) => r is Err && r->Err_0@ == e,
            None => r is Ok,
        },
{
    if str_blank(rec.name.as_str()) {
        return Err(bad_input("name required"));
    }
    let api = chars_of(rec.api_server.as_str());
    if !starts_with(api.as_slice(), "https://") && !starts_with(api.as_slice(), "http://") {
        return Err(bad_input("api_server must be a URL"));
    }
    if rec.ca_pem.as_str().is_empty() && !rec.insecure_skip_tls_verify {
        return Err(bad_input("either ca_pem or insecure_skip_tls_verify is required"));
    }
    Ok(())
}

// ---------- the record collection ----------

pub open spec fn record_views(s: Seq<ClusterRecord>) -> Seq<ClusterV> {
    s.map_values(|c: ClusterRecord| c@)
}

/// The position of the first record with the given id.
pub open spec fn position_of(s: Seq<ClusterV>, id: u128) -> Option<int>
    decreases s.len(),
{
    if s.len() == 0 {
        None
    } else if s[0].id == id {
        Some(0)
    } else {
        match position_of(s.drop_first(), id) {
            Some(k) => Some(k + 1),
            None => None,
        }
    }
}

proof fn lemma_position_of(s: Seq<ClusterV>, id: u128, k: int)
    requires
        0 <= k <= s.len(),
        forall|j: int| 0 <= j < k ==> s[j].id != id,
    ensures
        k < s.len() && s[k].id == id ==> position_of(s, id) == Some(k),
        k == s.len() ==> position_of(s, id) is None,
    decreases s.len(),
{
    if s.len() > 0 && k > 0 {
        let t = s.drop_first();
        assert forall|j: int| 0 <= j < k - 1 implies t[j].id != id by {
            assert(t[j] == s[j + 1]);
        };
        lemma_position_of(t, id, k - 1);
    }
}

pub proof fn lemma_position_of_bounds(s: Seq<ClusterV>, id: u128)
    ensures
        position_of(s, id) matches Some(k) ==> 0 <= k < s.len() && s[k].id == id,
        position_of(s, id) is None ==> forall|j: int| 0 <= j < s.len() ==> s[j].id != id,
    decreases s.len(),
{
    if s.len() > 0 {
        lemma_position_of_bounds(s.drop_first(), id);
        if s[0].id != id {
            assert forall|j: int| 0 <= j < s.len() && position_of(s, id) is None implies s[j].id != id by {
                if j > 0 {
                    assert(s.drop_first()[j - 1] == s[j]);
                }
            };
        }
    }
}

/// The records without those that carry the given id.
pub open spec fn without_id(s: Seq<ClusterV>, id: u128) -> Seq<ClusterV> {
    s.filter(|c: ClusterV| c.id != id)
}

/// The decrypted store content.
pub struct StorePlaintext {
    pub clusters: Vec<ClusterRecord>,
}

/// The in-memory state of the encrypted credential store: the master key
/// and the cluster records.
pub struct EncryptedStore {
    key: Vec<u8>,
    data: StorePlaintext,
}

impl View for EncryptedStore {
    type V = Seq<ClusterV>;

    closed spec fn view(&self) -> Seq<ClusterV> {
        record_views(self.data.clusters@)
    }
}

impl EncryptedStore {
    /// The master key is an AES-256 key: 32 bytes.
    #[verifier::type_invariant]
    spec fn key_is_aes256(self) -> bool {
        self.key@.len() == 32
    }

    pub closed spec fn master_key(&self) -> Seq<u8> {
        self.key@
    }

    /// A store over the given 32-byte master key and the records read from
    /// disk.
    pub fn from_parts(key: Vec<u8>, clusters: Vec<ClusterRecord>) -> (r: EncryptedStore)
        requires
            key@.len() == 32,
        ensures
            r@ == record_views(clusters@),
            r.master_key() == key@,
    {
        EncryptedStore { key, data: StorePlaintext { clusters } }
    }

    /// The master key.
    pub fn key(&self) -> (r: &[u8])
        ensures
            r@ == self.master_key(),
            r@.len() == 32,
    {
        proof {
            use_type_invariant(self);
        }
        self.key.as_slice()
    }

    /// The records, as they are to be written to disk.
    pub fn records(&self) -> (r: &Vec<ClusterRecord>)
        ensures
            record_views(r@) == self@,
    {
        &self.data.clusters
    }

    /// The redacted form of every record, in order.
    pub fn list(&self) -> (r: Vec<RedactedCluster>)
        ensures
            r@.len() == self@.len(),
            forall|i: int| 0 <= i < r@.len() ==> #[trigger] r@[i]@ == redact(self@[i]),
    {
        let mut out: Vec<RedactedCluster> = Vec::new();
        let mut i: usize = 0;
        while i < self.data.clusters.len()
            invariant
                i <= self.data.clusters@.len(),
                out@.len() == i,
                forall|j: int| 0 <= j < i ==> #[trigger] out@[j]@ == redact(self@[j]),
            decreases self.data.clusters@.len() - i,
        {
            proof {
                lemma_redacted_view(&self.data.clusters@[i as int]);
            }
            out.push(RedactedCluster::from(&self.data.clusters[i]));
            i = i + 1;
        }
        out
    }

    fn index_of(&self, id: u128) -> (r: Option<usize>)
        ensures
            match r {
                Some(k) => position_of(self@, id) == Some(k as int) && k < self@.len(),
                None => position_of(self@, id) is None,
            },
    {
        let mut i: usize = 0;
        while i < self.data.clusters.len()
            invariant
                i <= self@.len(),
                self@.len() == self.data.clusters@.len(),
                forall|j: int| 0 <= j < i ==> self@[j].id != id,
            decreases self@.len() - i,
        {
            if self.data.clusters[i].id == id {
                proof {
                    lemma_position_of(self@, id, i as int);
                }
                return Some(i);
            }
            i = i + 1;
        }
        proof {
            lemma_position_of(self@, id, i as int);
        }
        None
    }

    /// The first record with the given id.
    pub fn get(&self, id: u128) -> (r: Result<&ClusterRecord, AppError>)
        ensures
            match position_of(self@, id) {
                Some(k) => r is Ok && r->Ok_0@ == self@[k],
                None => r is Err && r->Err_0@ == ErrorV::NotFound,
            },
    {
        match self.index_of(id) {
            Some(k) => Ok(&self.data.clusters[k]),
            None => Err(AppError::NotFound),
        }
    }

    /// Adds a record, after giving it a fresh random id if its id is nil.
    pub fn add(&mut self, rec: ClusterRecord) -> (r: Result<RedactedCluster, AppError>)
        ensures
            final(self).master_key() == old(self).master_key(),
            match validation_error(rec@) {
                Some(e) => r is Err && r->Err_0@ == e && final(self)@ == old(self)@,
                None => r is Ok && {
                    let added = final(self)@.last();
                    &&& final(self)@ == old(self)@.push(added)
                    &&& added == ClusterV { id: added.id, ..rec@ }
                    &&& (rec.id != 0 ==> added.id == rec.id)
                    &&& added.id != 0
                    &&& r->Ok_0@ == redact(added)
                },
            },
    {
        proof {
            use_type_invariant(&*self);
        }
        let mut rec = rec;
        if rec.id == 0 {
            rec.id = new_cluster_id();
        }
        match validate(&rec) {
            Err(e) => return Err(e),
            Ok(()) => {},
        }
        let red = RedactedCluster::from(&rec);
        proof {
            lemma_redacted_view(&rec);
        }
        let ghost before = self@;
        let mut list: Vec<ClusterRecord> = Vec::new();
        std::mem::swap(&mut list, &mut self.data.clusters);
        list.push(rec);
        self.data.clusters = list;
        assert(self@ =~= before.push(rec@));
        Ok(red)
    }

    /// Replaces the first record that has the new record's id.
    pub fn update(&mut self, rec: ClusterRecord) -> (r: Result<RedactedCluster, AppError>)
        ensures
            final(self).master_key() == old(self).master_key(),
            match validation_error(rec@) {
                Some(e) => r is Err && r->Err_0@ == e && final(self)@ == old(self)@,
                None => match position_of(old(self)@, rec.id) {
                    None => r is Err && r->Err_0@ == ErrorV::NotFound && final(self)@ == old(self)@,
                    Some(k) => r is Ok && final(self)@ == old(self)@.update(k, rec@) && r->Ok_0@
                        == redact(rec@),
                },
            },
    {
        proof {
            use_type_invariant(&*self);
        }
        match validate(&rec) {
            Err(e) => return Err(e),
            Ok(()) => {},
        }
        match self.index_of(rec.id) {
            None => Err(AppError::NotFound),
            Some(k) => {
                let red = RedactedCluster::from(&rec);
                proof {
                    lemma_redacted_view(&rec);
                }
                let ghost before = self@;
                let mut list: Vec<ClusterRecord> = Vec::new();
                std::mem::swap(&mut list, &mut self.data.clusters);
                list.set(k, rec);
                self.data.clusters = list;
                assert(self@ =~= before.update(k as int, rec@));
                Ok(red)
            },
        }
    }

    /// Removes every record with the given id.
    pub fn delete(&mut self, id: u128) -> (r: Result<(), AppError>)
        ensures
            final(self).master_key() == old(self).master_key(),
            position_of(old(self)@, id) is None ==> r is Err && r->Err_0@ == ErrorV::NotFound
                && final(self)@ == old(self)@,
            position_of(old(self)@, id) is Some ==> r is Ok && final(self)@ == without_id(
                old(self)@,
                id,
            ),
    {
        proof {
            use_type_invariant(&*self);
        }
        let ghost before = self@;
        let mut kept: Vec<ClusterRecord> = Vec::new();
        let mut found = false;
        let n = self.data.clusters.len();
        let mut old_list: Vec<ClusterRecord> = Vec::new();
        std::mem::swap(&mut old_list, &mut self.data.clusters);
        assert(record_views(old_list@) == before);
        let mut i: usize = 0;
        while i < n
            invariant
                n == old_list@.len(),
                record_views(old_list@) == before,
                i <= n,
                record_views(kept@) == without_id(before.take(i as int), id),
                found == (exists|j: int| 0 <= j < i && before[j].id == id),
            decreases n - i,
        {
            let ghost prefix = before.take(i + 1);
            assert(prefix.drop_last() =~= before.take(i as int));
            assert(prefix.last() == old_list@[i as int]@);
            proof {
                reveal(Seq::filter);
            }
            if old_list[i].id != id {
                let c = old_list[i].duplicate();
                let ghost k0 = kept@;
                kept.push(c);
                assert(record_views(kept@) =~= record_views(k0).push(c@));
            } else {
                found = true;
            }
            i = i + 1;
        }
        assert(before.take(n as int) =~= before);
        proof {
            lemma_position_of_bounds(before, id);
        }
        if !found {
            proof {
                lemma_filter_keeps_all(before, id);
            }
            self.data.clusters = old_list;
            return Err(AppError::NotFound);
        }
        self.data.clusters = kept;
        Ok(())
    }

    /// Encrypts the serialised records under the master key with a fresh
    /// random nonce, into the envelope that is written to disk.
    pub fn seal(&self, plaintext: &[u8]) -> (r: Result<StoreEnvelope, AppError>)
        ensures
            match r {
                Ok(env) => env.v == 1 && exists|nonce: Seq<u8>| #[trigger]
                    sealed_with(self.master_key(), plaintext@, nonce, env.nonce@, env.ciphertext@),
                Err(e) => e@ == ErrorV::Crypto,
            },
            r is Ok <==> plaintext@.len() <= aes_gcm_max_len(),
    {
        proof {
            use_type_invariant(self);
        }
        let r = encrypt_envelope(self.key.as_slice(), plaintext);
        assert(self.key@ == self.master_key());
        r
    }
}

proof fn lemma_filter_keeps_all(s: Seq<ClusterV>, id: u128)
    requires
        forall|j: int| 0 <= j < s.len() ==> s[j].id != id,
    ensures
        without_id(s, id) == s,
    decreases s.len(),
{
    reveal(Seq::filter);
    if s.len() > 0 {
        lemma_filter_keeps_all(s.drop_last(), id);
        assert(s.drop_last().push(s.last()) =~= s);
    } else {
        assert(s.filter(|c: ClusterV| c.id != id) =~= s);
    }
}

// ---------- the master key ----------

/// A fresh random 32-byte master key.
pub fn new_master_key() -> (r: Vec<u8>)
    ensures
        r@.len() == 32,
{
    random_bytes(32)
}

/// The text a master key is kept as: its standard base64.
pub fn master_key_text(key: &[u8]) -> (r: String)
    ensures
        r@ == base64_encoded(key@),
{
    base64_encode(key)
}

/// The master key a kept text holds: its base64 must decode to exactly
/// 32 bytes, else the key is unusable.
pub fn master_key_from_text(text: &str) -> (r: Result<Vec<u8>, AppError>)
    ensures
        match base64_decoded(vstd::utf8::encode_utf8(text@)) {
            Some(k) => if k.len() == 32 {
                r matches Ok(key) && key@ == k
            } else {
                r matches Err(e) && e@ == ErrorV::Crypto
            },
            None => r matches Err(e) && e@ == ErrorV::Crypto,
        },
        forall|k: Seq<u8>|
            k.len() == 32 && text@ == #[trigger] base64_encoded(k) ==> (r matches Ok(key) && key@ == k),
{
    match base64_decode(text.as_bytes()) {
        None => Err(AppError::Crypto),
        Some(k) => if k.len() == 32 {
            Ok(k)
        } else {
            Err(AppError::Crypto)
        },
    }
}

// ---------- where the master key comes from ----------

/// The places the master key is looked for, in order.
#[derive(Debug, Clone, Copy, PartialEq, Eq, Structural)]
pub enum KeyStep {
    /// The OS keychain entry.
    Keychain,
    /// The key file in the application directory.
    KeyFile,
}

/// What looking in a place gave: the kept text, nothing kept there, or a
/// failure to read (with its message).
#[derive(Debug, Clone)]
pub enum KeyRead {
    Found(String),
    Missing,
    Unavailable(String),
}

/// What to do next about the master key.
#[derive(Debug, Clone)]
pub enum KeyAction {
    /// Look in the key file.
    ReadFile,
    /// Use this key; where `promote`, also keep it in the keychain.
    Use { key: Vec<u8>, promote: bool },
    /// Nothing is kept anywhere: make a new key, write its text to the key
    /// file (readable by the owner only) and keep it in the keychain.
    Generate,
    Fail(AppError),
}

pub enum KeyActionV {
    ReadFile,
    Use { key: Seq<u8>, promote: bool },
    Generate,
    Fail(ErrorV),
}

pub open spec fn key_action_view(a: KeyAction) -> KeyActionV {
    match a {
        KeyAction::ReadFile => KeyActionV::ReadFile,
        KeyAction::Use { key, promote } => KeyActionV::Use { key: key@, promote },
        KeyAction::Generate => KeyActionV::Generate,
        KeyAction::Fail(e) => KeyActionV::Fail(e@),
    }
}

/// The key a kept text holds, if its base64 decodes to 32 bytes.
pub open spec fn key_of_text(t: Seq<char>) -> Option<Seq<u8>> {
    match base64_decoded(vstd::utf8::encode_utf8(t)) {
        Some(k) => if k.len() == 32 {
            Some(k)
        } else {
            None
        },
        None => None,
    }
}

/// The order of the key lookup: the keychain first (an entry that is
/// missing or a keychain that cannot be read sends the lookup on to the
/// key file); then the key file (its text trimmed; a file that is there
/// but unreadable is a storage error); and where no file is kept, a new
/// key. A kept text that holds no 32-byte key is a crypto error.
pub open spec fn key_decision(step: KeyStep, read: KeyRead) -> KeyActionV {
    match (step, read) {
        (KeyStep::Keychain, KeyRead::Found(t)) => match key_of_text(t@) {
            Some(k) => KeyActionV::Use { key: k, promote: false },
            None => KeyActionV::Fail(ErrorV::Crypto),
        },
        (KeyStep::Keychain, _) => KeyActionV::ReadFile,
        (KeyStep::KeyFile, KeyRead::Found(t)) => match key_of_text(crate::text::trimmed(t@)) {
            Some(k) => KeyActionV::Use { key: k, promote: true },
            None => KeyActionV::Fail(ErrorV::Crypto),
        },
        (KeyStep::KeyFile, KeyRead::Missing) => KeyActionV::Generate,
        (KeyStep::KeyFile, KeyRead::Unavailable(m)) => KeyActionV::Fail(ErrorV::Storage(m@)),
    }
}

/// Decides what follows looking for the master key in one place.
pub fn next_key_step(step: KeyStep, read: KeyRead) -> (r: KeyAction)
    ensures
        key_action_view(r) == key_decision(step, read),
{
    match step {
        KeyStep::Keychain => match read {
            KeyRead::Found(t) => match master_key_from_text(t.as_str()) {
                Ok(key) => KeyAction::Use { key, promote: false },
                Err(e) => KeyAction::Fail(e),
            },
            _ => KeyAction::ReadFile,
        },
        KeyStep::KeyFile => match read {
            KeyRead::Found(t) => {
                let text = crate::text::trim(t.as_str());
                match master_key_from_text(text.as_str()) {
                    Ok(key) => KeyAction::Use { key, promote: true },
                    Err(e) => KeyAction::Fail(e),
                }
            },
            KeyRead::Missing => KeyAction::Generate,
            KeyRead::Unavailable(m) => KeyAction::Fail(AppError::Storage(m)),
        },
    }
}

// ---------- opening the store file ----------

/// What opening the store file comes to.
#[derive(Debug)]
pub enum StoreOpening {
    /// The records read from the file.
    Records(Vec<ClusterRecord>),
    /// The file does not open under this key: it is set aside as a backup
    /// and the store starts empty.
    Reset,
    Fail(AppError),
}

/// Decides what reading the store file came to: a file that does not
/// decrypt under the key (a crypto error) is reset; any other error
/// stops the opening.
pub fn store_opening(read: Result<Vec<ClusterRecord>, AppError>) -> (r: StoreOpening)
    ensures
        match read {
            Ok(recs) => r matches StoreOpening::Records(rs) && rs@ == recs@,
            Err(e) => if e@ == ErrorV::Crypto {
                r is Reset
            } else {
                r matches StoreOpening::Fail(f) && f@ == e@
            },
        },
{
    match read {
        Ok(recs) => StoreOpening::Records(recs),
        Err(AppError::Crypto) => StoreOpening::Reset,
        Err(e) => StoreOpening::Fail(e),
    }
}

// ---------- the envelope ----------

/// The on-disk envelope: format version, nonce and ciphertext, the latter
/// two in standard base64.
#[derive(Debug, Clone)]
pub struct StoreEnvelope {
    pub v: u8,
    pub nonce: String,
    pub ciphertext: String,
}

/// The associated data bound to every store ciphertext: `k8sdesk:v1`.
pub open spec fn store_aad() -> Seq<u8> {
    seq![107u8, 56u8, 115u8, 100u8, 101u8, 115u8, 107u8, 58u8, 118u8, 49u8]
}

fn aad_bytes() -> (r: Vec<u8>)
    ensures
        r@ == store_aad(),
{
    let r: Vec<u8> = vec![107u8, 56u8, 115u8, 100u8, 101u8, 115u8, 107u8, 58u8, 118u8, 49u8];
    assert(r@ =~= store_aad());
    r
}

/// An envelope's nonce and ciphertext texts hold, in base64, a 12-byte
/// nonce and the AES-256-GCM sealing of `plaintext` under `key` with it.
pub open spec fn sealed_with(key: Seq<u8>, plaintext: Seq<u8>, nonce: Seq<u8>, nonce_text: Seq<char>, ct_text: Seq<char>) -> bool {
    &&& nonce.len() == 12
    &&& nonce_text == base64_encoded(nonce)
    &&& match aes256gcm_seal(key, nonce, store_aad(), plaintext) {
        Some(ct) => ct_text == base64_encoded(ct),
        None => false,
    }
}

/// Encrypts `plaintext` under `key` with a fresh random nonce.
pub fn encrypt_envelope(key: &[u8], plaintext: &[u8]) -> (r: Result<StoreEnvelope, AppError>)
    requires
        key@.len() == 32,
    ensures
        match r {
            Ok(env) => env.v == 1 && exists|nonce: Seq<u8>| #[trigger]
                sealed_with(key@, plaintext@, nonce, env.nonce@, env.ciphertext@),
            Err(e) => e@ == ErrorV::Crypto,
        },
        r is Ok <==> plaintext@.len() <= aes_gcm_max_len(),
{
    let nonce = random_bytes(12);
    let aad = aad_bytes();
    match seal_aes256gcm(key, nonce.as_slice(), aad.as_slice(), plaintext) {
        None => Err(AppError::Crypto),
        Some(ct) => {
            let env = StoreEnvelope {
                v: 1,
                nonce: base64_encode(nonce.as_slice()),
                ciphertext: base64_encode(ct.as_slice()),
            };
            assert(sealed_with(key@, plaintext@, nonce@, env.nonce@, env.ciphertext@));
            Ok(env)
        },
    }
}

/// What opening an envelope under a key gives.
pub open spec fn opened(key: Seq<u8>, v: u8, nonce: Seq<char>, ciphertext: Seq<char>) -> Result<Seq<u8>, ErrorV> {
    if v != 1 {
        Err(ErrorV::Storage("unsupported store version "@ + decimal(v as nat)))
    } else {
        match base64_decoded(vstd::utf8::encode_utf8(nonce)) {
            None => Err(ErrorV::Crypto),
            Some(n) => if n.len() != 12 {
                Err(ErrorV::Crypto)
            } else {
                match base64_decoded(vstd::utf8::encode_utf8(ciphertext)) {
                    None => Err(ErrorV::Crypto),
                    Some(ct) => match aes256gcm_open(key, n, store_aad(), ct) {
                        None => Err(ErrorV::Crypto),
                        Some(pt) => Ok(pt),
                    },
                }
            },
        }
    }
}

/// Decrypts an envelope read from disk.
pub fn decrypt_envelope(key: &[u8], env: &StoreEnvelope) -> (r: Result<Vec<u8>, AppError>)
    requires
        key@.len() == 32,
    ensures
        match r {
            Ok(pt) => opened(key@, env.v, env.nonce@, env.ciphertext@) == Ok::<Seq<u8>, ErrorV>(pt@),
            Err(e) => opened(key@, env.v, env.nonce@, env.ciphertext@) == Err::<Seq<u8>, ErrorV>(e@),
        },
        forall|pt: Seq<u8>, nonce: Seq<u8>|
            env.v == 1 && #[trigger] sealed_with(key@, pt, nonce, env.nonce@, env.ciphertext@) ==> r is Ok
                && r->Ok_0@ == pt,
{
    if env.v != 1 {
        let mut msg = String::from_str("unsupported store version ");
        push_decimal(&mut msg, env.v as u128);
        return Err(AppError::Storage(msg));
    }
    let nonce = match base64_decode(env.nonce.as_str().as_bytes()) {
        None => return Err(AppError::Crypto),
        Some(n) => n,
    };
    if nonce.len() != 12 {
        return Err(AppError::Crypto);
    }
    let ct = match base64_decode(env.ciphertext.as_str().as_bytes()) {
        None => return Err(AppError::Crypto),
        Some(c) => c,
    };
    let aad = aad_bytes();
    match open_aes256gcm(key, nonce.as_slice(), aad.as_slice(), ct.as_slice()) {
        None => Err(AppError::Crypto),
        Some(pt) => Ok(pt),
    }
}

} // verus!
