//! Destructive-command classifier and one-shot HMAC confirmation tokens.

use vstd::prelude::*;
use crate::crypto::{clock_start, hmac_sha256, hmac_sha256_tag, nanos_since, new_challenge_id, random_bytes};
use crate::error::{AppError, ErrorV};
use crate::parser::{Command, CommandV, Resource};
use crate::store::{ClusterRecord, ClusterV, Environment};
use crate::text::{append, decimal, int_decimal, push_char, push_decimal, push_int, str_eq};

verus! {

#[derive(Debug, Clone, Copy, PartialEq, Eq, Structural)]
pub enum Severity {
    Safe,
    Destructive,
}

/// Reading commands are safe; deleting, scaling, restarting and applying
/// are destructive and need a confirmation.
pub open spec fn severity_of(c: CommandV) -> Severity {
    match c {
        CommandV::Get { .. } | CommandV::Describe { .. } | CommandV::Logs { .. } | CommandV::Help => Severity::Safe,
        CommandV::Delete { .. } | CommandV::Scale { .. } | CommandV::RolloutRestart { .. }
        | CommandV::Apply { .. } => Severity::Destructive,
    }
}

pub fn classify(cmd: &Command) -> (r: Severity)
    ensures
        r == severity_of(cmd@),
{
    match cmd {
        Command::Get { .. } | Command::Describe { .. } | Command::Logs { .. } | Command::Help => Severity::Safe,
        Command::Delete { .. } | Command::Scale { .. } | Command::RolloutRestart { .. }
        | Command::Apply { .. } => Severity::Destructive,
    }
}

/// The name of a resource kind as its `Debug` shows it.
pub open spec fn resource_label(r: Resource) -> Seq<char> {
    match r {
        Resource::Pods => "Pods"@,
        Resource::Deployments => "Deployments"@,
        Resource::Services => "Services"@,
        Resource::Nodes => "Nodes"@,
        Resource::Namespaces => "Namespaces"@,
        Resource::ConfigMaps => "ConfigMaps"@,
        Resource::Secrets => "Secrets"@,
        Resource::Events => "Events"@,
        Resource::ReplicaSets => "ReplicaSets"@,
        Resource::StatefulSets => "StatefulSets"@,
        Resource::DaemonSets => "DaemonSets"@,
        Resource::Ingresses => "Ingresses"@,
        Resource::Jobs => "Jobs"@,
        Resource::CronJobs => "CronJobs"@,
    }
}

pub fn resource_name(r: Resource) -> (s: &'static str)
    ensures
        s@ == resource_label(r),
{
    match r {
        Resource::Pods => "Pods",
        Resource::Deployments => "Deployments",
        Resource::Services => "Services",
        Resource::Nodes => "Nodes",
        Resource::Namespaces => "Namespaces",
        Resource::ConfigMaps => "ConfigMaps",
        Resource::Secrets => "Secrets",
        Resource::Events => "Events",
        Resource::ReplicaSets => "ReplicaSets",
        Resource::StatefulSets => "StatefulSets",
        Resource::DaemonSets => "DaemonSets",
        Resource::Ingresses => "Ingresses",
        Resource::Jobs => "Jobs",
        Resource::CronJobs => "CronJobs",
    }
}

/// The one-line description of a command shown in the confirmation dialog.
pub open spec fn summary_of(c: CommandV, ns: Seq<char>) -> Seq<char> {
    match c {
        CommandV::Delete { resource, name } => "DELETE "@ + resource_label(resource) + " '"@ + name
            + "' in namespace '"@ + ns + "'"@,
        CommandV::Scale { resource, name, replicas } => "SCALE "@ + resource_label(resource) + " '"@
            + name + "' to "@ + int_decimal(replicas as int) + " replicas in namespace '"@ + ns
            + "'"@,
        CommandV::RolloutRestart { resource, name } => "ROLLOUT RESTART "@ + resource_label(resource)
            + " '"@ + name + "' in namespace '"@ + ns + "'"@,
        CommandV::Apply { paste_id } => "APPLY pasted manifest '"@ + paste_id + "' into namespace '"@
            + ns + "'"@,
        _ => "safe operation"@,
    }
}

pub fn summarize(cmd: &Command, namespace: &str) -> (r: String)
    ensures
        r@ == summary_of(cmd@, namespace@),
{
    match cmd {
        Command::Delete { resource, name } => {
            let mut s = String::from_str("DELETE ");
            append(&mut s, resource_name(*resource));
            append(&mut s, " '");
            append(&mut s, name.as_str());
            append(&mut s, "' in namespace '");
            append(&mut s, namespace);
            append(&mut s, "'");
            s
        },
        Command::Scale { resource, name, replicas } => {
            let mut s = String::from_str("SCALE ");
            append(&mut s, resource_name(*resource));
            append(&mut s, " '");
            append(&mut s, name.as_str());
            append(&mut s, "' to ");
            push_int(&mut s, *replicas as i64);
            append(&mut s, " replicas in namespace '");
            append(&mut s, namespace);
            append(&mut s, "'");
            s
        },
        Command::RolloutRestart { resource, name } => {
            let mut s = String::from_str("ROLLOUT RESTART ");
            append(&mut s, resource_name(*resource));
            append(&mut s, " '");
            append(&mut s, name.as_str());
            append(&mut s, "' in namespace '");
            append(&mut s, namespace);
            append(&mut s, "'");
            s
        },
        Command::Apply { paste_id } => {
            let mut s = String::from_str("APPLY pasted manifest '");
            append(&mut s, paste_id.as_str());
            append(&mut s, "' into namespace '");
            append(&mut s, namespace);
            append(&mut s, "'");
            s
        },
        _ => String::from_str("safe operation"),
    }
}

// ---------- what a token is bound to ----------

/// A text field with its length in front, so that fields cannot run into
/// each other.
pub open spec fn field(s: Seq<char>) -> Seq<char> {
    decimal(s.len()) + seq![':'] + s
}

pub open spec fn opt_field(o: Option<Seq<char>>) -> Seq<char> {
    match o {
        None => seq!['~'],
        Some(s) => seq!['='] + field(s),
    }
}

/// The canonical text of a command that a confirmation token is bound to.
pub open spec fn command_text(c: CommandV) -> Seq<char> {
    match c {
        CommandV::Get { resource, name } => "get|"@ + resource_label(resource) + seq!['|'] + opt_field(name),
        CommandV::Describe { resource, name } => "describe|"@ + resource_label(resource) + seq!['|']
            + field(name),
        CommandV::Logs { pod, container, tail, follow } => "logs|"@ + field(pod) + opt_field(container)
            + match tail {
            None => seq!['~'],
            Some(n) => seq!['='] + int_decimal(n as int) + seq![';'],
        } + if follow {
            seq!['y']
        } else {
            seq!['n']
        },
        CommandV::Delete { resource, name } => "delete|"@ + resource_label(resource) + seq!['|']
            + field(name),
        CommandV::Scale { resource, name, replicas } => "scale|"@ + resource_label(resource) + seq!['|']
            + field(name) + int_decimal(replicas as int),
        CommandV::RolloutRestart { resource, name } => "rollout-restart|"@ + resource_label(resource)
            + seq!['|'] + field(name),
        CommandV::Apply { paste_id } => "apply|"@ + field(paste_id),
        CommandV::Help => "help"@,
    }
}

/// The message whose keyed hash binds a token to a cluster, a namespace
/// and a command.
pub open spec fn fingerprint_message(cluster_id: u128, ns: Seq<char>, c: CommandV) -> Seq<char> {
    decimal(cluster_id as nat) + seq!['|'] + ns + seq!['|'] + command_text(c)
}

/// The keyed hash of a (cluster, namespace, command) triple.
pub open spec fn fingerprint_of(key: Seq<u8>, cluster_id: u128, ns: Seq<char>, c: CommandV) -> Seq<u8> {
    hmac_sha256(key, vstd::utf8::encode_utf8(fingerprint_message(cluster_id, ns, c)))
}

fn push_field(s: &mut String, t: &str)
    ensures
        final(s)@ == old(s)@ + field(t@),
{
    push_decimal(s, t.unicode_len() as u128);
    push_char(s, ':');
    append(s, t);
    assert(final(s)@ =~= old(s)@ + field(t@));
}

fn push_opt_field(s: &mut String, o: &Option<String>)
    ensures
        final(s)@ == old(s)@ + opt_field(crate::parser::opt_view(*o)),
{
    match o {
        None => {
            push_char(s, '~');
        },
        Some(t) => {
            push_char(s, '=');
            push_field(s, t.as_str());
        },
    }
    assert(final(s)@ =~= old(s)@ + opt_field(crate::parser::opt_view(*o)));
}

fn command_key(cmd: &Command) -> (r: String)
    ensures
        r@ == command_text(cmd@),
{
    let mut s = String::new();
    match cmd {
        Command::Get { resource, name } => {
            append(&mut s, "get|");
            append(&mut s, resource_name(*resource));
            push_char(&mut s, '|');
            push_opt_field(&mut s, name);
        },
        Command::Describe { resource, name } => {
            append(&mut s, "describe|");
            append(&mut s, resource_name(*resource));
            push_char(&mut s, '|');
            push_field(&mut s, name.as_str());
        },
        Command::Logs { pod, container, tail, follow } => {
            append(&mut s, "logs|");
            push_field(&mut s, pod.as_str());
            push_opt_field(&mut s, container);
            match tail {
                None => {
                    push_char(&mut s, '~');
                },
                Some(n) => {
                    push_char(&mut s, '=');
                    push_int(&mut s, *n);
                    push_char(&mut s, ';');
                },
            }
            if *follow {
                push_char(&mut s, 'y');
            } else {
                push_char(&mut s, 'n');
            }
        },
        Command::Delete { resource, name } => {
            append(&mut s, "delete|");
            append(&mut s, resource_name(*resource));
            push_char(&mut s, '|');
            push_field(&mut s, name.as_str());
        },
        Command::Scale { resource, name, replicas } => {
            append(&mut s, "scale|");
            append(&mut s, resource_name(*resource));
            push_char(&mut s, '|');
            push_field(&mut s, name.as_str());
            push_int(&mut s, *replicas as i64);
        },
        Command::RolloutRestart { resource, name } => {
            append(&mut s, "rollout-restart|");
            append(&mut s, resource_name(*resource));
            push_char(&mut s, '|');
            push_field(&mut s, name.as_str());
        },
        Command::Apply { paste_id } => {
            append(&mut s, "apply|");
            push_field(&mut s, paste_id.as_str());
        },
        Command::Help => {
            append(&mut s, "help");
        },
    }
    assert(s@ =~= command_text(cmd@));
    s
}

fn fingerprint(key: &[u8], cluster: u128, ns: &str, cmd: &Command) -> (r: Vec<u8>)
    ensures
        r@ == fingerprint_of(key@, cluster, ns@, cmd@),
{
    let mut msg = String::new();
    push_decimal(&mut msg, cluster);
    push_char(&mut msg, '|');
    append(&mut msg, ns);
    push_char(&mut msg, '|');
    let c = command_key(cmd);
    append(&mut msg, c.as_str());
    assert(msg@ =~= fingerprint_message(cluster, ns@, cmd@));
    let bytes = msg.as_str().as_bytes();
    hmac_sha256_tag(key, bytes)
}

// ---------- one-shot tokens ----------

/// Tokens live for 30 seconds (in nanoseconds).
pub open spec fn ttl_nanos() -> u128 {
    30_000_000_000
}

/// What a pending token is bound to, and when it was issued.
pub struct PendingV {
    pub cluster_id: u128,
    pub namespace: Seq<char>,
    pub fingerprint: Seq<u8>,
    pub created: u128,
}

/// The time from `created` to `now`; zero where the clock reads earlier.
pub open spec fn elapsed(created: u128, now: u128) -> int {
    if now >= created {
        now - created
    } else {
        0
    }
}

pub open spec fn is_live(e: PendingV, now: u128) -> bool {
    elapsed(e.created, now) <= ttl_nanos()
}

/// The tokens of a table that have not expired at `now`.
pub open spec fn live(t: Map<Seq<char>, PendingV>, now: u128) -> Map<Seq<char>, PendingV> {
    Map::new(|k: Seq<char>| t.contains_key(k) && is_live(t[k], now), |k: Seq<char>| t[k])
}

/// Whether a token is accepted at `now` for the given cluster, namespace
/// and command fingerprint: it is live and bound to exactly those.
pub open spec fn accepts(t: Map<Seq<char>, PendingV>, now: u128, id: Seq<char>, cluster_id: u128, ns: Seq<char>, fp: Seq<u8>) -> bool {
    let l = live(t, now);
    &&& l.contains_key(id)
    &&& l[id].cluster_id == cluster_id
    &&& l[id].namespace == ns
    &&& l[id].fingerprint == fp
}

struct Pending {
    cluster_id: u128,
    namespace: String,
    command_fingerprint: Vec<u8>,
    created: u128,
}

struct PendingItem {
    challenge_id: String,
    pending: Pending,
}

spec fn pending_view(p: PendingItem) -> PendingV {
    PendingV {
        cluster_id: p.pending.cluster_id,
        namespace: p.pending.namespace@,
        fingerprint: p.pending.command_fingerprint@,
        created: p.pending.created,
    }
}

spec fn table(s: Seq<PendingItem>) -> Map<Seq<char>, PendingV>
    decreases s.len(),
{
    if s.len() == 0 {
        Map::empty()
    } else {
        table(s.drop_last()).insert(s.last().challenge_id@, pending_view(s.last()))
    }
}

spec fn ids_unique(s: Seq<PendingItem>) -> bool {
    forall|i: int, j: int|
        0 <= i < s.len() && 0 <= j < s.len() && i != j ==> s[i].challenge_id@ != s[j].challenge_id@
}

proof fn lemma_table_dom(s: Seq<PendingItem>, k: Seq<char>)
    ensures
        table(s).contains_key(k) <==> exists|j: int| 0 <= j < s.len() && s[j].challenge_id@ == k,
    decreases s.len(),
{
    if s.len() > 0 {
        lemma_table_dom(s.drop_last(), k);
        if table(s.drop_last()).contains_key(k) {
            let j = choose|j: int| 0 <= j < s.len() - 1 && s.drop_last()[j].challenge_id@ == k;
            assert(s[j].challenge_id@ == k);
        }
        if exists|j: int| 0 <= j < s.len() && s[j].challenge_id@ == k {
            let j = choose|j: int| 0 <= j < s.len() && s[j].challenge_id@ == k;
            if j < s.len() - 1 {
                assert(s.drop_last()[j].challenge_id@ == k);
            }
        }
    }
}

proof fn lemma_table_value(s: Seq<PendingItem>, j: int)
    requires
        ids_unique(s),
        0 <= j < s.len(),
    ensures
        table(s).contains_key(s[j].challenge_id@),
        table(s)[s[j].challenge_id@] == pending_view(s[j]),
    decreases s.len(),
{
    if j < s.len() - 1 {
        let t = s.drop_last();
        assert(t[j] == s[j]);
        lemma_table_value(t, j);
        assert(s.last().challenge_id@ != s[j].challenge_id@);
    }
}

proof fn lemma_unique_prefix(s: Seq<PendingItem>, n: int)
    requires
        ids_unique(s),
        0 <= n <= s.len(),
    ensures
        ids_unique(s.take(n)),
{
}

proof fn lemma_table_remove(s: Seq<PendingItem>, j: int)
    requires
        ids_unique(s),
        0 <= j < s.len(),
    ensures
        ids_unique(s.remove(j)),
        table(s.remove(j)) =~= table(s).remove(s[j].challenge_id@),
    decreases s.len(),
{
    let r = s.remove(j);
    let k = s[j].challenge_id@;
    assert(ids_unique(r)) by {
        assert forall|a: int, b: int| 0 <= a < r.len() && 0 <= b < r.len() && a != b implies r[a].challenge_id@
            != r[b].challenge_id@ by {
            let a2 = if a < j { a } else { a + 1 };
            let b2 = if b < j { b } else { b + 1 };
            assert(r[a] == s[a2]);
            assert(r[b] == s[b2]);
        };
    };
    if j == s.len() - 1 {
        assert(r =~= s.drop_last());
        lemma_table_dom(s.drop_last(), k);
        assert forall|x: int| 0 <= x < s.len() - 1 implies s.drop_last()[x].challenge_id@ != k by {
            assert(s.drop_last()[x] == s[x]);
        };
    } else {
        let t = s.drop_last();
        assert(ids_unique(t));
        assert(t[j] == s[j]);
        lemma_table_remove(t, j);
        assert(r.drop_last() =~= t.remove(j));
        assert(r.last() == s.last());
        assert(s.last().challenge_id@ != k);
    }
}

/// Pending confirmations: the HMAC key, the tokens issued and not yet
/// used, and the clock their ages are read from.
pub struct PendingConfirmations {
    hmac_key: Vec<u8>,
    items: Vec<PendingItem>,
    clock: std::time::Instant,
}

impl View for PendingConfirmations {
    type V = Map<Seq<char>, PendingV>;

    closed spec fn view(&self) -> Map<Seq<char>, PendingV> {
        table(self.items@)
    }
}

impl PendingConfirmations {
    pub closed spec fn key(&self) -> Seq<u8> {
        self.hmac_key@
    }

    pub closed spec fn wf(&self) -> bool {
        ids_unique(self.items@)
    }

    /// An empty set of tokens under a fresh random 32-byte key.
    pub fn new() -> (r: PendingConfirmations)
        ensures
            r.wf(),
            r@ == Map::<Seq<char>, PendingV>::empty(),
            r.key().len() == 32,
    {
        let k = random_bytes(32);
        let p = PendingConfirmations { hmac_key: k, items: Vec::new(), clock: clock_start() };
        assert(p@ =~= Map::<Seq<char>, PendingV>::empty());
        p
    }

    fn find(&self, id: &str) -> (r: Option<usize>)
        requires
            self.wf(),
        ensures
            match r {
                Some(j) => j < self.items@.len() && self.items@[j as int].challenge_id@ == id@,
                None => !self@.contains_key(id@),
            },
    {
        let mut i: usize = 0;
        while i < self.items.len()
            invariant
                i <= self.items@.len(),
                forall|j: int| 0 <= j < i ==> self.items@[j].challenge_id@ != id@,
            decreases self.items@.len() - i,
        {
            if str_eq(self.items[i].challenge_id.as_str(), id) {
                return Some(i);
            }
            i = i + 1;
        }
        proof {
            lemma_table_dom(self.items@, id@);
        }
        None
    }

    /// Drops the tokens that have expired at `now`.
    fn gc(&mut self, now: u128)
        requires
            old(self).wf(),
        ensures
            final(self).wf(),
            final(self)@ == live(old(self)@, now),
            final(self).key() == old(self).key(),
    {
        let ghost before = self.items@;
        let mut kept: Vec<PendingItem> = Vec::new();
        let mut rest: Vec<PendingItem> = Vec::new();
        std::mem::swap(&mut rest, &mut self.items);
        let n = rest.len();
        let mut i: usize = 0;
        while i < n
            invariant
                n == rest@.len(),
                rest@ == before,
                ids_unique(before),
                i <= n,
                ids_unique(kept@),
                forall|a: int| 0 <= a < kept@.len() ==> exists|b: int| 0 <= b < i && (#[trigger] kept@[a]).challenge_id@
                    == before[b].challenge_id@,
                table(kept@) =~= live(table(before.take(i as int)), now),
            decreases n - i,
        {
            proof {
                lemma_unique_prefix(before, i as int + 1);
            }
            let ghost prefix = before.take(i + 1);
            assert(prefix.drop_last() =~= before.take(i as int));
            assert(prefix.last() == before[i as int]);
            let item = &rest[i];
            let elapsed_ns: u128 = if now >= item.pending.created {
                now - item.pending.created
            } else {
                0
            };
            if elapsed_ns <= 30_000_000_000 {
                let copy = PendingItem {
                    challenge_id: item.challenge_id.clone(),
                    pending: Pending {
                        cluster_id: item.pending.cluster_id,
                        namespace: item.pending.namespace.clone(),
                        command_fingerprint: item.pending.command_fingerprint.clone(),
                        created: item.pending.created,
                    },
                };
                let ghost k0 = kept@;
                assert forall|a: int| 0 <= a < k0.len() implies k0[a].challenge_id@ != copy.challenge_id@ by {
                    let b = choose|b: int| 0 <= b < i && (#[trigger] k0[a]).challenge_id@ == before[b].challenge_id@;
                    assert(before[b].challenge_id@ != before[i as int].challenge_id@);
                };
                kept.push(copy);
                assert(kept@.drop_last() =~= k0);
                assert forall|a: int| 0 <= a < kept@.len() implies exists|b: int| 0 <= b < i + 1 && (#[trigger] kept@[a]).challenge_id@
                    == before[b].challenge_id@ by {
                    if a < k0.len() {
                        assert(kept@[a] == k0[a]);
                    } else {
                        assert(kept@[a].challenge_id@ == before[i as int].challenge_id@);
                    }
                };
                assert(pending_view(copy) == pending_view(before[i as int]));
                proof {
                    lemma_table_dom(before.take(i as int), copy.challenge_id@);
                    assert forall|x: int| 0 <= x < i implies before.take(i as int)[x].challenge_id@
                        != copy.challenge_id@ by {
                        assert(before.take(i as int)[x] == before[x]);
                    };
                }
                assert(table(kept@) =~= live(table(prefix), now));
            } else {
                proof {
                    lemma_table_dom(before.take(i as int), before[i as int].challenge_id@);
                    assert forall|x: int| 0 <= x < i implies before.take(i as int)[x].challenge_id@
                        != before[i as int].challenge_id@ by {
                        assert(before.take(i as int)[x] == before[x]);
                    };
                }
                assert(table(kept@) =~= live(table(prefix), now));
            }
            i = i + 1;
        }
        assert(before.take(n as int) =~= before);
        self.items = kept;
    }

    /// Records a token issued at `now`, after dropping the expired ones.
    pub fn issue_at(&mut self, now: u128, challenge_id: String, cluster_id: u128, namespace: &str, fingerprint: Vec<u8>)
        requires
            old(self).wf(),
        ensures
            final(self).wf(),
            final(self).key() == old(self).key(),
            final(self)@ == live(old(self)@, now).insert(
                challenge_id@,
                PendingV { cluster_id, namespace: namespace@, fingerprint: fingerprint@, created: now },
            ),
    {
        self.gc(now);
        let ghost after_gc = self@;
        match self.find(challenge_id.as_str()) {
            Some(j) => {
                proof {
                    lemma_table_remove(self.items@, j as int);
                }
                self.items.remove(j);
            },
            None => {
                assert(self@.remove(challenge_id@) =~= self@);
            },
        }
        let ghost removed = self.items@;
        proof {
            lemma_table_dom(removed, challenge_id@);
        }
        let item = PendingItem {
            challenge_id,
            pending: Pending {
                cluster_id,
                namespace: String::from_str(namespace),
                command_fingerprint: fingerprint,
                created: now,
            },
        };
        self.items.push(item);
        assert(self.items@.drop_last() =~= removed);
        assert(ids_unique(self.items@));
        assert(self@ =~= after_gc.remove(item.challenge_id@).insert(item.challenge_id@, pending_view(item)));
    }

    /// Uses up the token `challenge_id` at `now`: it is dropped whatever
    /// the outcome, and accepted only where it is live and bound to the
    /// given cluster, namespace and command fingerprint.
    pub fn consume_at(&mut self, now: u128, challenge_id: &str, cluster_id: u128, namespace: &str, fingerprint: &[u8]) -> (r: Result<(), AppError>)
        requires
            old(self).wf(),
        ensures
            final(self).wf(),
            final(self).key() == old(self).key(),
            final(self)@ == live(old(self)@, now).remove(challenge_id@),
            r is Ok <==> accepts(old(self)@, now, challenge_id@, cluster_id, namespace@, fingerprint@),
            r matches Err(e) ==> e@ == ErrorV::BadConfirmation,
    {
        self.gc(now);
        let ghost after_gc = self@;
        let j = match self.find(challenge_id) {
            None => {
                assert(self@.remove(challenge_id@) =~= self@);
                return Err(AppError::BadConfirmation);
            },
            Some(j) => j,
        };
        proof {
            lemma_table_value(self.items@, j as int);
            lemma_table_remove(self.items@, j as int);
        }
        let entry = self.items.remove(j);
        let elapsed_ns: u128 = if now >= entry.pending.created {
            now - entry.pending.created
        } else {
            0
        };
        if elapsed_ns > 30_000_000_000 || entry.pending.cluster_id != cluster_id || !str_eq(
            entry.pending.namespace.as_str(),
            namespace,
        ) || !bytes_eq(entry.pending.command_fingerprint.as_slice(), fingerprint) {
            return Err(AppError::BadConfirmation);
        }
        Ok(())
    }

    /// Issues a token for a destructive command on a cluster and namespace.
    pub fn issue(&mut self, cluster_id: u128, namespace: &str, cmd: &Command) -> (r: String)
        requires
            old(self).wf(),
        ensures
            final(self).wf(),
            final(self).key() == old(self).key(),
            exists|now: u128| #[trigger]
                issued(old(self)@, final(self)@, now, r@, cluster_id, namespace@, fingerprint_of(old(self).key(), cluster_id, namespace@, cmd@)),
    {
        let now = nanos_since(&self.clock);
        let challenge_id = new_challenge_id();
        let fp = fingerprint(self.hmac_key.as_slice(), cluster_id, namespace, cmd);
        let ghost id = challenge_id@;
        self.issue_at(now, challenge_id.clone(), cluster_id, namespace, fp);
        assert(issued(old(self)@, self@, now, id, cluster_id, namespace@, fingerprint_of(old(self).key(), cluster_id, namespace@, cmd@)));
        challenge_id
    }

    /// Consumes a token, verifying it matches the (cluster, namespace,
    /// command) triple it was issued for.
    pub fn consume(&mut self, challenge_id: &str, cluster_id: u128, namespace: &str, cmd: &Command) -> (r: Result<(), AppError>)
        requires
            old(self).wf(),
        ensures
            final(self).wf(),
            final(self).key() == old(self).key(),
            exists|now: u128| #[trigger]
                consumed(old(self)@, final(self)@, now, challenge_id@, cluster_id, namespace@, fingerprint_of(old(self).key(), cluster_id, namespace@, cmd@), r is Ok),
            r matches Err(e) ==> e@ == ErrorV::BadConfirmation,
    {
        let now = nanos_since(&self.clock);
        let fp = fingerprint(self.hmac_key.as_slice(), cluster_id, namespace, cmd);
        let r = self.consume_at(now, challenge_id, cluster_id, namespace, fp.as_slice());
        assert(consumed(old(self)@, self@, now, challenge_id@, cluster_id, namespace@, fingerprint_of(old(self).key(), cluster_id, namespace@, cmd@), r is Ok));
        r
    }
}

/// The table after issuing token `id` at `now` for the given binding.
pub open spec fn issued(before: Map<Seq<char>, PendingV>, after: Map<Seq<char>, PendingV>, now: u128, id: Seq<char>, cluster_id: u128, ns: Seq<char>, fp: Seq<u8>) -> bool {
    after == live(before, now).insert(id, PendingV { cluster_id, namespace: ns, fingerprint: fp, created: now })
}

/// The table after consuming token `id` at `now`, and whether it was accepted.
pub open spec fn consumed(before: Map<Seq<char>, PendingV>, after: Map<Seq<char>, PendingV>, now: u128, id: Seq<char>, cluster_id: u128, ns: Seq<char>, fp: Seq<u8>, ok: bool) -> bool {
    &&& after == live(before, now).remove(id)
    &&& ok == accepts(before, now, id, cluster_id, ns, fp)
}

fn bytes_eq(a: &[u8], b: &[u8]) -> (r: bool)
    ensures
        r == (a@ == b@),
{
    if a.len() != b.len() {
        return false;
    }
    let mut i: usize = 0;
    while i < a.len()
        invariant
            a@.len() == b@.len(),
            i <= a@.len(),
            forall|j: int| 0 <= j < i ==> a@[j] == b@[j],
        decreases a@.len() - i,
    {
        if a[i] != b[i] {
            return false;
        }
        i = i + 1;
    }
    assert(a@ =~= b@);
    true
}

impl Default for PendingConfirmations {
    fn default() -> (r: PendingConfirmations)
        ensures
            r.wf(),
            r@ == Map::<Seq<char>, PendingV>::empty(),
            r.key().len() == 32,
    {
        PendingConfirmations::new()
    }
}

// ---------- the confirmation request ----------

/// What the frontend is shown when a destructive command needs confirming.
#[derive(Debug, Clone)]
pub struct ConfirmationRequest {
    pub challenge_id: String,
    pub cluster_id: u128,
    pub cluster_name: String,
    pub environment: Environment,
    pub action_summary: String,
    /// True if the user must type the cluster name to confirm.
    pub require_typed_name: bool,
}

pub fn build_confirmation_request(rec: &ClusterRecord, namespace: &str, cmd: &Command, challenge_id: String) -> (r: ConfirmationRequest)
    ensures
        r.challenge_id@ == challenge_id@,
        r.cluster_id == rec.id,
        r.cluster_name@ == rec.name@,
        r.environment == rec.environment,
        r.action_summary@ == summary_of(cmd@, namespace@),
        r.require_typed_name == (rec.environment == Environment::Prod),
{
    ConfirmationRequest {
        challenge_id,
        cluster_id: rec.id,
        cluster_name: rec.name.clone(),
        environment: rec.environment,
        action_summary: summarize(cmd, namespace),
        require_typed_name: rec.environment.is_prod(),
    }
}

} // verus!
