//! Properties that hold across the library's operations: what the command
//! language refuses, how confirmation tokens behave over time, what the
//! credential store gives back after each change, and what leaves it.

use vstd::prelude::*;
use crate::commands::{entry_value, merged, replaces_auth, user_auth, ClusterInput, KcEntry};
use crate::dashboard::{
    decision_of, probe_after, provision_decision, search_after, step_rank, PodCandidate,
    ProvisionActionV, ProvisionStep, SearchStepV, TokenDecisionV, TokenOutcome, TokenStep,
};
use crate::error::ErrorV;
use crate::parser::{command_result, first_forbidden, is_forbidden_token, CommandV};
use crate::parser::Resource;
use crate::safety::{
    accepts, command_text, consumed, field, fingerprint_message, fingerprint_of, issued, opt_field,
    resource_label, severity_of, summary_of, ttl_nanos, PendingV, Severity,
};
use crate::store::{
    auth_kind_of, key_decision, position_of, redact, without_id, AuthV, ClusterV, KeyActionV, KeyRead,
    KeyStep,
};
use crate::executor::{apply_step_of, apply_steps, YamlDocV};
use crate::error::{join_spaced, looks_like_token, scrub_word, scrubbed};
use crate::text::{contains_text, decimal, digit_char, int_decimal, is_digit, is_ws, words, words_from};

verus! {

// ---------- the command language ----------

proof fn lemma_first_forbidden_found(toks: Seq<Seq<char>>, i: int)
    requires
        0 <= i < toks.len(),
        is_forbidden_token(toks[i]),
    ensures
        first_forbidden(toks) is Some,
    decreases toks.len(),
{
    if !is_forbidden_token(toks[0]) {
        assert(toks.drop_first()[i - 1] == toks[i]);
        lemma_first_forbidden_found(toks.drop_first(), i - 1);
    }
}

/// A forbidden token anywhere in a command line (in any ASCII case) makes
/// the whole line rejected as forbidden, whatever else it says.
pub proof fn forbidden_token_rejects_line(input: Seq<char>, i: int)
    requires
        0 <= i < words(input).len(),
        is_forbidden_token(words(input)[i]),
    ensures
        command_result(input) matches Err(ErrorV::Forbidden(_)),
{
    lemma_first_forbidden_found(words(input), i);
}

/// A command line that parses holds no forbidden token.
pub proof fn parsed_line_has_no_forbidden_token(input: Seq<char>)
    requires
        command_result(input) is Ok,
    ensures
        forall|i: int| 0 <= i < words(input).len() ==> !is_forbidden_token(#[trigger] words(input)[i]),
{
    assert forall|i: int| 0 <= i < words(input).len() implies !is_forbidden_token(#[trigger] words(input)[i]) by {
        if is_forbidden_token(words(input)[i]) {
            forbidden_token_rejects_line(input, i);
        }
    };
}

// ---------- confirmation tokens ----------

/// A token issued for a cluster, namespace and command is accepted for
/// exactly those within 30 seconds of its issue.
pub proof fn issued_token_accepted_while_live(
    before: Map<Seq<char>, PendingV>,
    after: Map<Seq<char>, PendingV>,
    now: u128,
    later: u128,
    id: Seq<char>,
    cluster_id: u128,
    ns: Seq<char>,
    fp: Seq<u8>,
)
    requires
        issued(before, after, now, id, cluster_id, ns, fp),
        now <= later,
        later - now <= ttl_nanos(),
    ensures
        accepts(after, later, id, cluster_id, ns, fp),
{
}

/// An issued token is accepted for nothing but the cluster, namespace and
/// command fingerprint it was issued for.
pub proof fn issued_token_bound_to_its_command(
    before: Map<Seq<char>, PendingV>,
    after: Map<Seq<char>, PendingV>,
    now: u128,
    later: u128,
    id: Seq<char>,
    cluster_id: u128,
    ns: Seq<char>,
    fp: Seq<u8>,
    other_cluster: u128,
    other_ns: Seq<char>,
    other_fp: Seq<u8>,
)
    requires
        issued(before, after, now, id, cluster_id, ns, fp),
        accepts(after, later, id, other_cluster, other_ns, other_fp),
    ensures
        other_cluster == cluster_id,
        other_ns == ns,
        other_fp == fp,
{
}

/// A token is refused once more than 30 seconds have passed since its issue.
pub proof fn issued_token_expires(
    before: Map<Seq<char>, PendingV>,
    after: Map<Seq<char>, PendingV>,
    now: u128,
    later: u128,
    id: Seq<char>,
    cluster_id: u128,
    ns: Seq<char>,
    fp: Seq<u8>,
    any_cluster: u128,
    any_ns: Seq<char>,
    any_fp: Seq<u8>,
)
    requires
        issued(before, after, now, id, cluster_id, ns, fp),
        now <= later,
        later - now > ttl_nanos(),
    ensures
        !accepts(after, later, id, any_cluster, any_ns, any_fp),
{
}

/// A token is used up by its first presentation, accepted or not: it is
/// never accepted again, for anything.
pub proof fn token_single_use(
    before: Map<Seq<char>, PendingV>,
    after: Map<Seq<char>, PendingV>,
    now: u128,
    id: Seq<char>,
    cluster_id: u128,
    ns: Seq<char>,
    fp: Seq<u8>,
    ok: bool,
    later: u128,
    any_cluster: u128,
    any_ns: Seq<char>,
    any_fp: Seq<u8>,
)
    requires
        consumed(before, after, now, id, cluster_id, ns, fp, ok),
    ensures
        !after.contains_key(id),
        !accepts(after, later, id, any_cluster, any_ns, any_fp),
{
}

/// A token issued for a command on a cluster and namespace is accepted
/// when that same command comes back with it within 30 seconds.
pub proof fn issued_command_accepted_while_live(
    before: Map<Seq<char>, PendingV>,
    after: Map<Seq<char>, PendingV>,
    now: u128,
    later: u128,
    id: Seq<char>,
    key: Seq<u8>,
    cluster_id: u128,
    ns: Seq<char>,
    cmd: CommandV,
)
    requires
        issued(before, after, now, id, cluster_id, ns, fingerprint_of(key, cluster_id, ns, cmd)),
        now <= later,
        later - now <= ttl_nanos(),
    ensures
        accepts(after, later, id, cluster_id, ns, fingerprint_of(key, cluster_id, ns, cmd)),
{
}

/// A token issued for a command is refused for every command once more
/// than 30 seconds have passed.
pub proof fn issued_command_expires(
    before: Map<Seq<char>, PendingV>,
    after: Map<Seq<char>, PendingV>,
    now: u128,
    later: u128,
    id: Seq<char>,
    key: Seq<u8>,
    cluster_id: u128,
    ns: Seq<char>,
    cmd: CommandV,
    any_cluster: u128,
    any_ns: Seq<char>,
    any_cmd: CommandV,
)
    requires
        issued(before, after, now, id, cluster_id, ns, fingerprint_of(key, cluster_id, ns, cmd)),
        now <= later,
        later - now > ttl_nanos(),
    ensures
        !accepts(after, later, id, any_cluster, any_ns, fingerprint_of(key, any_cluster, any_ns, any_cmd)),
{
}

/// Once a token has been presented with a command, accepted or not, it is
/// accepted for no command again.
pub proof fn command_token_single_use(
    before: Map<Seq<char>, PendingV>,
    after: Map<Seq<char>, PendingV>,
    now: u128,
    id: Seq<char>,
    key: Seq<u8>,
    cluster_id: u128,
    ns: Seq<char>,
    cmd: CommandV,
    ok: bool,
    later: u128,
    any_cluster: u128,
    any_ns: Seq<char>,
    any_cmd: CommandV,
)
    requires
        consumed(before, after, now, id, cluster_id, ns, fingerprint_of(key, cluster_id, ns, cmd), ok),
    ensures
        !after.contains_key(id),
        !accepts(after, later, id, any_cluster, any_ns, fingerprint_of(key, any_cluster, any_ns, any_cmd)),
{
}

// ---------- the confirmation summary ----------

/// What a destructive command acts on: the object's name, or the paste id.
pub open spec fn summary_target(c: CommandV) -> Seq<char> {
    match c {
        CommandV::Delete { name, .. } => name,
        CommandV::Scale { name, .. } => name,
        CommandV::RolloutRestart { name, .. } => name,
        CommandV::Apply { paste_id } => paste_id,
        _ => seq![],
    }
}

proof fn lemma_summary_parts(c: CommandV, ns: Seq<char>, pre: Seq<char>, mid: Seq<char>)
    requires
        summary_of(c, ns) == pre + (seq!['\''] + summary_target(c) + seq!['\'']) + mid + ("namespace '"@ + ns
            + "'"@),
    ensures
        contains_text(summary_of(c, ns), seq!['\''] + summary_target(c) + seq!['\'']),
        ("namespace '"@ + ns + "'"@).is_suffix_of(summary_of(c, ns)),
{
    let s = summary_of(c, ns);
    let q = seq!['\''] + summary_target(c) + seq!['\''];
    let t = "namespace '"@ + ns + "'"@;
    assert(s.subrange(pre.len() as int, (pre.len() + q.len()) as int) =~= q);
    assert(s.subrange(s.len() - t.len(), s.len() as int) =~= t);
}

/// The confirmation dialog's summary: "safe operation" for a safe command;
/// for a destructive one, the name (or paste id) it acts on in single
/// quotes, and at the end the namespace, quoted.
pub proof fn summary_names_target_and_namespace(c: CommandV, ns: Seq<char>)
    ensures
        severity_of(c) == Severity::Safe ==> summary_of(c, ns) == "safe operation"@,
        severity_of(c) == Severity::Destructive ==> contains_text(
            summary_of(c, ns),
            seq!['\''] + summary_target(c) + seq!['\''],
        ) && ("namespace '"@ + ns + "'"@).is_suffix_of(summary_of(c, ns)),
{
    reveal_strlit("DELETE ");
    reveal_strlit("SCALE ");
    reveal_strlit("ROLLOUT RESTART ");
    reveal_strlit("APPLY pasted manifest '");
    reveal_strlit(" '");
    reveal_strlit("' in namespace '");
    reveal_strlit("' into namespace '");
    reveal_strlit("' to ");
    reveal_strlit(" replicas in namespace '");
    reveal_strlit("'");
    reveal_strlit("namespace '");
    reveal_strlit(" in ");
    reveal_strlit(" into ");
    reveal_strlit(" ");
    reveal_strlit(" to ");
    reveal_strlit(" replicas in ");
    reveal_strlit("APPLY pasted manifest ");
    let t = "namespace '"@ + ns + "'"@;
    match c {
        CommandV::Delete { resource, name } => {
            let pre = "DELETE "@ + resource_label(resource) + " "@;
            assert(summary_of(c, ns) =~= pre + (seq!['\''] + name + seq!['\'']) + " in "@ + t);
            lemma_summary_parts(c, ns, pre, " in "@);
        },
        CommandV::RolloutRestart { resource, name } => {
            let pre = "ROLLOUT RESTART "@ + resource_label(resource) + " "@;
            assert(summary_of(c, ns) =~= pre + (seq!['\''] + name + seq!['\'']) + " in "@ + t);
            lemma_summary_parts(c, ns, pre, " in "@);
        },
        CommandV::Scale { resource, name, replicas } => {
            let pre = "SCALE "@ + resource_label(resource) + " "@;
            let mid = " to "@ + int_decimal(replicas as int) + " replicas in "@;
            assert(summary_of(c, ns) =~= pre + (seq!['\''] + name + seq!['\'']) + mid + t);
            lemma_summary_parts(c, ns, pre, mid);
        },
        CommandV::Apply { paste_id } => {
            let pre = "APPLY pasted manifest "@;
            assert(summary_of(c, ns) =~= pre + (seq!['\''] + paste_id + seq!['\'']) + " into "@ + t);
            lemma_summary_parts(c, ns, pre, " into "@);
        },
        _ => {},
    }
}

// ---------- scrubbing messages ----------

/// A word as `words` yields it: not empty, and no whitespace in it.
spec fn good_word(w: Seq<char>) -> bool {
    w.len() > 0 && forall|i: int| 0 <= i < w.len() ==> !is_ws(#[trigger] w[i])
}

spec fn good_words(ws: Seq<Seq<char>>) -> bool {
    forall|i: int| 0 <= i < ws.len() ==> good_word(#[trigger] ws[i])
}

spec fn flush(cur: Seq<char>, acc: Seq<Seq<char>>) -> Seq<Seq<char>> {
    if cur.len() > 0 {
        acc.push(cur)
    } else {
        acc
    }
}

/// The state of the word splitter after reading a text: the word being
/// read and the words complete.
spec fn run_split(s: Seq<char>, cur: Seq<char>, acc: Seq<Seq<char>>) -> (Seq<char>, Seq<Seq<char>>)
    decreases s.len(),
{
    if s.len() == 0 {
        (cur, acc)
    } else if is_ws(s[0]) {
        run_split(s.drop_first(), seq![], flush(cur, acc))
    } else {
        run_split(s.drop_first(), cur.push(s[0]), acc)
    }
}

proof fn lemma_words_from_run(s: Seq<char>, cur: Seq<char>, acc: Seq<Seq<char>>)
    ensures
        words_from(s, cur, acc) == flush(run_split(s, cur, acc).0, run_split(s, cur, acc).1),
    decreases s.len(),
{
    if s.len() > 0 {
        if is_ws(s[0]) {
            lemma_words_from_run(s.drop_first(), seq![], flush(cur, acc));
        } else {
            lemma_words_from_run(s.drop_first(), cur.push(s[0]), acc);
        }
    }
}

proof fn lemma_run_append(a: Seq<char>, b: Seq<char>, cur: Seq<char>, acc: Seq<Seq<char>>)
    ensures
        run_split(a + b, cur, acc) == run_split(b, run_split(a, cur, acc).0, run_split(a, cur, acc).1),
    decreases a.len(),
{
    if a.len() == 0 {
        assert(a + b =~= b);
    } else {
        assert((a + b).drop_first() =~= a.drop_first() + b);
        assert((a + b)[0] == a[0]);
        if is_ws(a[0]) {
            lemma_run_append(a.drop_first(), b, seq![], flush(cur, acc));
        } else {
            lemma_run_append(a.drop_first(), b, cur.push(a[0]), acc);
        }
    }
}

proof fn lemma_run_word(w: Seq<char>, cur: Seq<char>, acc: Seq<Seq<char>>)
    requires
        forall|i: int| 0 <= i < w.len() ==> !is_ws(#[trigger] w[i]),
    ensures
        run_split(w, cur, acc) == (cur + w, acc),
    decreases w.len(),
{
    if w.len() == 0 {
        assert(cur + w =~= cur);
    } else {
        assert(!is_ws(w[0]));
        assert forall|i: int| 0 <= i < w.drop_first().len() implies !is_ws(#[trigger] w.drop_first()[i]) by {
            assert(w.drop_first()[i] == w[i + 1]);
        };
        lemma_run_word(w.drop_first(), cur.push(w[0]), acc);
        assert(cur.push(w[0]) + w.drop_first() =~= cur + w);
    }
}

proof fn lemma_run_joined(ws: Seq<Seq<char>>, acc: Seq<Seq<char>>)
    requires
        ws.len() > 0,
        good_words(ws),
    ensures
        run_split(join_spaced(ws), seq![], acc) == (ws.last(), acc + ws.drop_last()),
    decreases ws.len(),
{
    if ws.len() == 1 {
        assert(good_word(ws[0]));
        lemma_run_word(ws[0], seq![], acc);
        assert(Seq::<char>::empty() + ws[0] =~= ws[0]);
        assert(acc + ws.drop_last() =~= acc);
    } else {
        let init = ws.drop_last();
        assert forall|i: int| 0 <= i < init.len() implies good_word(#[trigger] init[i]) by {
            assert(init[i] == ws[i]);
        };
        lemma_run_joined(init, acc);
        let j = join_spaced(init);
        assert(good_word(ws.last()));
        assert(good_word(init.last()));
        lemma_run_append(j + seq![' '], ws.last(), seq![], acc);
        lemma_run_append(j, seq![' '], seq![], acc);
        assert(is_ws(' '));
        assert(seq![' '].drop_first() =~= Seq::<char>::empty());
        assert(run_split(seq![' '], init.last(), acc + init.drop_last()) == (
            Seq::<char>::empty(),
            acc + init.drop_last() + seq![init.last()],
        )) by {
            let sp = seq![' '];
            let a2 = acc + init.drop_last();
            assert(sp.len() == 1 && sp[0] == ' ');
            assert(init.last().len() > 0);
            assert(flush(init.last(), a2) == a2.push(init.last()));
            assert(run_split(sp.drop_first(), seq![], a2.push(init.last())) == (
                Seq::<char>::empty(),
                a2.push(init.last()),
            ));
            assert(run_split(sp, init.last(), a2) == run_split(sp.drop_first(), seq![], flush(init.last(), a2)));
            assert(a2.push(init.last()) =~= a2 + seq![init.last()]);
        };
        lemma_run_word(ws.last(), seq![], acc + init);
        assert(acc + init.drop_last() + seq![init.last()] =~= acc + init);
        assert(Seq::<char>::empty() + ws.last() =~= ws.last());
    }
}

/// Joining good words with single spaces and splitting again gives them back.
proof fn lemma_words_of_joined(ws: Seq<Seq<char>>)
    requires
        good_words(ws),
    ensures
        words(join_spaced(ws)) == ws,
{
    lemma_words_from_run(join_spaced(ws), seq![], seq![]);
    if ws.len() > 0 {
        lemma_run_joined(ws, seq![]);
        assert(ws.last().len() > 0) by {
            assert(good_word(ws[ws.len() - 1]));
        };
        assert(Seq::<Seq<char>>::empty() + ws.drop_last() =~= ws.drop_last());
        assert(ws.drop_last().push(ws.last()) =~= ws);
    }
}

proof fn lemma_words_good(s: Seq<char>, cur: Seq<char>, acc: Seq<Seq<char>>)
    requires
        good_words(acc),
        forall|i: int| 0 <= i < cur.len() ==> !is_ws(#[trigger] cur[i]),
    ensures
        good_words(words_from(s, cur, acc)),
    decreases s.len(),
{
    if s.len() == 0 {
        if cur.len() > 0 {
            assert(good_word(cur));
            assert forall|i: int| 0 <= i < acc.push(cur).len() implies good_word(#[trigger] acc.push(cur)[i]) by {
                if i < acc.len() {
                    assert(acc.push(cur)[i] == acc[i]);
                }
            };
        }
    } else if is_ws(s[0]) {
        let next = flush(cur, acc);
        if cur.len() > 0 {
            assert(good_word(cur));
            assert forall|i: int| 0 <= i < next.len() implies good_word(#[trigger] next[i]) by {
                if i < acc.len() {
                    assert(next[i] == acc[i]);
                }
            };
        }
        lemma_words_good(s.drop_first(), seq![], next);
    } else {
        let c2 = cur.push(s[0]);
        assert forall|i: int| 0 <= i < c2.len() implies !is_ws(#[trigger] c2[i]) by {
            if i < cur.len() {
                assert(c2[i] == cur[i]);
            }
        };
        lemma_words_good(s.drop_first(), c2, acc);
    }
}

/// Scrubbing a message a second time changes nothing.
pub proof fn scrub_is_idempotent(s: Seq<char>)
    ensures
        scrubbed(scrubbed(s)) == scrubbed(s),
{
    reveal_strlit("[redacted]");
    lemma_words_good(s, seq![], seq![]);
    let ws = words(s);
    let once = ws.map_values(|w: Seq<char>| scrub_word(w));
    assert forall|i: int| 0 <= i < once.len() implies good_word(#[trigger] once[i]) by {
        assert(good_word(ws[i]));
        if looks_like_token(ws[i]) {
            assert(once[i] == "[redacted]"@);
            assert forall|k: int| 0 <= k < once[i].len() implies !is_ws(#[trigger] once[i][k]) by {};
        }
    };
    lemma_words_of_joined(once);
    let twice = once.map_values(|w: Seq<char>| scrub_word(w));
    assert forall|i: int| 0 <= i < once.len() implies #[trigger] twice[i] == once[i] by {
        if looks_like_token(ws[i]) {
            assert(once[i] == "[redacted]"@);
            assert(!looks_like_token(once[i]));
        }
    };
    assert(twice =~= once);
}

// ---------- the credential store ----------

/// A record added under an id no other record has is what a lookup of that
/// id finds.
pub proof fn added_record_is_found(records: Seq<ClusterV>, added: ClusterV)
    requires
        position_of(records, added.id) is None,
    ensures
        position_of(records.push(added), added.id) == Some(records.len() as int),
        records.push(added)[records.len() as int] == added,
    decreases records.len(),
{
    if records.len() > 0 {
        let s = records.push(added);
        assert(s.drop_first() =~= records.drop_first().push(added));
        added_record_is_found(records.drop_first(), added);
    }
}

/// After a record is replaced, a lookup of its id finds the new record.
pub proof fn updated_record_is_found(records: Seq<ClusterV>, k: int, rec: ClusterV)
    requires
        position_of(records, rec.id) == Some(k),
    ensures
        position_of(records.update(k, rec), rec.id) == Some(k),
        records.update(k, rec)[k] == rec,
    decreases records.len(),
{
    crate::store::lemma_position_of_bounds(records, rec.id);
    if k > 0 {
        let s = records.update(k, rec);
        assert(s.drop_first() =~= records.drop_first().update(k - 1, rec));
        updated_record_is_found(records.drop_first(), k - 1, rec);
    }
}

proof fn lemma_filter_drops(s: Seq<ClusterV>, id: u128)
    ensures
        forall|j: int| 0 <= j < without_id(s, id).len() ==> (#[trigger] without_id(s, id)[j]).id != id,
    decreases s.len(),
{
    reveal(Seq::filter);
    if s.len() > 0 {
        lemma_filter_drops(s.drop_last(), id);
    }
}

/// After a delete, a lookup of the deleted id finds nothing.
pub proof fn deleted_record_is_gone(records: Seq<ClusterV>, id: u128)
    ensures
        position_of(without_id(records, id), id) is None,
{
    let t = without_id(records, id);
    lemma_filter_drops(records, id);
    crate::store::lemma_position_of_bounds(t, id);
}

/// The record a lookup of an id finds: the first with that id.
pub open spec fn found(records: Seq<ClusterV>, id: u128) -> Option<ClusterV> {
    match position_of(records, id) {
        Some(k) => Some(records[k]),
        None => None,
    }
}

/// Deleting one id leaves what a lookup of every other id finds unchanged.
pub proof fn delete_keeps_other_records(records: Seq<ClusterV>, id: u128, other: u128)
    requires
        other != id,
    ensures
        found(without_id(records, id), other) == found(records, other),
    decreases records.len(),
{
    reveal_with_fuel(Seq::filter, 2);
    if records.len() == 0 {
        assert(without_id(records, id) =~= Seq::<ClusterV>::empty());
    } else {
        let t = records.drop_first();
        let head = seq![records[0]];
        assert(records =~= head + t);
        Seq::filter_distributes_over_add(head, t, |c: ClusterV| c.id != id);
        delete_keeps_other_records(t, id, other);
        crate::store::lemma_position_of_bounds(t, other);
        if records[0].id != other {
            if let Some(k) = position_of(t, other) {
                assert(records[k + 1] == t[k]);
            }
        }
        let w = without_id(records, id);
        if records[0].id == id {
            assert(head.filter(|c: ClusterV| c.id != id) =~= Seq::<ClusterV>::empty());
            assert(w =~= without_id(t, id));
        } else {
            assert(head.filter(|c: ClusterV| c.id != id) =~= head);
            assert(w =~= head + without_id(t, id));
            assert(w[0] == records[0]);
            assert(w.drop_first() =~= without_id(t, id));
            if records[0].id != other {
                crate::store::lemma_position_of_bounds(without_id(t, id), other);
                if let Some(k) = position_of(without_id(t, id), other) {
                    assert(w[k + 1] == without_id(t, id)[k]);
                }
            }
        }
    }
}

/// What the record list shows of a record depends on none of its secrets:
/// two records that differ only in the token, certificate, key or CA text
/// (of the same kind and presence) are listed alike.
pub proof fn listing_hides_secrets(c: ClusterV, auth: AuthV, ca_pem: Seq<char>)
    requires
        auth_kind_of(auth) == auth_kind_of(c.auth),
        (ca_pem.len() > 0) == (c.ca_pem.len() > 0),
    ensures
        redact(ClusterV { auth, ca_pem, ..c }) == redact(c),
{
}

/// Editing a record with a form whose secret fields are left empty keeps
/// the stored CA and credentials.
pub proof fn blank_secrets_keep_stored(stored: ClusterV, input: ClusterInput)
    requires
        !replaces_auth(input.auth@),
        input.ca_pem@.len() == 0,
    ensures
        merged(stored, input).auth == stored.auth,
        merged(stored, input).ca_pem == stored.ca_pem,
        merged(stored, input).id == stored.id,
{
}

// ---------- what a token is bound to ----------

proof fn lemma_decimal_shape(n: nat)
    ensures
        decimal(n).len() >= 1,
        n >= 10 ==> decimal(n).len() >= 2,
        forall|i: int| 0 <= i < decimal(n).len() ==> is_digit(#[trigger] decimal(n)[i]),
    decreases n,
{
    if n >= 10 {
        lemma_decimal_shape(n / 10);
        assert forall|i: int| 0 <= i < decimal(n).len() implies is_digit(#[trigger] decimal(n)[i]) by {
            if i < decimal(n / 10).len() {
                assert(decimal(n)[i] == decimal(n / 10)[i]);
            }
        };
    }
}

proof fn lemma_digit_char_injective(a: nat, b: nat)
    requires
        a < 10,
        b < 10,
        digit_char(a) == digit_char(b),
    ensures
        a == b,
{
    assert(digit_char(a) as u32 == a + 48);
    assert(digit_char(b) as u32 == b + 48);
}

proof fn lemma_decimal_injective(a: nat, b: nat)
    requires
        decimal(a) == decimal(b),
    ensures
        a == b,
    decreases a,
{
    lemma_decimal_shape(a);
    lemma_decimal_shape(b);
    if a >= 10 && b >= 10 {
        assert(decimal(a).drop_last() =~= decimal(a / 10));
        assert(decimal(b).drop_last() =~= decimal(b / 10));
        lemma_decimal_injective(a / 10, b / 10);
        assert(decimal(a).last() == decimal(b).last());
        assert(decimal(a) == decimal(a / 10).push(digit_char(a % 10)));
        assert(decimal(b) == decimal(b / 10).push(digit_char(b % 10)));
        assert(decimal(a).last() == digit_char(a % 10));
        assert(decimal(b).last() == digit_char(b % 10));
        lemma_digit_char_injective(a % 10, b % 10);
    } else if a < 10 && b < 10 {
        assert(decimal(a)[0] == decimal(b)[0]);
        assert(decimal(a) == seq![digit_char(a)]);
        assert(decimal(b) == seq![digit_char(b)]);
        assert(seq![digit_char(a)][0] == digit_char(a));
        assert(seq![digit_char(b)][0] == digit_char(b));
        lemma_digit_char_injective(a, b);
    }
}

proof fn lemma_cancel_prefix(p: Seq<char>, x: Seq<char>, y: Seq<char>)
    requires
        p + x == p + y,
    ensures
        x == y,
{
    assert(x =~= (p + x).skip(p.len() as int));
    assert(y =~= (p + y).skip(p.len() as int));
}

proof fn lemma_split_at(p1: Seq<char>, r1: Seq<char>, p2: Seq<char>, r2: Seq<char>, sep: char)
    requires
        !p1.contains(sep),
        !p2.contains(sep),
        p1 + seq![sep] + r1 == p2 + seq![sep] + r2,
    ensures
        p1 == p2,
        r1 == r2,
{
    let t1 = p1 + seq![sep] + r1;
    let t2 = p2 + seq![sep] + r2;
    if p1.len() < p2.len() {
        assert(t1[p1.len() as int] == sep);
        assert(t2[p1.len() as int] == p2[p1.len() as int]);
        assert(p2.contains(p2[p1.len() as int]));
    } else if p2.len() < p1.len() {
        assert(t2[p2.len() as int] == sep);
        assert(t1[p2.len() as int] == p1[p2.len() as int]);
        assert(p1.contains(p1[p2.len() as int]));
    } else {
        assert(p1 =~= t1.take(p1.len() as int));
        assert(p2 =~= t2.take(p2.len() as int));
        assert(r1 =~= t1.skip(p1.len() + 1int));
        assert(r2 =~= t2.skip(p2.len() + 1int));
    }
}

proof fn lemma_decimal_lacks(n: nat, c: char)
    requires
        !is_digit(c),
    ensures
        !decimal(n).contains(c),
{
    lemma_decimal_shape(n);
    if decimal(n).contains(c) {
        let i = choose|i: int| 0 <= i < decimal(n).len() && decimal(n)[i] == c;
        assert(is_digit(decimal(n)[i]));
    }
}

/// Two length-prefixed fields followed by anything are equal only where
/// the fields are equal and so is what follows.
proof fn lemma_field_cancel(s1: Seq<char>, r1: Seq<char>, s2: Seq<char>, r2: Seq<char>)
    requires
        field(s1) + r1 == field(s2) + r2,
    ensures
        s1 == s2,
        r1 == r2,
{
    assert(field(s1) + r1 =~= decimal(s1.len()) + seq![':'] + (s1 + r1));
    assert(field(s2) + r2 =~= decimal(s2.len()) + seq![':'] + (s2 + r2));
    lemma_decimal_lacks(s1.len(), ':');
    lemma_decimal_lacks(s2.len(), ':');
    lemma_split_at(decimal(s1.len()), s1 + r1, decimal(s2.len()), s2 + r2, ':');
    lemma_decimal_injective(s1.len(), s2.len());
    assert(s1 =~= (s1 + r1).take(s1.len() as int));
    assert(s2 =~= (s2 + r2).take(s2.len() as int));
    assert(r1 =~= (s1 + r1).skip(s1.len() as int));
    assert(r2 =~= (s2 + r2).skip(s2.len() as int));
}

proof fn lemma_opt_field_cancel(o1: Option<Seq<char>>, r1: Seq<char>, o2: Option<Seq<char>>, r2: Seq<char>)
    requires
        opt_field(o1) + r1 == opt_field(o2) + r2,
    ensures
        o1 == o2,
        r1 == r2,
{
    let t1 = opt_field(o1) + r1;
    let t2 = opt_field(o2) + r2;
    match (o1, o2) {
        (None, None) => {
            lemma_cancel_prefix(seq!['~'], r1, r2);
        },
        (Some(a), Some(b)) => {
            assert(t1 =~= seq!['='] + (field(a) + r1));
            assert(t2 =~= seq!['='] + (field(b) + r2));
            lemma_cancel_prefix(seq!['='], field(a) + r1, field(b) + r2);
            lemma_field_cancel(a, r1, b, r2);
        },
        (None, Some(b)) => {
            assert(t1[0] == '~');
            assert(t2[0] == '=');
        },
        (Some(a), None) => {
            assert(t1[0] == '=');
            assert(t2[0] == '~');
        },
    }
}

proof fn lemma_int_decimal_injective(a: int, b: int)
    requires
        int_decimal(a) == int_decimal(b),
    ensures
        a == b,
{
    lemma_decimal_shape((if a < 0 { -a } else { a }) as nat);
    lemma_decimal_shape((if b < 0 { -b } else { b }) as nat);
    if a < 0 && b < 0 {
        lemma_cancel_prefix(seq!['-'], decimal((-a) as nat), decimal((-b) as nat));
        lemma_decimal_injective((-a) as nat, (-b) as nat);
    } else if a >= 0 && b >= 0 {
        lemma_decimal_injective(a as nat, b as nat);
    } else if a < 0 {
        assert(int_decimal(a)[0] == '-');
        assert(is_digit(int_decimal(b)[0]));
    } else {
        assert(int_decimal(b)[0] == '-');
        assert(is_digit(int_decimal(a)[0]));
    }
}

spec fn label_signature(r: Resource) -> (nat, char) {
    match r {
        Resource::Pods => (4, 'P'),
        Resource::Deployments => (11, 'D'),
        Resource::Services => (8, 'S'),
        Resource::Nodes => (5, 'N'),
        Resource::Namespaces => (10, 'N'),
        Resource::ConfigMaps => (10, 'C'),
        Resource::Secrets => (7, 'S'),
        Resource::Events => (6, 'E'),
        Resource::ReplicaSets => (11, 'R'),
        Resource::StatefulSets => (12, 'S'),
        Resource::DaemonSets => (10, 'D'),
        Resource::Ingresses => (9, 'I'),
        Resource::Jobs => (4, 'J'),
        Resource::CronJobs => (8, 'C'),
    }
}

proof fn lemma_label_plain(r: Resource)
    ensures
        !resource_label(r).contains('|'),
{
    reveal_strlit("Pods");
    reveal_strlit("Deployments");
    reveal_strlit("Services");
    reveal_strlit("Nodes");
    reveal_strlit("Namespaces");
    reveal_strlit("ConfigMaps");
    reveal_strlit("Secrets");
    reveal_strlit("Events");
    reveal_strlit("ReplicaSets");
    reveal_strlit("StatefulSets");
    reveal_strlit("DaemonSets");
    reveal_strlit("Ingresses");
    reveal_strlit("Jobs");
    reveal_strlit("CronJobs");
    let l = resource_label(r);
    assert forall|i: int| 0 <= i < l.len() implies l[i] != '|' by {
        assert(l[i] == resource_label(r)[i]);
    };
}

proof fn lemma_label_injective(r1: Resource, r2: Resource)
    requires
        resource_label(r1) == resource_label(r2),
    ensures
        r1 == r2,
{
    lemma_label_signature(r1);
    lemma_label_signature(r2);
    assert(resource_label(r1)[0] == resource_label(r2)[0]);
}

/// The length and first letter of each label, which tell the labels apart.
proof fn lemma_label_signature(r: Resource)
    ensures
        label_signature(r) == (resource_label(r).len(), resource_label(r)[0]),
{
    reveal_strlit("Pods");
    reveal_strlit("Deployments");
    reveal_strlit("Services");
    reveal_strlit("Nodes");
    reveal_strlit("Namespaces");
    reveal_strlit("ConfigMaps");
    reveal_strlit("Secrets");
    reveal_strlit("Events");
    reveal_strlit("ReplicaSets");
    reveal_strlit("StatefulSets");
    reveal_strlit("DaemonSets");
    reveal_strlit("Ingresses");
    reveal_strlit("Jobs");
    reveal_strlit("CronJobs");
}

/// A resource label and a bar, followed by anything.
proof fn lemma_label_cancel(r1: Resource, x1: Seq<char>, r2: Resource, x2: Seq<char>)
    requires
        resource_label(r1) + seq!['|'] + x1 == resource_label(r2) + seq!['|'] + x2,
    ensures
        r1 == r2,
        x1 == x2,
{
    lemma_label_plain(r1);
    lemma_label_plain(r2);
    lemma_split_at(resource_label(r1), x1, resource_label(r2), x2, '|');
    lemma_label_injective(r1, r2);
}

/// The first and third letters of a command's canonical text, which tell
/// the kinds of command apart.
spec fn verb_signature(c: CommandV) -> (char, char) {
    match c {
        CommandV::Get { .. } => ('g', 't'),
        CommandV::Describe { .. } => ('d', 's'),
        CommandV::Logs { .. } => ('l', 'g'),
        CommandV::Delete { .. } => ('d', 'l'),
        CommandV::Scale { .. } => ('s', 'a'),
        CommandV::RolloutRestart { .. } => ('r', 'l'),
        CommandV::Apply { .. } => ('a', 'p'),
        CommandV::Help => ('h', 'l'),
    }
}

proof fn lemma_verb_signature(c: CommandV)
    ensures
        command_text(c).len() >= 4,
        verb_signature(c) == (command_text(c)[0], command_text(c)[2]),
{
    reveal_strlit("get|");
    reveal_strlit("describe|");
    reveal_strlit("logs|");
    reveal_strlit("delete|");
    reveal_strlit("scale|");
    reveal_strlit("rollout-restart|");
    reveal_strlit("apply|");
    reveal_strlit("help");
}

proof fn lemma_int_decimal_lacks(i: int, c: char)
    requires
        !is_digit(c),
        c != '-',
    ensures
        !int_decimal(i).contains(c),
{
    if i < 0 {
        lemma_decimal_lacks((-i) as nat, c);
        let t = seq!['-'] + decimal((-i) as nat);
        if t.contains(c) {
            let k = choose|k: int| 0 <= k < t.len() && t[k] == c;
            assert(k > 0);
            assert(decimal((-i) as nat)[k - 1] == c);
        }
    } else {
        lemma_decimal_lacks(i as nat, c);
    }
}

/// What the log options add to the canonical text: the tail and the follow flag.
spec fn tail_text(tail: Option<i64>) -> Seq<char> {
    match tail {
        None => seq!['~'],
        Some(n) => seq!['='] + int_decimal(n as int) + seq![';'],
    }
}

spec fn follow_text(follow: bool) -> Seq<char> {
    if follow {
        seq!['y']
    } else {
        seq!['n']
    }
}

proof fn lemma_tail_cancel(t1: Option<i64>, f1: bool, t2: Option<i64>, f2: bool)
    requires
        tail_text(t1) + follow_text(f1) == tail_text(t2) + follow_text(f2),
    ensures
        t1 == t2,
        f1 == f2,
{
    let a = tail_text(t1) + follow_text(f1);
    let b = tail_text(t2) + follow_text(f2);
    match (t1, t2) {
        (None, None) => {
            lemma_cancel_prefix(seq!['~'], follow_text(f1), follow_text(f2));
            assert(follow_text(f1)[0] == follow_text(f2)[0]);
        },
        (Some(n1), Some(n2)) => {
            assert(a =~= seq!['='] + (int_decimal(n1 as int) + seq![';'] + follow_text(f1)));
            assert(b =~= seq!['='] + (int_decimal(n2 as int) + seq![';'] + follow_text(f2)));
            lemma_cancel_prefix(
                seq!['='],
                int_decimal(n1 as int) + seq![';'] + follow_text(f1),
                int_decimal(n2 as int) + seq![';'] + follow_text(f2),
            );
            lemma_int_decimal_lacks(n1 as int, ';');
            lemma_int_decimal_lacks(n2 as int, ';');
            lemma_split_at(int_decimal(n1 as int), follow_text(f1), int_decimal(n2 as int), follow_text(f2), ';');
            lemma_int_decimal_injective(n1 as int, n2 as int);
            assert(follow_text(f1)[0] == follow_text(f2)[0]);
        },
        (None, Some(_)) => {
            assert(a[0] == '~');
            assert(b[0] == '=');
        },
        (Some(_), None) => {
            assert(a[0] == '=');
            assert(b[0] == '~');
        },
    }
}

proof fn lemma_named_cancel(verb: Seq<char>, r1: Resource, n1: Seq<char>, x1: Seq<char>, r2: Resource, n2: Seq<char>, x2: Seq<char>)
    requires
        verb + resource_label(r1) + seq!['|'] + field(n1) + x1 == verb + resource_label(r2) + seq!['|']
            + field(n2) + x2,
    ensures
        r1 == r2,
        n1 == n2,
        x1 == x2,
{
    let a = resource_label(r1) + seq!['|'] + (field(n1) + x1);
    let b = resource_label(r2) + seq!['|'] + (field(n2) + x2);
    assert(verb + resource_label(r1) + seq!['|'] + field(n1) + x1 =~= verb + a);
    assert(verb + resource_label(r2) + seq!['|'] + field(n2) + x2 =~= verb + b);
    lemma_cancel_prefix(verb, a, b);
    lemma_label_cancel(r1, field(n1) + x1, r2, field(n2) + x2);
    lemma_field_cancel(n1, x1, n2, x2);
}

proof fn lemma_get_cancel(r1: Resource, n1: Option<Seq<char>>, r2: Resource, n2: Option<Seq<char>>)
    requires
        command_text(CommandV::Get { resource: r1, name: n1 }) == command_text(CommandV::Get { resource: r2, name: n2 }),
    ensures
        r1 == r2,
        n1 == n2,
{
    let a = resource_label(r1) + seq!['|'] + (opt_field(n1) + seq![]);
    let b = resource_label(r2) + seq!['|'] + (opt_field(n2) + seq![]);
    assert(command_text(CommandV::Get { resource: r1, name: n1 }) =~= "get|"@ + a);
    assert(command_text(CommandV::Get { resource: r2, name: n2 }) =~= "get|"@ + b);
    lemma_cancel_prefix("get|"@, a, b);
    lemma_label_cancel(r1, opt_field(n1) + seq![], r2, opt_field(n2) + seq![]);
    lemma_opt_field_cancel(n1, seq![], n2, seq![]);
}

proof fn lemma_logs_text(p: Seq<char>, o: Option<Seq<char>>, t: Option<i64>, f: bool)
    ensures
        command_text(CommandV::Logs { pod: p, container: o, tail: t, follow: f }) == "logs|"@ + (field(p) + (
        opt_field(o) + (tail_text(t) + follow_text(f)))),
{
    let x = "logs|"@ + field(p) + opt_field(o) + tail_text(t) + follow_text(f);
    assert(command_text(CommandV::Logs { pod: p, container: o, tail: t, follow: f }) == x);
    assert(x =~= "logs|"@ + (field(p) + (opt_field(o) + (tail_text(t) + follow_text(f)))));
}

proof fn lemma_logs_cancel(p1: Seq<char>, o1: Option<Seq<char>>, t1: Option<i64>, f1: bool, p2: Seq<char>, o2: Option<Seq<char>>, t2: Option<i64>, f2: bool)
    requires
        command_text(CommandV::Logs { pod: p1, container: o1, tail: t1, follow: f1 }) == command_text(
            CommandV::Logs { pod: p2, container: o2, tail: t2, follow: f2 },
        ),
    ensures
        p1 == p2,
        o1 == o2,
        t1 == t2,
        f1 == f2,
{
    lemma_logs_text(p1, o1, t1, f1);
    lemma_logs_text(p2, o2, t2, f2);
    let rest1 = opt_field(o1) + (tail_text(t1) + follow_text(f1));
    let rest2 = opt_field(o2) + (tail_text(t2) + follow_text(f2));
    lemma_cancel_prefix("logs|"@, field(p1) + rest1, field(p2) + rest2);
    lemma_field_cancel(p1, rest1, p2, rest2);
    lemma_opt_field_cancel(o1, tail_text(t1) + follow_text(f1), o2, tail_text(t2) + follow_text(f2));
    lemma_tail_cancel(t1, f1, t2, f2);
}

/// Distinct commands have distinct canonical texts: the text a token's
/// keyed hash covers names exactly one command.
pub proof fn command_text_is_injective(c1: CommandV, c2: CommandV)
    requires
        command_text(c1) == command_text(c2),
    ensures
        c1 == c2,
{
    lemma_verb_signature(c1);
    lemma_verb_signature(c2);
    match (c1, c2) {
        (CommandV::Get { resource: r1, name: n1 }, CommandV::Get { resource: r2, name: n2 }) => {
            lemma_get_cancel(r1, n1, r2, n2);
        },
        (CommandV::Describe { resource: r1, name: n1 }, CommandV::Describe { resource: r2, name: n2 }) => {
            lemma_named_cancel("describe|"@, r1, n1, seq![], r2, n2, seq![]);
        },
        (CommandV::Delete { resource: r1, name: n1 }, CommandV::Delete { resource: r2, name: n2 }) => {
            lemma_named_cancel("delete|"@, r1, n1, seq![], r2, n2, seq![]);
        },
        (CommandV::RolloutRestart { resource: r1, name: n1 }, CommandV::RolloutRestart { resource: r2, name: n2 }) => {
            lemma_named_cancel("rollout-restart|"@, r1, n1, seq![], r2, n2, seq![]);
        },
        (CommandV::Scale { resource: r1, name: n1, replicas: k1 }, CommandV::Scale { resource: r2, name: n2, replicas: k2 }) => {
            lemma_named_cancel("scale|"@, r1, n1, int_decimal(k1 as int), r2, n2, int_decimal(k2 as int));
            lemma_int_decimal_injective(k1 as int, k2 as int);
        },
        (CommandV::Apply { paste_id: p1 }, CommandV::Apply { paste_id: p2 }) => {
            assert(command_text(c1) =~= "apply|"@ + (field(p1) + seq![]));
            assert(command_text(c2) =~= "apply|"@ + (field(p2) + seq![]));
            lemma_cancel_prefix("apply|"@, field(p1) + seq![], field(p2) + seq![]);
            lemma_field_cancel(p1, seq![], p2, seq![]);
        },
        (CommandV::Logs { pod: p1, container: o1, tail: t1, follow: f1 }, CommandV::Logs { pod: p2, container: o2, tail: t2, follow: f2 }) => {
            lemma_logs_cancel(p1, o1, t1, f1, p2, o2, t2, f2);
        },
        (CommandV::Help, CommandV::Help) => {},
        _ => {
            assert(verb_signature(c1) == verb_signature(c2));
        },
    }
}

/// On one cluster and namespace, the message a token's keyed hash covers
/// determines the command: two commands with the same message are the same.
pub proof fn fingerprint_message_names_one_command(cluster_id: u128, ns: Seq<char>, c1: CommandV, c2: CommandV)
    requires
        fingerprint_message(cluster_id, ns, c1) == fingerprint_message(cluster_id, ns, c2),
    ensures
        c1 == c2,
{
    let p = decimal(cluster_id as nat) + seq!['|'] + ns + seq!['|'];
    assert(fingerprint_message(cluster_id, ns, c1) =~= p + command_text(c1));
    assert(fingerprint_message(cluster_id, ns, c2) =~= p + command_text(c2));
    lemma_cancel_prefix(p, command_text(c1), command_text(c2));
    command_text_is_injective(c1, c2);
}

// ---------- applying pasted YAML ----------

/// Every document an apply lets through goes into the active namespace,
/// whatever namespace the YAML named.
pub proof fn applied_documents_forced_into_namespace(ds: Seq<YamlDocV>, ns: Seq<char>, i: int)
    requires
        0 <= i < apply_steps(ds, ns).len(),
    ensures
        apply_steps(ds, ns)[i] matches Ok(d) ==> d.namespace == ns,
    decreases ds.len(),
{
    if ds.len() > 0 {
        let init = apply_steps(ds.drop_last(), ns);
        if i < init.len() {
            applied_documents_forced_into_namespace(ds.drop_last(), ns, i);
        }
    }
}

/// The documents of a YAML stream that an apply acts on: the non-null ones,
/// in order.
pub open spec fn non_null_documents(ds: Seq<YamlDocV>) -> Seq<YamlDocV> {
    ds.filter(|d: YamlDocV| !(d is Null))
}

/// Each document made into its step of an apply in namespace `ns`.
pub open spec fn steps_for(ds: Seq<YamlDocV>, ns: Seq<char>) -> Seq<Result<crate::executor::ApplyDocV, ErrorV>> {
    ds.map_values(|d: YamlDocV| apply_step_of(d, ns))
}

/// The steps of an apply are exactly the non-null documents of the stream,
/// in their order, each made into its step.
pub proof fn apply_steps_follow_non_null_documents(ds: Seq<YamlDocV>, ns: Seq<char>)
    ensures
        apply_steps(ds, ns) == steps_for(non_null_documents(ds), ns),
    decreases ds.len(),
{
    reveal(Seq::filter);
    if ds.len() > 0 {
        apply_steps_follow_non_null_documents(ds.drop_last(), ns);
        let kept = non_null_documents(ds.drop_last());
        if !(ds.last() is Null) {
            assert(non_null_documents(ds) == kept.push(ds.last()));
            assert(steps_for(kept.push(ds.last()), ns) =~= steps_for(kept, ns).push(apply_step_of(ds.last(), ns)));
        } else {
            assert(non_null_documents(ds) == kept);
        }
    } else {
        assert(steps_for(non_null_documents(ds), ns) =~= seq![]);
    }
}

// ---------- kubeconfig import ----------

/// A kubeconfig user that names an `exec` or `auth-provider` plugin is
/// refused: importing it would run an outside program.
pub proof fn auth_plugins_rejected(entries: Seq<KcEntry>)
    requires
        entry_value(entries, "exec"@) is Some || entry_value(entries, "auth-provider"@) is Some,
    ensures
        user_auth(entries) matches Err(ErrorV::KubeconfigRejected(_)),
{
}

// ---------- the dashboard token search ----------

/// Each step of the dashboard token search is followed only by a later
/// one, so the search tries each step at most once and ends.
pub proof fn token_search_moves_forward(step: TokenStep, outcome: TokenOutcome)
    ensures
        decision_of(step, outcome) matches TokenDecisionV::Next(n) ==> step_rank(n) > step_rank(step),
{
}

/// Each step of provisioning the admin account is followed only by a later
/// one, so each object is looked up and created at most once.
pub proof fn provisioning_moves_forward(step: ProvisionStep, outcome: Result<bool, Seq<char>>)
    ensures
        provision_decision(step, outcome) matches ProvisionActionV::Next(n) ==> provision_rank(n)
            > provision_rank(step),
{
}

pub open spec fn provision_rank(s: ProvisionStep) -> nat {
    match s {
        ProvisionStep::LookupAccount => 0,
        ProvisionStep::CreateAccount => 1,
        ProvisionStep::LookupBinding => 2,
        ProvisionStep::CreateBinding => 3,
    }
}

// ---------- the registry of dashboard proxies ----------

/// After a session is inserted for a cluster (replacing any earlier one),
/// a check of that cluster while its proxy lives finds that session and
/// keeps it; once the proxy is dead the check drops that session only,
/// and the other clusters' sessions stay as they were.
pub proof fn inserted_session_is_found_while_alive(
    before: Map<u128, (Seq<char>, Seq<char>)>,
    id: u128,
    session: (Seq<char>, Seq<char>),
    other: u128,
)
    requires
        other != id,
    ensures
        before.insert(id, session).contains_key(id),
        before.insert(id, session)[id] == session,
        !before.insert(id, session).remove(id).contains_key(id),
        before.insert(id, session).remove(id).contains_key(other) == before.contains_key(other),
        before.contains_key(other) ==> before.insert(id, session).remove(id)[other] == before[other],
{
}

// ---------- the dashboard pod search ----------

/// The place of a listing in the search: namespaces in order, and within
/// a namespace the selectors in order.
pub open spec fn listing_rank(ns: int, sel: int) -> int {
    ns * 4 + sel
}

/// A listing that finds no running pod (or fails) is followed by the very
/// next listing in that order, and the search ends only after the last of
/// the twelve: every namespace is tried with every selector.
pub proof fn pod_search_tries_every_listing(ns: int, sel: int, listing: Option<Seq<PodCandidate>>)
    requires
        0 <= ns < 3,
        0 <= sel < 4,
        listing matches Some(pods) ==> crate::dashboard::target_of(pods) is None,
    ensures
        search_after(ns, sel, listing) == probe_after(ns, sel),
        probe_after(ns, sel) matches SearchStepV::Probe { ns: n2, sel: s2 } ==> 0 <= n2 < 3 && 0 <= s2 < 4
            && listing_rank(n2, s2) == listing_rank(ns, sel) + 1,
        probe_after(ns, sel) is NotFound <==> listing_rank(ns, sel) == 11,
{
}

// ---------- the master key ----------

/// Whatever the keychain and the key file hold, the key the lookup settles
/// on is an AES-256 key of 32 bytes.
pub proof fn looked_up_key_is_aes256(step: KeyStep, read: KeyRead)
    ensures
        key_decision(step, read) matches KeyActionV::Use { key, .. } ==> key.len() == 32,
{
}

/// The keychain is asked first, and only a found entry stops the lookup
/// there: a missing entry, or a keychain that cannot be read, sends it on
/// to the key file.
pub proof fn keychain_falls_back_to_key_file(read: KeyRead)
    ensures
        !(read is Found) ==> key_decision(KeyStep::Keychain, read) is ReadFile,
        key_decision(KeyStep::KeyFile, KeyRead::Missing) is Generate,
{
}

} // verus!
