//! The application's error type, its messages, and the redaction of
//! token-like words in messages that come from the cluster client.

use vstd::prelude::*;
use crate::text::{append, chars_of, concat, is_ascii_alnum, push_char, split_words, string_of, views, words};

verus! {

/// Public-facing application error. Never embeds secret material.
#[derive(Debug, Clone)]
pub enum AppError {
    Storage(String),
    Crypto,
    Keyring(String),
    NotFound,
    BadInput(String),
    KubeconfigRejected(String),
    Kube(String),
    ConfirmationRequired,
    BadConfirmation,
    Forbidden(String),
    Parse(String),
}

/// An `AppError` with its texts as character sequences.
pub enum ErrorV {
    Storage(Seq<char>),
    Crypto,
    Keyring(Seq<char>),
    NotFound,
    BadInput(Seq<char>),
    KubeconfigRejected(Seq<char>),
    Kube(Seq<char>),
    ConfirmationRequired,
    BadConfirmation,
    Forbidden(Seq<char>),
    Parse(Seq<char>),
}

impl View for AppError {
    type V = ErrorV;

    open spec fn view(&self) -> ErrorV {
        match self {
            AppError::Storage(s) => ErrorV::Storage(s@),
            AppError::Crypto => ErrorV::Crypto,
            AppError::Keyring(s) => ErrorV::Keyring(s@),
            AppError::NotFound => ErrorV::NotFound,
            AppError::BadInput(s) => ErrorV::BadInput(s@),
            AppError::KubeconfigRejected(s) => ErrorV::KubeconfigRejected(s@),
            AppError::Kube(s) => ErrorV::Kube(s@),
            AppError::ConfirmationRequired => ErrorV::ConfirmationRequired,
            AppError::BadConfirmation => ErrorV::BadConfirmation,
            AppError::Forbidden(s) => ErrorV::Forbidden(s@),
            AppError::Parse(s) => ErrorV::Parse(s@),
        }
    }
}

/// The text shown for an error.
pub open spec fn message_of(e: ErrorV) -> Seq<char> {
    match e {
        ErrorV::Storage(s) => "storage error: "@ + s,
        ErrorV::Crypto => "crypto error"@,
        ErrorV::Keyring(s) => "keyring error: "@ + s,
        ErrorV::NotFound => "cluster not found"@,
        ErrorV::BadInput(s) => "invalid input: "@ + s,
        ErrorV::KubeconfigRejected(s) => "kubeconfig import rejected: "@ + s,
        ErrorV::Kube(s) => "kubernetes error: "@ + s,
        ErrorV::ConfirmationRequired => "confirmation required"@,
        ErrorV::BadConfirmation => "invalid or expired confirmation token"@,
        ErrorV::Forbidden(s) => "forbidden command: "@ + s,
        ErrorV::Parse(s) => "parse error: "@ + s,
    }
}

/// A character a token-like word is made of.
pub open spec fn is_token_char(c: char) -> bool {
    is_ascii_alnum(c) || c == '.' || c == '-' || c == '_'
}

/// A word that looks like a credential: more than 24 characters, all of
/// them ASCII letters, digits, `.`, `-` or `_`.
pub open spec fn looks_like_token(w: Seq<char>) -> bool {
    w.len() > 24 && forall|i: int| 0 <= i < w.len() ==> is_token_char(#[trigger] w[i])
}

pub open spec fn scrub_word(w: Seq<char>) -> Seq<char> {
    if looks_like_token(w) {
        "[redacted]"@
    } else {
        w
    }
}

/// Words joined by single spaces.
pub open spec fn join_spaced(ws: Seq<Seq<char>>) -> Seq<char>
    decreases ws.len(),
{
    if ws.len() == 0 {
        seq![]
    } else if ws.len() == 1 {
        ws[0]
    } else {
        join_spaced(ws.drop_last()) + seq![' '] + ws.last()
    }
}

/// A message with each token-like word replaced by `[redacted]`, the
/// words joined by single spaces.
pub open spec fn scrubbed(s: Seq<char>) -> Seq<char> {
    join_spaced(words(s).map_values(|w: Seq<char>| scrub_word(w)))
}

fn token_like(w: &[char]) -> (r: bool)
    ensures
        r == looks_like_token(w@),
{
    if w.len() <= 24 {
        return false;
    }
    let mut i: usize = 0;
    while i < w.len()
        invariant
            i <= w@.len(),
            forall|j: int| 0 <= j < i ==> is_token_char(#[trigger] w@[j]),
        decreases w@.len() - i,
    {
        let c = w[i];
        let ok = ('0' <= c && c <= '9') || ('a' <= c && c <= 'z') || ('A' <= c && c <= 'Z') || c
            == '.' || c == '-' || c == '_';
        if !ok {
            return false;
        }
        i = i + 1;
    }
    true
}

/// Best-effort redaction of anything that looks like a bearer token.
pub fn scrub(s: &str) -> (r: String)
    ensures
        r@ == scrubbed(s@),
{
    let chars = chars_of(s);
    let ws = split_words(chars.as_slice());
    let ghost scrubbed_words = words(s@).map_values(|w: Seq<char>| scrub_word(w));
    let mut out = String::new();
    let mut i: usize = 0;
    while i < ws.len()
        invariant
            views(ws@) == words(s@),
            scrubbed_words == words(s@).map_values(|w: Seq<char>| scrub_word(w)),
            i <= ws@.len(),
            out@ == join_spaced(scrubbed_words.take(i as int)),
        decreases ws@.len() - i,
    {
        assert(ws@[i as int]@ == words(s@)[i as int]);
        let ghost before = out@;
        if i > 0 {
            push_char(&mut out, ' ');
        }
        if token_like(ws[i].as_slice()) {
            append(&mut out, "[redacted]");
        } else {
            let w = string_of(ws[i].as_slice());
            append(&mut out, w.as_str());
        }
        let ghost t = scrubbed_words.take(i + 1);
        assert(t.drop_last() =~= scrubbed_words.take(i as int));
        assert(t.last() == scrub_word(words(s@)[i as int]));
        if i > 0 {
            assert(out@ =~= before + seq![' '] + t.last());
        } else {
            assert(out@ =~= t.last());
            assert(t =~= seq![t.last()]);
        }
        i = i + 1;
    }
    assert(scrubbed_words.take(ws@.len() as int) =~= scrubbed_words);
    out
}

impl AppError {
    /// The text shown for the error (its `Display`).
    pub fn message(&self) -> (r: String)
        ensures
            r@ == message_of(self@),
    {
        match self {
            AppError::Storage(s) => concat("storage error: ", s.as_str()),
            AppError::Crypto => String::from_str("crypto error"),
            AppError::Keyring(s) => concat("keyring error: ", s.as_str()),
            AppError::NotFound => String::from_str("cluster not found"),
            AppError::BadInput(s) => concat("invalid input: ", s.as_str()),
            AppError::KubeconfigRejected(s) => concat("kubeconfig import rejected: ", s.as_str()),
            AppError::Kube(s) => concat("kubernetes error: ", s.as_str()),
            AppError::ConfirmationRequired => String::from_str("confirmation required"),
            AppError::BadConfirmation => String::from_str("invalid or expired confirmation token"),
            AppError::Forbidden(s) => concat("forbidden command: ", s.as_str()),
            AppError::Parse(s) => concat("parse error: ", s.as_str()),
        }
    }

    /// The error for a failure reported by the cluster client, its
    /// message scrubbed of token-like words.
    pub fn from_kube_message(text: &str) -> (r: AppError)
        ensures
            r@ == ErrorV::Kube(scrubbed(text@)),
    {
        AppError::Kube(scrub(text))
    }

    /// The error for a JSON encoding or decoding failure.
    pub fn from_json_message(text: &str) -> (r: AppError)
        ensures
            r@ == ErrorV::Storage("json: "@ + text@),
    {
        AppError::Storage(concat("json: ", text))
    }

    /// The error for a pasted kubeconfig that is not valid YAML of the
    /// expected shape.
    pub fn from_kubeconfig_yaml_message(text: &str) -> (r: AppError)
        ensures
            r@ == ErrorV::KubeconfigRejected("invalid yaml: "@ + text@),
    {
        AppError::KubeconfigRejected(concat("invalid yaml: ", text))
    }

    /// A failure around the cluster connection: what was being done, and
    /// what went wrong.
    pub fn kube_failure(what: &str, detail: &str) -> (r: AppError)
        ensures
            r@ == ErrorV::Kube(what@ + ": "@ + detail@),
    {
        let mut s = concat(what, ": ");
        append(&mut s, detail);
        AppError::Kube(s)
    }

    /// The error for a YAML decoding failure of a kubeconfig.
    pub fn from_yaml_message(text: &str) -> (r: AppError)
        ensures
            r@ == ErrorV::KubeconfigRejected("yaml: "@ + text@),
    {
        AppError::KubeconfigRejected(concat("yaml: ", text))
    }
}

/// A parse error with the given message.
pub fn parse_error(msg: &str) -> (r: AppError)
    ensures
        r@ == ErrorV::Parse(msg@),
{
    AppError::Parse(String::from_str(msg))
}

/// A bad-input error with the given message.
pub fn bad_input(msg: &str) -> (r: AppError)
    ensures
        r@ == ErrorV::BadInput(msg@),
{
    AppError::BadInput(String::from_str(msg))
}

/// A rejected-kubeconfig error with the given message.
pub fn rejected(msg: &str) -> (r: AppError)
    ensures
        r@ == ErrorV::KubeconfigRejected(msg@),
{
    AppError::KubeconfigRejected(String::from_str(msg))
}

/// `pre` + `mid` + `post`, as a string.
pub fn quoted(pre: &str, mid: &[char], post: &str) -> (r: String)
    ensures
        r@ == pre@ + mid@ + post@,
{
    let m = string_of(mid);
    let mut r = concat(pre, m.as_str());
    append(&mut r, post);
    r
}

} // verus!
