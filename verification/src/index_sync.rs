//! The package-index mirror's decisions and its configuration rewrite.
//!
//! The application clones or fast-forwards the index repository with its
//! git library; the library decides which of the two applies and produces
//! the `config.json` document and commit message of the rewrite that
//! redirects clients to the mirror.
use vstd::prelude::*;

use crate::errors::IndexSyncError;
use crate::strutil::push_char;

verus! {

/// How the index repository is brought up to date.
pub enum IndexSyncAction {
    /// No repository yet: clone the upstream from scratch.
    CloneFresh,
    /// A repository exists: fetch and force the local default branch onto
    /// the upstream tip, discarding local divergence — in particular the
    /// previous sync's rewrite commit.
    FastForward,
}

/// Decides how to synchronize the index repository: an existing `.git`
/// directory is fast-forwarded, anything else is cloned fresh.
pub fn sync_crates_repo(git_dir_exists: bool) -> (r: IndexSyncAction)
    ensures
        git_dir_exists <==> r is FastForward,
{
    if git_dir_exists {
        IndexSyncAction::FastForward
    } else {
        IndexSyncAction::CloneFresh
    }
}

/// Whether the text can stand inside a JSON string with only quote and
/// backslash escapes: no control characters.
pub open spec fn json_escapable(s: Seq<char>) -> bool {
    forall|k: int| 0 <= k < s.len() ==> (#[trigger] s[k]) as u32 >= 32
}

/// The text with JSON quote and backslash escapes applied.
pub open spec fn json_escaped(s: Seq<char>) -> Seq<char>
    decreases s.len(),
{
    if s.len() == 0 {
        Seq::<char>::empty()
    } else {
        json_escaped(s.drop_last()) + (if s.last() == '"' {
            seq!['\\', '"']
        } else if s.last() == '\\' {
            seq!['\\', '\\']
        } else {
            seq![s.last()]
        })
    }
}

/// The pretty-printed index configuration document: the download and API
/// endpoints both set to the mirror's base URL.
pub open spec fn config_json_of(base: Seq<char>) -> Seq<char> {
    "{\n  \"dl\": \""@ + json_escaped(base) + "\",\n  \"api\": \""@ + json_escaped(base)
        + "\"\n}"@
}

/// Escapes a string for use inside a JSON string literal.
fn json_escape(s: &String) -> (r: Option<String>)
    ensures
        r is Some <==> json_escapable(s@),
        r is Some ==> r->0@ == json_escaped(s@),
{
    let n: usize = s.as_str().unicode_len();
    let mut out = String::new();
    let mut i: usize = 0;
    while i < n
        invariant
            i <= n,
            n == s@.len(),
            out@ =~= json_escaped(s@.take(i as int)),
            forall|k: int| 0 <= k < i ==> (#[trigger] s@[k]) as u32 >= 32,
        decreases n - i,
    {
        let c = s.as_str().get_char(i);
        if (c as u32) < 32 {
            return None;
        }
        proof {
            assert(s@.take(i + 1).drop_last() =~= s@.take(i as int));
            assert(s@.take(i + 1).last() == s@[i as int]);
        }
        if c == '"' {
            push_char(&mut out, '\\');
            push_char(&mut out, '"');
        } else if c == '\\' {
            push_char(&mut out, '\\');
            push_char(&mut out, '\\');
        } else {
            push_char(&mut out, c);
        }
        i = i + 1;
    }
    proof {
        assert(s@.take(n as int) =~= s@);
    }
    Some(out)
}

/// The rewrite that redirects index clients to the mirror: the new
/// `config.json` content and the message of the commit that carries it.
/// The commit is created on top of the freshly fast-forwarded upstream
/// tip, so each sync leaves exactly one such commit above upstream.
pub struct ConfigRewrite {
    /// The full `config.json` document.
    pub contents: String,
    /// The commit message.
    pub message: String,
}

/// Builds the rewrite of one sync: the `config.json` document with both
/// endpoints set to the base URL, and the fixed commit message. Rejected
/// only when the URL cannot stand in a JSON string.
pub fn rewrite_config_json(base_url: &String) -> (r: Result<ConfigRewrite, IndexSyncError>)
    ensures
        r is Ok <==> json_escapable(base_url@),
        r is Ok ==> r->Ok_0.contents@ == config_json_of(base_url@) && r->Ok_0.message@
            == "Rewrite config.json"@,
        r is Err ==> r->Err_0 is Serialize,
{
    match json_escape(base_url) {
        Some(esc) => {
            let contents = String::from_str("{\n  \"dl\": \"").concat(esc.as_str()).concat(
                "\",\n  \"api\": \"",
            ).concat(esc.as_str()).concat("\"\n}");
            Ok(ConfigRewrite { contents, message: String::from_str("Rewrite config.json") })
        },
        None => Err(
            IndexSyncError::Serialize(String::from_str("base URL cannot stand in a JSON string")),
        ),
    }
}

/// Plans the index configuration rewrite: nothing to do without a
/// configured base URL, the rewrite document otherwise.
pub fn update_crates_config(base_url: &Option<String>) -> (r: Result<
    Option<ConfigRewrite>,
    IndexSyncError,
>)
    ensures
        base_url is None <==> (r is Ok && r->Ok_0 is None),
        (base_url matches Some(u) && json_escapable(u@)) <==> (r is Ok && r->Ok_0 is Some),
        (r is Ok && r->Ok_0 is Some) ==> r->Ok_0->0.contents@ == config_json_of(base_url->0@)
            && r->Ok_0->0.message@ == "Rewrite config.json"@,
        r is Err ==> r->Err_0 is Serialize,
{
    match base_url {
        Some(u) => match rewrite_config_json(u) {
            Ok(rewrite) => Ok(Some(rewrite)),
            Err(e) => Err(e),
        },
        None => Ok(None),
    }
}

} // verus!
