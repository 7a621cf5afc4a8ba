//! One agent: a watch root wired to one destination bucket, with the
//! decisions its pipeline makes for a changed file.
//!
//! An agent never performs the transfer or the deletion itself. It derives
//! the destination key (or the reason the event is skipped), hands the shell
//! a fully-resolved upload request, and — once the shell reports how the
//! transfer went — decides what follows: keep the local file, remove it, or
//! report an error.

use vstd::prelude::*;

use crate::errors::SyncError;
use crate::path_model::{AbsPath, CompView, all_text, comp_eq, is_under, join_from, rel_key};
use crate::pattern::{PatternMatcher, regex_match};
use crate::settings::PathSettings;

verus! {

/// The root an agent watches, with the settings it asks of that watch.
#[derive(Debug)]
pub struct AgentWatcher {
    pub local_path: AbsPath,
    pub settings: PathSettings,
}

impl AgentWatcher {
    pub fn local_path(&self) -> (r: &AbsPath)
        ensures
            r@ == self.local_path@,
    {
        &self.local_path
    }
}

impl Clone for AgentWatcher {
    fn clone(&self) -> (r: Self)
        ensures
            r.local_path@ == self.local_path@,
            r.settings == self.settings,
    {
        AgentWatcher { local_path: self.local_path.clone(), settings: self.settings }
    }
}

/// One configured sync pipeline: a watch root, a destination bucket, and the
/// optional filter, key prefix, credential profile, region override and
/// delete-after-upload flag. Immutable after construction.
#[derive(Debug)]
pub struct Agent {
    pub watcher: AgentWatcher,
    pub pattern: Option<PatternMatcher>,
    pub bucket_name: String,
    pub key_prefix: Option<String>,
    pub profile_name: Option<String>,
    pub region_name: Option<String>,
    pub delete: Option<bool>,
}

/// A fully-resolved single-shot transfer: which local bytes go where. The
/// shell performs it and reports an `UploadOutcome` back.
#[derive(Debug)]
pub struct UploadRequest {
    pub bucket: String,
    pub key: String,
    pub profile: String,
    pub region: Option<String>,
}

/// What an agent decides to do with one changed file: skip it for the given
/// reason, or upload it under the derived key.
#[derive(Debug)]
pub enum Plan {
    Skip(SyncError),
    Upload(UploadRequest),
}

/// How the shell's single upload attempt went.
#[derive(Debug)]
pub enum UploadOutcome {
    /// The object store confirmed the transfer.
    Delivered,
    /// The local file could not be opened — commonly it was already gone.
    FileUnavailable,
    /// The store or the transport refused; carries the remote detail.
    Rejected(String),
}

/// What follows one upload attempt: keep the local file, remove it, or
/// report the failure.
#[derive(Debug)]
pub enum PostAction {
    KeepLocal,
    RemoveLocal,
    Report(SyncError),
}

/// The ghost value of an optional string.
pub open spec fn opt_view(o: Option<String>) -> Option<Seq<char>> {
    match o {
        Some(s) => Some(s@),
        None => None,
    }
}

/// The ghost value of a key-derivation result.
pub open spec fn key_result_view(r: Result<String, SyncError>) -> Result<Seq<char>, SyncError> {
    match r {
        Ok(s) => Ok(s@),
        Err(e) => Err(e),
    }
}

impl Agent {
    /// The components of this agent's watch root.
    pub open spec fn root(self) -> Seq<CompView> {
        self.watcher.local_path@
    }

    /// Does this agent's filter accept the relative key? An agent with no
    /// configured pattern accepts every key.
    pub open spec fn accepts_key(self, key: Seq<char>) -> bool {
        match self.pattern {
            Some(m) => regex_match(m.pattern(), key),
            None => true,
        }
    }

    /// The key prefix, empty when none is configured. It is prepended by
    /// plain concatenation: any delimiter is the prefix's own business.
    pub open spec fn prefix_spec(self) -> Seq<char> {
        match self.key_prefix {
            Some(p) => p@,
            None => Seq::empty(),
        }
    }

    /// The credential profile, `"default"` when none is configured.
    pub open spec fn profile_spec(self) -> Seq<char> {
        match self.profile_name {
            Some(p) => p@,
            None => "default"@,
        }
    }

    /// Whether the local copy is removed after a confirmed upload.
    pub open spec fn deletes_after_upload(self) -> bool {
        match self.delete {
            Some(b) => b,
            None => false,
        }
    }

    /// The destination key for an event path, or the reason this agent skips
    /// the event: the path must lie under the agent's root, the remainder
    /// must be representable as text, and the relative key must pass the
    /// filter; the configured prefix is then prepended.
    pub open spec fn object_key_spec(self, path: Seq<CompView>) -> Result<Seq<char>, SyncError> {
        if !is_under(path, self.root()) {
            Err(SyncError::PathOutsideRoot)
        } else {
            let rest = path.subrange(self.root().len() as int, path.len() as int);
            if !all_text(rest) {
                Err(SyncError::NonTextPath)
            } else if !self.accepts_key(rel_key(rest)) {
                Err(SyncError::PatternMismatch)
            } else {
                Ok(self.prefix_spec() + rel_key(rest))
            }
        }
    }

    /// Derives the destination key for `path`.
    pub fn object_key(&self, path: &AbsPath) -> (r: Result<String, SyncError>)
        ensures
            key_result_view(r) == self.object_key_spec(path@),
    {
        let root = &self.watcher.local_path;
        let root_len = root.comps.len();
        if root_len > path.comps.len() {
            return Err(SyncError::PathOutsideRoot);
        }
        let mut i: usize = 0;
        while i < root_len
            invariant
                i <= root_len,
                root_len == root.comps@.len(),
                root_len <= path.comps@.len(),
                root@ == self.root(),
                forall|j: int| 0 <= j < i ==> path@[j] == self.root()[j],
            decreases root_len - i,
        {
            if !comp_eq(&path.comps[i], &root.comps[i]) {
                proof {
                    assert(path@[i as int] != self.root()[i as int]);
                    assert(!is_under(path@, self.root())) by {
                        if is_under(path@, self.root()) {
                            assert(path@.subrange(0, self.root().len() as int)[i as int]
                                == path@[i as int]);
                        }
                    }
                }
                return Err(SyncError::PathOutsideRoot);
            }
            i += 1;
        }
        proof {
            assert(path@.subrange(0, self.root().len() as int) =~= self.root());
            assert(is_under(path@, self.root()));
        }
        let ghost rest = path@.subrange(self.root().len() as int, path@.len() as int);
        let joined = match join_from(path, root_len) {
            Some(key) => key,
            None => {
                return Err(SyncError::NonTextPath);
            },
        };
        let matched = match &self.pattern {
            Some(m) => m.is_match(joined.as_str()),
            None => true,
        };
        if !matched {
            return Err(SyncError::PatternMismatch);
        }
        match &self.key_prefix {
            Some(p) => {
                let mut out = p.clone();
                out.append(joined.as_str());
                Ok(out)
            },
            None => Ok(joined),
        }
    }

    /// What one `Plan` must say for this agent and path: skipped plans carry
    /// exactly the derivation error, and upload plans carry the derived key,
    /// the agent's bucket, its effective profile and its region override.
    pub open spec fn plan_matches(self, path: Seq<CompView>, plan: Plan) -> bool {
        match plan {
            Plan::Skip(e) => self.object_key_spec(path) == Err::<Seq<char>, SyncError>(e),
            Plan::Upload(req) => {
                &&& self.object_key_spec(path) matches Ok(k) && req.key@ == k
                &&& req.bucket@ == self.bucket_name@
                &&& req.profile@ == self.profile_spec()
                &&& opt_view(req.region) == opt_view(self.region_name)
            },
        }
    }

    /// Decides what to do with one changed file: skip it, or upload it under
    /// the derived key with this agent's destination and credentials.
    pub fn plan_for(&self, path: &AbsPath) -> (r: Plan)
        ensures
            self.plan_matches(path@, r),
    {
        match self.object_key(path) {
            Err(e) => Plan::Skip(e),
            Ok(key) => {
                let profile = match &self.profile_name {
                    Some(p) => p.clone(),
                    None => String::from_str("default"),
                };
                let region = match &self.region_name {
                    Some(r) => Some(r.clone()),
                    None => None,
                };
                Plan::Upload(
                    UploadRequest { bucket: self.bucket_name.clone(), key, profile, region },
                )
            },
        }
    }

    /// What follows one upload attempt: a confirmed transfer keeps the local
    /// file unless this agent removes it, and every failure is reported.
    pub open spec fn post_action_spec(self, outcome: UploadOutcome) -> PostAction {
        match outcome {
            UploadOutcome::Delivered => if self.deletes_after_upload() {
                PostAction::RemoveLocal
            } else {
                PostAction::KeepLocal
            },
            UploadOutcome::FileUnavailable => PostAction::Report(SyncError::FileUnavailable),
            UploadOutcome::Rejected(msg) => PostAction::Report(SyncError::UploadRejected(msg)),
        }
    }

    /// Decides what follows the shell's upload attempt. The local copy is
    /// removed only after a confirmed transfer, and only when this agent
    /// asks for that.
    pub fn post_upload_action(&self, outcome: UploadOutcome) -> (r: PostAction)
        ensures
            r == self.post_action_spec(outcome),
    {
        match outcome {
            UploadOutcome::Delivered => {
                let wants_delete = match self.delete {
                    Some(b) => b,
                    None => false,
                };
                if wants_delete {
                    PostAction::RemoveLocal
                } else {
                    PostAction::KeepLocal
                }
            },
            UploadOutcome::FileUnavailable => PostAction::Report(SyncError::FileUnavailable),
            UploadOutcome::Rejected(msg) => PostAction::Report(SyncError::UploadRejected(msg)),
        }
    }
}

} // verus!
