use vstd::prelude::*;
use crate::text::{owned, same_text};
use crate::krate::{KrateName, token_text};

verus! {

/// One version of a package that the registry offers.
#[derive(Clone, Debug)]
pub struct Candidate {
    /// The version as the registry writes it.
    pub version: String,
    pub major: u64,
    pub minor: u64,
    pub patch: u64,
    /// Whether the version carries a pre-release tag.
    pub pre_release: bool,
}

/// Why a package could not be made ready to build.
#[derive(Debug)]
pub enum ResolveError {
    /// No version of the registry fits the request.
    NotInRegistry(KrateName),
    /// The chosen version could not be downloaded; the cause as text.
    FailedToDownload(KrateName, String),
}

/// `a` is no later a version than `b`.
pub open spec fn version_le(a: Candidate, b: Candidate) -> bool {
    a.major < b.major || (a.major == b.major && (a.minor < b.minor || (a.minor == b.minor
        && a.patch <= b.patch)))
}

/// A candidate that the request admits: the exact version asked for, or, with
/// none asked for, any release that is not a pre-release.
pub open spec fn admits(requested: Option<Seq<char>>, c: Candidate) -> bool {
    match requested {
        Some(v) => c.version@ == v,
        None => !c.pre_release,
    }
}

/// `i` is the first admitted candidate of the latest admitted version.
pub open spec fn is_choice(cands: Seq<Candidate>, requested: Option<Seq<char>>, i: int) -> bool {
    &&& 0 <= i < cands.len()
    &&& admits(requested, cands[i])
    &&& forall|j: int| 0 <= j < cands.len() && admits(requested, cands[j]) ==> version_le(cands[j], cands[i])
    &&& forall|j: int| 0 <= j < i && admits(requested, cands[j]) ==> !version_le(cands[i], cands[j])
}

/// Picks the version to build among what the registry offers.
pub fn select_candidate(cands: &Vec<Candidate>, requested: &Option<String>) -> (r: Option<usize>)
    ensures
        match r {
            Some(i) => is_choice(cands@, crate::krate::opt_view(*requested), i as int),
            None => forall|j: int|
                0 <= j < cands.len() ==> !admits(crate::krate::opt_view(*requested), #[trigger] cands@[j]),
        },
{
    let ghost req = crate::krate::opt_view(*requested);
    let mut best: Option<usize> = None;
    let mut i: usize = 0;
    while i < cands.len()
        invariant
            0 <= i <= cands.len(),
            req == crate::krate::opt_view(*requested),
            match best {
                Some(b) => b < i && admits(req, cands@[b as int]) && (forall|j: int|
                    0 <= j < i && admits(req, cands@[j]) ==> version_le(cands@[j], cands@[b as int]))
                    && (forall|j: int|
                    0 <= j < b && admits(req, cands@[j]) ==> !version_le(cands@[b as int], cands@[j])),
                None => forall|j: int| 0 <= j < i ==> !admits(req, #[trigger] cands@[j]),
            },
        decreases cands.len() - i,
    {
        let c = &cands[i];
        let ok = match requested {
            Some(v) => same_text(c.version.as_str(), v.as_str()),
            None => !c.pre_release,
        };
        if ok {
            match best {
                None => {
                    best = Some(i);
                },
                Some(b) => {
                    let d = &cands[b];
                    let later = c.major > d.major || (c.major == d.major && (c.minor > d.minor || (
                    c.minor == d.minor && c.patch > d.patch)));
                    if later {
                        best = Some(i);
                    }
                },
            }
        }
        i = i + 1;
    }
    best
}

impl KrateName {
    /// A copy of this specifier.
    pub fn duplicate(&self) -> (r: KrateName)
        ensures
            r@ == self@,
    {
        let version = match &self.version {
            Some(v) => Some(owned(v.as_str())),
            None => None,
        };
        KrateName { name: owned(self.name.as_str()), version }
    }
}

/// The specifier of the package whose resolution failed.
pub open spec fn error_spec(e: ResolveError) -> (Seq<char>, Option<Seq<char>>) {
    match e {
        ResolveError::NotInRegistry(k) => k@,
        ResolveError::FailedToDownload(k, _) => k@,
    }
}

/// The index of the version to download, or the error that no version fits.
pub fn choose_version(k: &KrateName, cands: &Vec<Candidate>) -> (r: Result<usize, ResolveError>)
    ensures
        match r {
            Ok(i) => is_choice(cands@, k@.1, i as int),
            Err(e) => e is NotInRegistry && error_spec(e) == k@ && forall|j: int|
                0 <= j < cands.len() ==> !admits(k@.1, #[trigger] cands@[j]),
        },
{
    match select_candidate(cands, &k.version) {
        Some(i) => Ok(i),
        None => Err(ResolveError::NotInRegistry(k.duplicate())),
    }
}

pub open spec fn message_text(e: ResolveError) -> Seq<char> {
    match e {
        ResolveError::NotInRegistry(k) => "crate `"@ + token_text(k@) + "` not in registry"@,
        ResolveError::FailedToDownload(k, c) => "crate `"@ + token_text(k@) + "` failed to download: "@
            + c@,
    }
}

impl ResolveError {
    /// The error as one line of text.
    pub fn message(&self) -> (r: String)
        ensures
            r@ == message_text(*self),
    {
        proof {
            reveal_strlit("crate `");
            reveal_strlit("` not in registry");
            reveal_strlit("` failed to download: ");
        }
        let mut r = owned("crate `");
        match self {
            ResolveError::NotInRegistry(k) => {
                let t = k.to_string();
                r.append(t.as_str());
                r.append("` not in registry");
            },
            ResolveError::FailedToDownload(k, c) => {
                let t = k.to_string();
                r.append(t.as_str());
                r.append("` failed to download: ");
                r.append(c.as_str());
            },
        }
        r
    }

    /// A short name for the kind of error.
    pub fn description(&self) -> (r: &'static str)
        ensures
            r@ == (match *self {
                ResolveError::NotInRegistry(_) => "not in registry"@,
                ResolveError::FailedToDownload(_, _) => "failed to download"@,
            }),
    {
        match self {
            ResolveError::NotInRegistry(_) => "not in registry",
            ResolveError::FailedToDownload(_, _) => "failed to download",
        }
    }

    /// The underlying error, when there is one.
    pub fn cause(&self) -> (r: Option<&String>)
        ensures
            match *self {
                ResolveError::NotInRegistry(_) => r is None,
                ResolveError::FailedToDownload(_, c) => r == Some(&c),
            },
    {
        match self {
            ResolveError::NotInRegistry(_) => None,
            ResolveError::FailedToDownload(_, c) => Some(c),
        }
    }
}

} // verus!
