//! Check identifiers, as they appear in `Issue::check`.
use vstd::prelude::*;

verus! {

pub const RESOLUTION_PARSE_FAILED: &'static str = "resolution/parse-failed";

pub const RESOLUTION_MISSING_LOCKFILE_ENTRY: &'static str = "resolution/missing-lockfile-entry";

pub const RESOLUTION_LOCKFILE_OUT_OF_SYNC: &'static str = "resolution/lockfile-out-of-sync";

pub const RESOLUTION_AMBIGUOUS: &'static str = "resolution/ambiguous";

pub const RESOLUTION_NO_TRUSTED_LOCKFILE_SYNC: &'static str = "resolution/no-trusted-lockfile-sync";

pub const RESOLUTION_NO_TRUSTED_LOCKFILE: &'static str = "resolution/no-trusted-lockfile";

pub const RESOLUTION_NO_TRUSTED_TRANSITIVE_COVERAGE: &'static str =
    "resolution/no-trusted-transitive-coverage";

pub const RESOLUTION_NO_EXACT_VERSION: &'static str = "resolution/no-exact-version";

pub const RESOLUTION_NPM_ALIAS: &'static str = "resolution/npm-alias";

pub const RESOLUTION_PYTHON_LEGACY_MANIFEST: &'static str = "resolution/python-legacy-manifest";

pub const RESOLUTION_LOCAL_DEPENDENCY_SOURCE: &'static str = "resolution/local-dependency-source";

pub const RESOLUTION_UNTRUSTED_REGISTRY_SOURCE: &'static str =
    "resolution/untrusted-registry-source";

pub const RESOLUTION_UNTRUSTED_GIT_SOURCE: &'static str = "resolution/untrusted-git-source";

pub const RESOLUTION_BLOCKED_PROVENANCE_REWRITE: &'static str =
    "resolution/blocked-provenance-rewrite";

pub const RESOLUTION_REDUCED_CONFIDENCE_GIT: &'static str = "resolution/reduced-confidence-git";

pub const CONFIG_LOCAL_OVERLAY_RELAXATION: &'static str = "config/local-overlay-relaxation";

} // verus!
