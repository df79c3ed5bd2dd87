//! A search: what to look for and where, and the run over the files that
//! the glob resolved to.

use crate::error::GrepError;
use crate::matcher::{compile_regex, compiled};
use crate::lines::lines_of;
use crate::scan::{default_strategy, is_scan_output};
use regex::Regex;
use vstd::prelude::*;

verus! {

/// What to look for, and where.
#[derive(Debug)]
pub struct GrepConfig {
    /// The regular expression to find.
    pub pattern: String,
    /// The glob that names the files.
    pub glob: String,
}

/// A file that the glob resolved to and that could be read: its path and
/// its content.
#[derive(Debug)]
pub struct Target {
    pub path: String,
    pub content: Vec<u8>,
}

/// Whether `outcomes` are what `strategy` made of the listed files with the
/// expression `re`: one outcome for each file that could be opened, at the
/// file's place in the listing, and none for the other entries.
pub open spec fn are_outcomes<F>(
    outcomes: Seq<Option<Result<String, GrepError>>>,
    strategy: F,
    targets: Seq<Option<Target>>,
    re: Regex,
) -> bool where F: Fn(&Target, &Regex) -> Result<String, GrepError> {
    outcomes.len() == targets.len() && forall|k: int|
        0 <= k < targets.len() ==> match (#[trigger] outcomes[k], targets[k]) {
            (None, None) => true,
            (Some(outcome), Some(target)) => call_ensures(strategy, (&target, &re), outcome),
            _ => false,
        }
}

/// Whether `outcomes` are the blocks of the targets under the sequential
/// scan: for each target that could be opened, what a scan of its lines
/// writes, and never an error.
pub open spec fn are_scan_outcomes(
    outcomes: Seq<Option<Result<String, GrepError>>>,
    targets: Seq<Option<Target>>,
    re: Regex,
) -> bool {
    outcomes.len() == targets.len() && forall|k: int|
        0 <= k < targets.len() ==> match (#[trigger] outcomes[k], targets[k]) {
            (None, None) => true,
            (Some(Ok(out)), Some(target)) => is_scan_output(
                out@,
                target.path@,
                re,
                lines_of(target.content@),
            ),
            _ => false,
        }
}

/// The sequential scan of one target: the path and, below it, the matching
/// lines, or nothing where no line matches.
pub fn scan_target(target: &Target, pattern: &Regex) -> (r: Result<String, GrepError>)
    ensures
        r matches Ok(out) && is_scan_output(
            out@,
            target.path@,
            *pattern,
            lines_of(target.content@),
        ),
{
    default_strategy(target.path.as_str(), target.content.as_slice(), pattern)
}

impl GrepConfig {
    /// A search for `pattern` in the files that `glob` names.
    pub fn new(pattern: String, glob: String) -> (config: Self)
        ensures
            config.pattern == pattern,
            config.glob == glob,
    {
        GrepConfig { pattern, glob }
    }

    /// Compiles the pattern, once for the whole run. A pattern that does
    /// not compile gives the pattern error.
    pub fn compile(&self) -> (r: Result<Regex, GrepError>)
        ensures
            match compiled(self.pattern@) {
                Ok(re) => r == Ok::<Regex, GrepError>(re),
                Err(cause) => r == Err::<Regex, GrepError>(GrepError::GegexPatternError(cause)),
            },
    {
        match compile_regex(self.pattern.as_str()) {
            Ok(re) => Ok(re),
            Err(cause) => Err(GrepError::GegexPatternError(cause)),
        }
    }

    /// Runs the search with the sequential scan over `listing`, which is
    /// what the glob resolved to.
    pub fn match_with_default_strategy(
        &self,
        listing: Result<Vec<Option<Target>>, glob::PatternError>,
    ) -> (r: Result<Vec<Option<Result<String, GrepError>>>, GrepError>)
        ensures
            match (compiled(self.pattern@), listing) {
                (Err(cause), _) => r == Err::<Vec<Option<Result<String, GrepError>>>, GrepError>(
                    GrepError::GegexPatternError(cause),
                ),
                (Ok(_), Err(cause)) => r == Err::<
                    Vec<Option<Result<String, GrepError>>>,
                    GrepError,
                >(GrepError::GlobPatternError(cause)),
                (Ok(re), Ok(targets)) => r matches Ok(outcomes) && are_scan_outcomes(
                    outcomes@,
                    targets@,
                    re,
                ),
            },
    {
        self.match_with(scan_target, listing)
    }

    /// Runs the search with `strategy` over `listing`, which is what the
    /// glob resolved to: the files in the glob's order, `None` for an entry
    /// that could not be resolved or opened, or the glob's error. The
    /// pattern is compiled first, and once; a pattern that does not compile
    /// ends the run whatever the glob gave. Then a malformed glob ends the
    /// run. Else each file that could be opened goes to the strategy, with
    /// the one compiled expression. An error of the strategy stays with its
    /// file: it is kept as that file's outcome and the run goes on.
    pub fn match_with<F>(
        &self,
        strategy: F,
        listing: Result<Vec<Option<Target>>, glob::PatternError>,
    ) -> (r: Result<Vec<Option<Result<String, GrepError>>>, GrepError>) where
        F: Fn(&Target, &Regex) -> Result<String, GrepError>,

        requires
            forall|target: &Target, re: &Regex| call_requires(strategy, (target, re)),
        ensures
            match (compiled(self.pattern@), listing) {
                (Err(cause), _) => r == Err::<Vec<Option<Result<String, GrepError>>>, GrepError>(
                    GrepError::GegexPatternError(cause),
                ),
                (Ok(_), Err(cause)) => r == Err::<
                    Vec<Option<Result<String, GrepError>>>,
                    GrepError,
                >(GrepError::GlobPatternError(cause)),
                (Ok(re), Ok(targets)) => r matches Ok(outcomes) && are_outcomes(
                    outcomes@,
                    strategy,
                    targets@,
                    re,
                ),
            },
    {
        let re = self.compile()?;
        let targets = match listing {
            Ok(targets) => targets,
            Err(cause) => {
                return Err(GrepError::GlobPatternError(cause));
            },
        };
        let mut outcomes: Vec<Option<Result<String, GrepError>>> = Vec::new();
        let mut i: usize = 0;
        while i < targets.len()
            invariant
                0 <= i <= targets.len(),
                outcomes.len() == i,
                forall|target: &Target, re: &Regex| call_requires(strategy, (target, re)),
                forall|k: int|
                    0 <= k < i ==> match (#[trigger] outcomes[k], targets[k]) {
                        (None, None) => true,
                        (Some(outcome), Some(target)) => call_ensures(
                            strategy,
                            (&target, &re),
                            outcome,
                        ),
                        _ => false,
                    },
            decreases targets.len() - i,
        {
            match &targets[i] {
                Some(target) => {
                    let outcome = strategy(target, &re);
                    outcomes.push(Some(outcome));
                },
                None => {
                    outcomes.push(None);
                },
            }
            i += 1;
        }
        Ok(outcomes)
    }
}

} // verus!
