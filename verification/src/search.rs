//! Looking for the `openclaw` command, one place after the other: the
//! `PATH`, Homebrew's usual places on macOS, the global npm prefix, and on
//! macOS the newest Node.js version under nvm that holds it. The first place
//! where it is found wins.
use vstd::prelude::*;
use crate::config::{path_view, PathSpec};
use crate::openclaw::{brew_candidates, first_line, npm_prefix_candidates, ResolvedOpenclaw};
use crate::platform::Platform;
use crate::semver::{entry_views, is_latest};
use crate::task::owned;
use crate::text::views;

verus! {

broadcast use vstd::string::group_string_axioms;

/// Where the search stands.
#[derive(PartialEq, Eq, Structural, Clone, Copy, Debug)]
pub enum SearchStage {
    Path,
    Brew,
    NpmPrefix,
    NpmCandidates,
    Nvm,
    Over,
}

/// The next piece of work of the search.
pub enum SearchStep {
    /// Look for `openclaw` in the `PATH` and report what was found.
    SearchPath,
    /// Report the location, joined into a path, when it is an executable file.
    CheckFile(PathSpec),
    /// Run `npm prefix -g` and report its output and error output (`None`
    /// when it could not run).
    RunNpmPrefix,
    /// List the Node.js versions under `~/.nvm/versions/node`: each
    /// directory's name, with its `bin/openclaw` when that is an executable file.
    ScanNvm,
    /// `openclaw` was found.
    Found(ResolvedOpenclaw),
    /// `openclaw` was found nowhere.
    NotFound,
}

/// The search for the `openclaw` command.
pub struct OpenclawSearch {
    platform: Platform,
    path_env: String,
    stage: SearchStage,
    index: usize,
    prefix: String,
}

/// A found command, with where it was found and the `PATH` it runs with.
pub open spec fn found_as(step: SearchStep, command: Seq<char>, source: Seq<char>, path_env: Seq<char>) -> bool {
    step matches SearchStep::Found(x) && x.command@ == command && x.source@ == source && x.path_env@
        == path_env
}

/// A location to check.
pub open spec fn checks(step: SearchStep, base: Seq<char>, components: Seq<Seq<char>>) -> bool {
    step matches SearchStep::CheckFile(p) && path_view(p) == (base, components)
}

impl OpenclawSearch {
    /// The stage of the search.
    pub closed spec fn stage_of(&self) -> SearchStage {
        self.stage
    }

    /// The position within the stage's list of places.
    pub closed spec fn index_of(&self) -> nat {
        self.index as nat
    }

    /// The platform searched on.
    pub closed spec fn platform_of(&self) -> Platform {
        self.platform
    }

    /// The `PATH` the command will run with.
    pub closed spec fn path_env_of(&self) -> Seq<char> {
        self.path_env@
    }

    /// The global npm prefix, once read.
    pub closed spec fn prefix_of(&self) -> Seq<char> {
        self.prefix@
    }

    /// The search is consistent: the position is within the list of the stage.
    pub closed spec fn search_ok(&self) -> bool {
        &&& self.stage == SearchStage::Brew ==> self.platform == Platform::MacOs && self.index < 2
        &&& self.stage == SearchStage::NpmCandidates ==> self.index < npm_prefix_candidates(
            self.platform,
        ).len()
    }

    /// Whether the search is consistent (it always is, from `start` on).
    pub fn is_consistent(&self) -> (b: bool)
        ensures
            b == self.search_ok(),
    {
        let cands = crate::openclaw::npm_prefix_candidate_paths(self.platform);
        let n = cands.len();
        assert(cands@.map_values(|c: Vec<String>| views(c@)).len() == n);
        (self.stage != SearchStage::Brew || (self.platform == Platform::MacOs && self.index < 2)) && (
        self.stage != SearchStage::NpmCandidates || self.index < n)
    }

    /// The stage of the search.
    pub fn stage(&self) -> (s: SearchStage)
        ensures
            s == self.stage_of(),
    {
        self.stage
    }

    /// Starts the search with the `PATH` the command will run with.
    pub fn start(platform: Platform, path_env: String) -> (r: (OpenclawSearch, SearchStep))
        ensures
            r.0.stage_of() == SearchStage::Path,
            r.0.platform_of() == platform,
            r.0.path_env_of() == path_env@,
            r.0.search_ok(),
            r.1 is SearchPath,
    {
        (
            OpenclawSearch { platform, path_env, stage: SearchStage::Path, index: 0, prefix: String::new() },
            SearchStep::SearchPath,
        )
    }

    /// The command, found at `command` in `source`.
    fn found(&mut self, command: String, source: &str) -> (r: SearchStep)
        ensures
            found_as(r, command@, source@, old(self).path_env_of()),
            final(self).stage_of() == SearchStage::Over,
            final(self).platform_of() == old(self).platform_of(),
            final(self).path_env_of() == old(self).path_env_of(),
            final(self).search_ok(),
    {
        self.stage = SearchStage::Over;
        SearchStep::Found(ResolvedOpenclaw { command, source: owned(source), path_env: self.path_env.clone() })
    }

    /// Goes on with the npm prefix.
    fn to_npm_prefix(&mut self) -> (r: SearchStep)
        ensures
            r is RunNpmPrefix,
            final(self).stage_of() == SearchStage::NpmPrefix,
            final(self).platform_of() == old(self).platform_of(),
            final(self).path_env_of() == old(self).path_env_of(),
            final(self).search_ok(),
    {
        self.stage = SearchStage::NpmPrefix;
        SearchStep::RunNpmPrefix
    }

    /// Goes on with nvm on macOS; elsewhere the search ends.
    fn to_nvm(&mut self) -> (r: SearchStep)
        ensures
            old(self).platform_of() == Platform::MacOs ==> r is ScanNvm && final(self).stage_of()
                == SearchStage::Nvm,
            old(self).platform_of() != Platform::MacOs ==> r is NotFound && final(self).stage_of()
                == SearchStage::Over,
            final(self).platform_of() == old(self).platform_of(),
            final(self).path_env_of() == old(self).path_env_of(),
            final(self).search_ok(),
    {
        if self.platform == Platform::MacOs {
            self.stage = SearchStage::Nvm;
            SearchStep::ScanNvm
        } else {
            self.stage = SearchStage::Over;
            SearchStep::NotFound
        }
    }

    /// The Homebrew location at position `k`.
    fn check_brew(&mut self, k: usize) -> (r: SearchStep)
        requires
            old(self).platform_of() == Platform::MacOs,
            k < 2,
        ensures
            checks(r, brew_candidates(Platform::MacOs)[k as int], Seq::<Seq<char>>::empty()),
            final(self).stage_of() == SearchStage::Brew,
            final(self).index_of() == k,
            final(self).platform_of() == old(self).platform_of(),
            final(self).path_env_of() == old(self).path_env_of(),
            final(self).search_ok(),
    {
        let cands = crate::openclaw::brew_openclaw_candidates(self.platform);
        assert(views(cands@).len() == 2);
        assert(cands@.len() == views(cands@).len());
        assert(views(cands@)[k as int] == cands@[k as int]@);
        self.stage = SearchStage::Brew;
        self.index = k;
        let components: Vec<String> = Vec::new();
        assert(views(components@) =~= Seq::<Seq<char>>::empty());
        SearchStep::CheckFile(PathSpec { base: cands[k].clone(), components })
    }

    /// The npm prefix location at position `k`.
    fn check_npm(&mut self, k: usize) -> (r: SearchStep)
        requires
            k < npm_prefix_candidates(old(self).platform_of()).len(),
        ensures
            checks(r, old(self).prefix_of(), npm_prefix_candidates(old(self).platform_of())[k as int]),
            final(self).stage_of() == SearchStage::NpmCandidates,
            final(self).index_of() == k,
            final(self).prefix_of() == old(self).prefix_of(),
            final(self).platform_of() == old(self).platform_of(),
            final(self).path_env_of() == old(self).path_env_of(),
            final(self).search_ok(),
    {
        let mut cands = crate::openclaw::npm_prefix_candidate_paths(self.platform);
        proof {
            assert(cands@.map_values(|c: Vec<String>| views(c@))[k as int] == views(cands@[k as int]@));
        }
        let components = crate::text::clone_texts(&cands[k]);
        self.stage = SearchStage::NpmCandidates;
        self.index = k;
        SearchStep::CheckFile(PathSpec { base: self.prefix.clone(), components })
    }

    /// What the `PATH` search found.
    pub fn path_searched(&mut self, found: Option<String>) -> (r: SearchStep)
        requires
            old(self).stage_of() == SearchStage::Path,
        ensures
            match found {
                Some(c) => found_as(r, c@, "path"@, old(self).path_env_of()),
                None => if old(self).platform_of() == Platform::MacOs {
                    checks(r, "/opt/homebrew/bin/openclaw"@, Seq::<Seq<char>>::empty())
                        && final(self).stage_of() == SearchStage::Brew && final(self).index_of() == 0
                } else {
                    r is RunNpmPrefix && final(self).stage_of() == SearchStage::NpmPrefix
                },
            },
            final(self).platform_of() == old(self).platform_of(),
            final(self).path_env_of() == old(self).path_env_of(),
            final(self).search_ok(),
    {
        match found {
            Some(c) => self.found(c, "path"),
            None => {
                if self.platform == Platform::MacOs {
                    self.check_brew(0)
                } else {
                    self.to_npm_prefix()
                }
            },
        }
    }

    /// Whether the location asked for is an executable file (its joined path
    /// when it is).
    pub fn file_checked(&mut self, found: Option<String>) -> (r: SearchStep)
        requires
            old(self).stage_of() == SearchStage::Brew || old(self).stage_of()
                == SearchStage::NpmCandidates,
            old(self).search_ok(),
        ensures
            match found {
                Some(c) => found_as(
                    r,
                    c@,
                    if old(self).stage_of() == SearchStage::Brew {
                        "brew_bin"@
                    } else {
                        "npm_prefix"@
                    },
                    old(self).path_env_of(),
                ),
                None => if old(self).stage_of() == SearchStage::Brew {
                    if old(self).index_of() + 1 < 2 {
                        checks(
                            r,
                            brew_candidates(Platform::MacOs)[(old(self).index_of() + 1) as int],
                            Seq::<Seq<char>>::empty(),
                        ) && final(self).index_of() == old(self).index_of() + 1
                    } else {
                        r is RunNpmPrefix && final(self).stage_of() == SearchStage::NpmPrefix
                    }
                } else {
                    if old(self).index_of() + 1 < npm_prefix_candidates(old(self).platform_of()).len() {
                        checks(
                            r,
                            old(self).prefix_of(),
                            npm_prefix_candidates(old(self).platform_of())[(old(self).index_of() + 1) as int],
                        ) && final(self).index_of() == old(self).index_of() + 1
                    } else if old(self).platform_of() == Platform::MacOs {
                        r is ScanNvm && final(self).stage_of() == SearchStage::Nvm
                    } else {
                        r is NotFound && final(self).stage_of() == SearchStage::Over
                    }
                },
            },
            final(self).platform_of() == old(self).platform_of(),
            final(self).path_env_of() == old(self).path_env_of(),
            final(self).search_ok(),
    {
        match found {
            Some(c) => {
                if self.stage == SearchStage::Brew {
                    self.found(c, "brew_bin")
                } else {
                    self.found(c, "npm_prefix")
                }
            },
            None => {
                if self.stage == SearchStage::Brew {
                    if self.index + 1 < 2 {
                        let k = self.index + 1;
                        self.check_brew(k)
                    } else {
                        self.to_npm_prefix()
                    }
                } else {
                    let n = crate::openclaw::npm_prefix_candidate_paths(self.platform).len();
                    if self.index + 1 < n {
                        let k = self.index + 1;
                        self.check_npm(k)
                    } else {
                        self.to_nvm()
                    }
                }
            },
        }
    }

    /// What `npm prefix -g` printed (`None` when it could not run): its
    /// first non-empty line is the prefix under which `openclaw` is looked for.
    pub fn npm_prefix_ran(&mut self, output: Option<(String, String)>) -> (r: SearchStep)
        requires
            old(self).stage_of() == SearchStage::NpmPrefix,
        ensures
            match output {
                Some((o, e)) => match first_line(o@ + "\n"@ + e@) {
                    Some(p) => checks(r, p, npm_prefix_candidates(old(self).platform_of())[0])
                        && final(self).stage_of() == SearchStage::NpmCandidates,
                    None => if old(self).platform_of() == Platform::MacOs {
                        r is ScanNvm
                    } else {
                        r is NotFound
                    },
                },
                None => if old(self).platform_of() == Platform::MacOs {
                    r is ScanNvm
                } else {
                    r is NotFound
                },
            },
            final(self).platform_of() == old(self).platform_of(),
            final(self).path_env_of() == old(self).path_env_of(),
            final(self).search_ok(),
    {
        match output {
            Some((o, e)) => match crate::openclaw::npm_prefix_from_output(o.as_str(), e.as_str()) {
                Some(p) => {
                    self.prefix = p;
                    self.check_npm(0)
                },
                None => self.to_nvm(),
            },
            None => self.to_nvm(),
        }
    }

    /// The Node.js versions under nvm: the newest one (by its directory name
    /// `vX.Y.Z`) whose `bin/openclaw` is executable wins, the first of equal
    /// versions.
    pub fn nvm_scanned(&mut self, entries: Vec<(String, Option<String>)>) -> (r: SearchStep)
        requires
            old(self).stage_of() == SearchStage::Nvm,
        ensures
            match r {
                SearchStep::Found(x) => exists|i: int|
                    0 <= i < entries@.len() && is_latest(nvm_views(entries@), i) && (entries@[i].1
                        matches Some(c) && found_as(r, c@, "nvm_scan"@, old(self).path_env_of())),
                SearchStep::NotFound => forall|j: int|
                    0 <= j < entries@.len() ==> !crate::semver::eligible(
                        #[trigger] nvm_views(entries@)[j].0,
                        nvm_views(entries@)[j].1,
                    ),
                _ => false,
            },
            final(self).stage_of() == SearchStage::Over,
    {
        let mut flags: Vec<(String, bool)> = Vec::new();
        let mut i: usize = 0;
        while i < entries.len()
            invariant
                i <= entries.len(),
                entry_views(flags@) == nvm_views(entries@).take(i as int),
            decreases entries.len() - i,
        {
            let ghost before = entry_views(flags@);
            flags.push((entries[i].0.clone(), entries[i].1.is_some()));
            assert(entry_views(flags@) =~= before.push((entries@[i as int].0@, entries@[i as int].1 is Some)));
            assert(nvm_views(entries@).take(i + 1) =~= nvm_views(entries@).take(i as int).push(
                (entries@[i as int].0@, entries@[i as int].1 is Some),
            ));
            i += 1;
        }
        assert(nvm_views(entries@).take(entries.len() as int) =~= nvm_views(entries@));
        self.stage = SearchStage::Over;
        match crate::semver::pick_latest_version(&flags) {
            Some(k) => {
                let path = match &entries[k].1 {
                    Some(c) => c.clone(),
                    None => String::new(),
                };
                let r = SearchStep::Found(
                    ResolvedOpenclaw { command: path, source: owned("nvm_scan"), path_env: self.path_env.clone() },
                );
                assert(nvm_views(entries@)[k as int].1);
                assert(is_latest(nvm_views(entries@), k as int));
                r
            },
            None => SearchStep::NotFound,
        }
    }
}

/// The scanned nvm versions: each directory's name with whether it holds an
/// executable `openclaw`.
pub open spec fn nvm_views(entries: Seq<(String, Option<String>)>) -> Seq<(Seq<char>, bool)> {
    entries.map_values(|e: (String, Option<String>)| (e.0@, e.1 is Some))
}

} // verus!
