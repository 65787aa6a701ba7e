use vstd::prelude::*;

use crate::config::{cache_segment, archive_url, Config};
use crate::text::{chars_of, cut_at_slash, last_segment, last_segment_of, no_slash, parse_ident, string_of};

verus! {

/// What can stop a fetch inside the library.
#[derive(PartialEq, Eq, Structural, Clone, Copy, Debug)]
pub enum FetchError {
    /// The identifier is not of the form `org/name[/subdir]`.
    InvalidIdentifier,
    /// No commit is recorded for the repository.
    UnknownCommit,
    /// The head could not be resolved and no commit is recorded to fall back on.
    HeadUnresolved,
}

/// The view of an optional string.
pub open spec fn opt_view(o: Option<String>) -> Option<Seq<char>> {
    match o {
        Some(s) => Some(s@),
        None => None,
    }
}

/// Where, relative to the cache root, the archive of `org/name` at `hash` is kept.
pub open spec fn archive_file(site: crate::config::From, org: Seq<char>, name: Seq<char>, hash: Seq<char>) -> Seq<char> {
    cache_segment(site) + "/"@ + org + "/"@ + name + "-"@ + hash + ".tar.gz"@
}

/// A path component that stays where it is put: not empty, no `/`, not `.` or `..`.
pub open spec fn plain(c: Seq<char>) -> bool {
    c.len() > 0 && no_slash(c) && c != seq!['.'] && c != seq!['.', '.']
}

/// What to do to have the archive on disk.
pub enum DlAction {
    /// The archive is already in the cache at `path`.
    UseCache { path: String },
    /// Download `url` into `path`.
    Download { url: String, path: String },
}

/// What to do with the target directory before extracting.
#[derive(PartialEq, Eq, Structural, Clone, Copy, Debug)]
pub enum TargetStep {
    /// Extract into it as it is.
    Extract,
    /// Remove it, then extract.
    Clear,
    /// Ask the user whether it may be removed.
    Ask,
    /// Stop, leaving it untouched.
    Abort,
}

/// What happens to the target directory: an absent or empty one is used as it is; a
/// non-empty one is removed when forced or when the user agrees, and left alone otherwise.
pub open spec fn target_step(nonempty: bool, force: bool, answer: Option<bool>) -> TargetStep {
    if !nonempty {
        TargetStep::Extract
    } else if force {
        TargetStep::Clear
    } else {
        match answer {
            None => TargetStep::Ask,
            Some(true) => TargetStep::Clear,
            Some(false) => TargetStep::Abort,
        }
    }
}

/// Decides what happens to the target directory, as `target_step` states.
pub fn prepare_target(nonempty: bool, force: bool, answer: Option<bool>) -> (r: TargetStep)
    ensures
        r == target_step(nonempty, force, answer),
{
    if !nonempty {
        TargetStep::Extract
    } else if force {
        TargetStep::Clear
    } else {
        match answer {
            None => TargetStep::Ask,
            Some(true) => TargetStep::Clear,
            Some(false) => TargetStep::Abort,
        }
    }
}

/// A run onto a non-empty target without force asks before anything is removed, and a
/// refusal stops the run with the target untouched.
pub proof fn declined_overwrite_aborts(nonempty: bool, force: bool)
    requires
        nonempty,
        !force,
    ensures
        target_step(nonempty, force, None) == TargetStep::Ask,
        target_step(nonempty, force, Some(false)) == TargetStep::Abort,
{
}

/// `s` split at each `/`, empty pieces included (there is always at least one).
pub open spec fn segments(s: Seq<char>) -> Seq<Seq<char>>
    decreases s.len(),
{
    if s.len() == 0 {
        seq![Seq::empty()]
    } else {
        let init = segments(s.drop_last());
        if s.last() == '/' {
            init.push(Seq::empty())
        } else {
            init.update(init.len() - 1, init.last().push(s.last()))
        }
    }
}

/// The pieces of `segs` that name a component, in order: empty and `.` pieces are
/// dropped, and a `..` piece makes the whole `None`.
pub open spec fn kept(segs: Seq<Seq<char>>) -> Option<Seq<Seq<char>>>
    decreases segs.len(),
{
    if segs.len() == 0 {
        Some(Seq::empty())
    } else {
        match kept(segs.drop_last()) {
            None => None,
            Some(k) => {
                let c = segs.last();
                if c == seq!['.', '.'] {
                    None
                } else if c.len() == 0 || c == seq!['.'] {
                    Some(k)
                } else {
                    Some(k.push(c))
                }
            },
        }
    }
}

/// The components of a relative path; `None` for an absolute path or one with a `..`.
pub open spec fn path_components(s: Seq<char>) -> Option<Seq<Seq<char>>> {
    if s.len() > 0 && s[0] == '/' {
        None
    } else {
        kept(segments(s))
    }
}

/// `p` without the leading components `pre`, if it starts with them.
pub open spec fn strip_components(p: Seq<Seq<char>>, pre: Seq<Seq<char>>) -> Option<Seq<Seq<char>>> {
    if pre.len() <= p.len() && p.take(pre.len() as int) == pre {
        Some(p.skip(pre.len() as int))
    } else {
        None
    }
}

/// Where the archive entry `p` goes under the target, as components: its first component
/// (the archive's top directory) is dropped, then the components of `sub` when it is given;
/// entries outside `sub`, entries that leave nothing, and entries that are absolute or hold
/// `..` go nowhere.
pub open spec fn adopted(sub: Option<Seq<char>>, p: Seq<char>) -> Option<Seq<Seq<char>>> {
    match path_components(p) {
        None => None,
        Some(cs) => if cs.len() == 0 {
            None
        } else {
            let rest = match sub {
                None => Some(cs.drop_first()),
                Some(d) => match path_components(d) {
                    None => None,
                    Some(dc) => strip_components(cs.drop_first(), dc),
                },
            };
            match rest {
                Some(x) => if x.len() > 0 {
                    Some(x)
                } else {
                    None
                },
                None => None,
            }
        },
    }
}

/// The views of a sequence of strings.
pub open spec fn views(v: Seq<String>) -> Seq<Seq<char>> {
    v.map_values(|x: String| x@)
}

proof fn lemma_kept_dotdot(segs: Seq<Seq<char>>, i: int)
    requires
        0 <= i < segs.len(),
        segs[i] == seq!['.', '.'],
    ensures
        kept(segs) is None,
    decreases segs.len(),
{
    if i < segs.len() - 1 {
        lemma_kept_dotdot(segs.drop_last(), i);
    }
}

/// An archive entry with a `..` piece is never placed anywhere, whatever the subdirectory.
pub proof fn traversal_entry_is_skipped(sub: Option<Seq<char>>, p: Seq<char>, i: int)
    requires
        0 <= i < segments(p).len(),
        segments(p)[i] == seq!['.', '.'],
    ensures
        adopted(sub, p) is None,
{
    lemma_kept_dotdot(segments(p), i);
}

/// Ends the piece `cur`: keeps it in `out` when it names a component, drops it when it is
/// empty or `.`, and returns false when it is `..`.
fn push_component(out: &mut Vec<String>, cur: &Vec<char>) -> (ok: bool)
    requires
        no_slash(cur@),
        forall|j: int| 0 <= j < old(out)@.len() ==> plain(#[trigger] old(out)@[j]@),
    ensures
        forall|j: int| 0 <= j < final(out)@.len() ==> plain(#[trigger] final(out)@[j]@),
        ok <==> cur@ != seq!['.', '.'],
        ok && (cur@.len() == 0 || cur@ == seq!['.']) ==> final(out)@ == old(out)@,
        ok && !(cur@.len() == 0 || cur@ == seq!['.']) ==> views(final(out)@) == views(old(out)@).push(cur@),
{
    let n = cur.len();
    if n == 0 || (n == 1 && cur[0] == '.') {
        proof {
            if n == 0 {
                assert(cur@ != seq!['.', '.']);
            } else {
                assert(cur@ =~= seq!['.']);
            }
        }
        true
    } else if n == 2 && cur[0] == '.' && cur[1] == '.' {
        assert(cur@ =~= seq!['.', '.']);
        false
    } else {
        proof {
            if n == 1 {
                assert(cur@ != seq!['.']);
                assert(cur@ != seq!['.', '.']);
            } else if n == 2 {
                assert(cur@ != seq!['.', '.']);
                assert(cur@ != seq!['.']);
            } else {
                assert(cur@.len() != seq!['.'].len());
                assert(cur@.len() != seq!['.', '.'].len());
            }
        }
        let c = string_of(cur);
        let ghost before = out@;
        out.push(c);
        assert(views(out@) =~= views(before).push(cur@));
        true
    }
}

/// The components of a path, as `path_components` states.
fn components_of(s: &Vec<char>) -> (r: Option<Vec<String>>)
    ensures
        r is Some <==> path_components(s@) is Some,
        r is Some ==> views(r->Some_0@) == path_components(s@)->Some_0,
        r is Some ==> forall|i: int| 0 <= i < r->Some_0@.len() ==> plain(#[trigger] r->Some_0@[i]@),
{
    if s.len() > 0 && s[0] == '/' {
        return None;
    }
    let mut out: Vec<String> = Vec::new();
    let mut cur: Vec<char> = Vec::new();
    let mut bad = false;
    let ghost mut done: Seq<Seq<char>> = Seq::empty();
    let mut i: usize = 0;
    assert(s@.take(0) =~= Seq::<char>::empty());
    assert(segments(s@.take(0)) == done.push(cur@)) by {
        assert(done.push(cur@) =~= seq![Seq::<char>::empty()]);
    }
    while i < s.len()
        invariant
            i <= s.len(),
            no_slash(cur@),
            forall|j: int| 0 <= j < out@.len() ==> plain(#[trigger] out@[j]@),
            segments(s@.take(i as int)) == done.push(cur@),
            bad ==> kept(done) is None,
            !bad ==> kept(done) == Some(views(out@)),
        decreases s.len() - i,
    {
        assert(s@.take(i + 1).drop_last() =~= s@.take(i as int));
        let c = s[i];
        if c != '/' {
            let ghost old_cur = cur@;
            cur.push(c);
            assert(done.push(old_cur).update(done.len() as int, old_cur.push(c)) =~= done.push(cur@));
        } else {
            let ghost old_done = done;
            proof {
                done = done.push(cur@);
                assert(done.drop_last() =~= old_done);
            }
            if !bad {
                let ok = push_component(&mut out, &cur);
                if !ok {
                    bad = true;
                }
            }
            cur = Vec::new();
            assert(no_slash(cur@));
            assert(old_done.push(done.last()).push(Seq::<char>::empty()) =~= done.push(cur@));
        }
        i = i + 1;
    }
    assert(s@.take(i as int) =~= s@);
    let ghost old_done = done;
    proof {
        done = done.push(cur@);
        assert(done.drop_last() =~= old_done);
    }
    if bad {
        return None;
    }
    if !push_component(&mut out, &cur) {
        return None;
    }
    Some(out)
}

/// A repository to fetch, with the store of recorded commits it is fetched at.
pub struct Fetcher<'a> {
    pub config: &'a Config,
    pub repo: String,
    pub repo_org: String,
    pub repo_name: String,
    pub maybe_subdir: Option<String>,
}

impl<'a> Fetcher<'a> {
    /// `repo` is `org/name` for the fetcher's own `org` and `name`.
    pub open spec fn wf(&self) -> bool {
        self.repo@ == self.repo_org@ + "/"@ + self.repo_name@
    }

    /// Parses `repo`, of the form `org/name[/subdir]`, to fetch with the commits of `config`.
    #[verifier::rlimit(50)]
    pub fn new(config: &'a Config, repo: &str) -> (r: Result<Fetcher<'a>, FetchError>)
        ensures
            match r {
                Ok(f) => parse_ident(repo@) == Some((f.repo_org@, f.repo_name@, opt_view(f.maybe_subdir)))
                    && f.wf() && f.config == config,
                Err(e) => parse_ident(repo@) is None && e == FetchError::InvalidIdentifier,
            },
    {
        let s = chars_of(repo);
        let (org, rest) = cut_at_slash(&s);
        match rest {
            None => Err(FetchError::InvalidIdentifier),
            Some(rest) => {
                let (name, sub) = cut_at_slash(&rest);
                if org.len() == 0 || name.len() == 0 {
                    return Err(FetchError::InvalidIdentifier);
                }
                let mut full = org.clone();
                let mut slash = chars_of("/");
                let mut n2 = name.clone();
                full.append(&mut slash);
                full.append(&mut n2);
                assert(full@ == org@ + "/"@ + name@);
                let maybe_subdir = match sub {
                    Some(d) => Some(string_of(&d)),
                    None => None,
                };
                Ok(Fetcher {
                    config,
                    repo: string_of(&full),
                    repo_org: string_of(&org),
                    repo_name: string_of(&name),
                    maybe_subdir,
                })
            },
        }
    }

    /// The directory to extract into: `maybe_target` if given, else the last segment of
    /// the subdirectory, else the repository's name.
    pub fn target_name(&self, maybe_target: Option<String>) -> (r: String)
        ensures
            r@ == match maybe_target {
                Some(t) => t@,
                None => match self.maybe_subdir {
                    Some(d) => last_segment(d@),
                    None => self.repo_name@,
                },
            },
    {
        match maybe_target {
            Some(t) => t,
            None => match &self.maybe_subdir {
                Some(d) => string_of(&last_segment_of(&chars_of(d.as_str()))),
                None => self.repo_name.clone(),
            },
        }
    }

    /// Where, relative to the cache root, the archive of the recorded commit is kept.
    pub fn archive_path(&self) -> (r: Result<String, FetchError>)
        requires
            self.wf(),
        ensures
            match r {
                Ok(p) => self.config@.contains_key((self.config.from, self.repo@))
                    && p@ == archive_file(self.config.from, self.repo_org@, self.repo_name@,
                        self.config@[(self.config.from, self.repo@)]),
                Err(e) => !self.config@.contains_key((self.config.from, self.repo@))
                    && e == FetchError::UnknownCommit,
            },
    {
        match self.config.get_hash(self.repo.as_str()) {
            None => Err(FetchError::UnknownCommit),
            Some(h) => {
                let mut v = chars_of(self.config.from.get_dl_dir(self.repo_org.as_str()).as_str());
                let mut a = chars_of("/");
                let mut b = chars_of(self.repo_name.as_str());
                let mut c = chars_of("-");
                let mut d = chars_of(h.as_str());
                let mut e = chars_of(".tar.gz");
                v.append(&mut a);
                v.append(&mut b);
                v.append(&mut c);
                v.append(&mut d);
                v.append(&mut e);
                assert(v@ =~= archive_file(self.config.from, self.repo_org@, self.repo_name@, h@));
                Ok(string_of(&v))
            },
        }
    }

    /// What to do to have the archive of the recorded commit on disk: a file already in the
    /// cache is used as it is, and only a missing one is downloaded.
    pub fn dl_action(&self, archive_exists: bool) -> (r: Result<DlAction, FetchError>)
        requires
            self.wf(),
        ensures
            match r {
                Ok(DlAction::UseCache { path }) => archive_exists
                    && self.config@.contains_key((self.config.from, self.repo@))
                    && path@ == archive_file(self.config.from, self.repo_org@, self.repo_name@,
                        self.config@[(self.config.from, self.repo@)]),
                Ok(DlAction::Download { url, path }) => !archive_exists
                    && self.config@.contains_key((self.config.from, self.repo@))
                    && path@ == archive_file(self.config.from, self.repo_org@, self.repo_name@,
                        self.config@[(self.config.from, self.repo@)])
                    && url@ == archive_url(self.config.from, self.repo_org@ + "/"@ + self.repo_name@,
                        self.config@[(self.config.from, self.repo@)]),
                Err(e) => !self.config@.contains_key((self.config.from, self.repo@))
                    && e == FetchError::UnknownCommit,
            },
    {
        let path = self.archive_path()?;
        if archive_exists {
            Ok(DlAction::UseCache { path })
        } else {
            let h = match self.config.get_hash(self.repo.as_str()) {
                Some(h) => h,
                None => return Err(FetchError::UnknownCommit),
            };
            let url = self.config.from.get_archive_url(self.repo.as_str(), h.as_str());
            Ok(DlAction::Download { url, path })
        }
    }

    /// Where an archive entry goes under the target directory, as `adopted` states.
    pub fn adopt_path(&self, entry_path: &str) -> (r: Option<Vec<String>>)
        ensures
            r is Some <==> adopted(opt_view(self.maybe_subdir), entry_path@) is Some,
            r is Some ==> views(r->Some_0@) == adopted(opt_view(self.maybe_subdir), entry_path@)->Some_0,
            r is Some ==> forall|i: int| 0 <= i < r->Some_0@.len() ==> plain(#[trigger] r->Some_0@[i]@),
    {
        let comps = match components_of(&chars_of(entry_path)) {
            Some(c) => c,
            None => return None,
        };
        if comps.len() == 0 {
            return None;
        }
        let ghost cs = views(comps@);
        let mut start: usize = 1;
        match &self.maybe_subdir {
            Some(d) => {
                let sub = match components_of(&chars_of(d.as_str())) {
                    Some(c) => c,
                    None => return None,
                };
                if comps.len() <= sub.len() {
                    return None;
                }
                let mut j: usize = 0;
                while j < sub.len()
                    invariant
                        j <= sub@.len(),
                        sub@.len() + 1 <= comps@.len(),
                        cs == views(comps@),
                        cs.len() > 0,
                        path_components(entry_path@) == Some(cs),
                        path_components(d@) == Some(views(sub@)),
                        opt_view(self.maybe_subdir) == Some(d@),
                        forall|jj: int| 0 <= jj < j ==> cs[jj + 1] == sub@[jj]@,
                    decreases sub@.len() - j,
                {
                    if comps[j + 1] != sub[j] {
                        assert(cs[j + 1] == comps@[j + 1]@);
                        assert(views(sub@)[j as int] == sub@[j as int]@);
                        assert(cs.drop_first().take(sub@.len() as int)[j as int] != views(sub@)[j as int]);
                        assert(cs.drop_first().take(sub@.len() as int) != views(sub@));
                        assert(strip_components(cs.drop_first(), views(sub@)) is None);
                        return None;
                    }
                    j = j + 1;
                }
                assert(cs.drop_first().take(sub@.len() as int) =~= views(sub@));
                start = sub.len() + 1;
            },
            None => {},
        }
        if start >= comps.len() {
            return None;
        }
        let mut out: Vec<String> = Vec::new();
        let mut k: usize = start;
        while k < comps.len()
            invariant
                1 <= start <= k <= comps@.len(),
                cs == views(comps@),
                forall|j: int| 0 <= j < comps@.len() ==> plain(#[trigger] comps@[j]@),
                views(out@) == cs.subrange(start as int, k as int),
                forall|j: int| 0 <= j < out@.len() ==> plain(#[trigger] out@[j]@),
            decreases comps@.len() - k,
        {
            let c = comps[k].clone();
            assert(plain(comps@[k as int]@));
            let ghost before = out@;
            out.push(c);
            assert(views(out@) =~= views(before).push(comps@[k as int]@));
            assert(cs.subrange(start as int, k + 1) =~= cs.subrange(start as int, k as int).push(cs[k as int]));
            assert(views(out@) =~= cs.subrange(start as int, k + 1));
            k = k + 1;
        }
        assert(cs.drop_first().skip(start - 1) =~= cs.subrange(start as int, comps@.len() as int));
        Some(out)
    }
}

} // verus!
