use vstd::prelude::*;

use crate::fetcher::FetchError;
use crate::text::{chars_of, string_of};

verus! {

/// The hosting site a repository is fetched from.
#[derive(PartialEq, Eq, Structural, Clone, Copy, Debug, Hash)]
pub enum From {
    GH,
}

/// Where the archive of `repo` at commit `hash` is downloaded from.
pub open spec fn archive_url(site: From, repo: Seq<char>, hash: Seq<char>) -> Seq<char> {
    match site {
        From::GH => "https://codeload.github.com/"@ + repo + "/tar.gz/"@ + hash,
    }
}

/// The base URL of the site.
pub open spec fn host_url(site: From) -> Seq<char> {
    match site {
        From::GH => "https://github.com"@,
    }
}

/// The directory of the cache that holds the site's archives.
pub open spec fn cache_segment(site: From) -> Seq<char> {
    match site {
        From::GH => "github.com"@,
    }
}

impl From {
    pub fn get_archive_url(&self, repo: &str, hash: &str) -> (r: String)
        ensures
            r@ == archive_url(*self, repo@, hash@),
    {
        match self {
            From::GH => {
                let mut v = chars_of("https://codeload.github.com/");
                let mut a = chars_of(repo);
                let mut b = chars_of("/tar.gz/");
                let mut c = chars_of(hash);
                v.append(&mut a);
                v.append(&mut b);
                v.append(&mut c);
                string_of(&v)
            },
        }
    }

    pub fn get_host_url(&self) -> (r: String)
        ensures
            r@ == host_url(*self),
    {
        match self {
            From::GH => string_of(&chars_of("https://github.com")),
        }
    }

    /// The directory, relative to the cache root, that holds the archives of `repo_org`.
    pub fn get_dl_dir(&self, repo_org: &str) -> (r: String)
        ensures
            r@ == cache_segment(*self) + "/"@ + repo_org@,
    {
        match self {
            From::GH => {
                let mut v = chars_of("github.com");
                let mut s = chars_of("/");
                let mut o = chars_of(repo_org);
                v.append(&mut s);
                v.append(&mut o);
                string_of(&v)
            },
        }
    }
}

/// One recorded commit: the head of `repo` on `site` was `hash`.
pub struct RepoHash {
    pub site: From,
    pub repo: String,
    pub hash: String,
}

/// The commits recorded by a list of records; a later record replaces an earlier one.
pub open spec fn hashes(s: Seq<RepoHash>) -> Map<(From, Seq<char>), Seq<char>>
    decreases s.len(),
{
    if s.len() == 0 {
        Map::empty()
    } else {
        hashes(s.drop_last()).insert((s.last().site, s.last().repo@), s.last().hash@)
    }
}

/// The store of the last commit resolved for each repository of each site.
pub struct Config {
    pub local: Vec<RepoHash>,
    pub from: From,
}

proof fn lemma_tail_miss(s: Seq<RepoHash>, n: int, key: (From, Seq<char>))
    requires
        0 <= n <= s.len(),
        forall|k: int| n <= k < s.len() ==> (s[k].site, s[k].repo@) != key,
    ensures
        hashes(s).contains_key(key) == hashes(s.take(n)).contains_key(key),
        hashes(s).contains_key(key) ==> hashes(s)[key] == hashes(s.take(n))[key],
    decreases s.len(),
{
    if n == s.len() {
        assert(s.take(n) =~= s);
    } else {
        lemma_tail_miss(s.drop_last(), n, key);
        assert(s.drop_last().take(n) =~= s.take(n));
    }
}

impl Config {
    /// What the store holds: for each site and repository, the last commit recorded.
    pub open spec fn view(&self) -> Map<(From, Seq<char>), Seq<char>> {
        hashes(self.local@)
    }

    /// A store with nothing recorded, whose selected site is `from`.
    pub fn with_site(from: From) -> (r: Config)
        ensures
            r@ == Map::<(From, Seq<char>), Seq<char>>::empty(),
            r.from == from,
    {
        Config { local: Vec::new(), from }
    }

    /// The records, oldest first; a later one replaces an earlier one for the same key.
    pub fn records(&self) -> (r: &Vec<RepoHash>)
        ensures
            hashes(r@) == self@,
    {
        &self.local
    }

    /// The commit recorded for `repo` on `site`.
    pub fn hash_on(&self, site: From, repo: &str) -> (r: Option<String>)
        ensures
            r is Some <==> self@.contains_key((site, repo@)),
            r is Some ==> r->Some_0@ == self@[(site, repo@)],
    {
        let key = repo.to_owned();
        let mut i: usize = self.local.len();
        while i > 0
            invariant
                i <= self.local@.len(),
                key@ == repo@,
                forall|k: int| i <= k < self.local@.len() ==>
                    (self.local@[k].site, self.local@[k].repo@) != (site, repo@),
            decreases i,
        {
            let e = &self.local[i - 1];
            if e.site == site && e.repo == key {
                proof {
                    lemma_tail_miss(self.local@, i as int, (site, repo@));
                    assert(self.local@.take(i as int).drop_last() =~= self.local@.take(i - 1));
                }
                return Some(e.hash.clone());
            }
            i = i - 1;
        }
        proof {
            lemma_tail_miss(self.local@, 0, (site, repo@));
        }
        None
    }

    /// The commit recorded for `repo` on the selected site.
    pub fn get_hash(&self, repo: &str) -> (r: Option<String>)
        ensures
            r is Some <==> self@.contains_key((self.from, repo@)),
            r is Some ==> r->Some_0@ == self@[(self.from, repo@)],
    {
        self.hash_on(self.from, repo)
    }

    /// Records `hash` as the commit of `repo` on `site`.
    pub fn set_hash(&mut self, site: From, repo: &str, hash: &str)
        ensures
            final(self)@ == old(self)@.insert((site, repo@), hash@),
            final(self).from == old(self).from,
    {
        let r = RepoHash { site, repo: repo.to_owned(), hash: hash.to_owned() };
        self.local.push(r);
        assert(self.local@.drop_last() =~= old(self).local@);
    }

    /// Records `new_hash`, the head just resolved for `repo` on the selected site.
    /// Returns whether the store changed, that is whether it must be written back.
    pub fn update_hash(&mut self, repo: &str, new_hash: &str) -> (changed: bool)
        ensures
            changed <==> !(old(self)@.contains_key((old(self).from, repo@))
                && old(self)@[(old(self).from, repo@)] == new_hash@),
            final(self)@ == old(self)@.insert((old(self).from, repo@), new_hash@),
            final(self).from == old(self).from,
    {
        let from = self.from;
        match self.hash_on(from, repo) {
            Some(h) => {
                let n = new_hash.to_owned();
                if h == n {
                    assert(self@.insert((from, repo@), new_hash@) =~= self@);
                    return false;
                }
            },
            None => {},
        }
        self.set_hash(from, repo, new_hash);
        true
    }

    /// The URL of `repo` on the selected site, to resolve its head from.
    pub fn remote_url(&self, repo: &str) -> (r: String)
        ensures
            r@ == host_url(self.from) + "/"@ + repo@,
    {
        let mut v = chars_of(self.from.get_host_url().as_str());
        let mut s = chars_of("/");
        let mut o = chars_of(repo);
        v.append(&mut s);
        v.append(&mut o);
        string_of(&v)
    }

    /// Takes the outcome of resolving the head of `repo`: a resolved head is recorded as
    /// `update_hash` does; when it could not be resolved, a recorded commit is kept, and
    /// with none recorded the fetch cannot go on. `Ok` says whether the store changed.
    pub fn apply_head(&mut self, repo: &str, head: Option<String>) -> (r: Result<bool, FetchError>)
        ensures
            final(self).from == old(self).from,
            match head {
                Some(h) => r == Ok::<bool, FetchError>(!(old(self)@.contains_key((old(self).from, repo@))
                    && old(self)@[(old(self).from, repo@)] == h@))
                    && final(self)@ == old(self)@.insert((old(self).from, repo@), h@),
                None => final(self)@ == old(self)@ && if old(self)@.contains_key((old(self).from, repo@)) {
                    r == Ok::<bool, FetchError>(false)
                } else {
                    r == Err::<bool, FetchError>(FetchError::HeadUnresolved)
                },
            },
    {
        match head {
            Some(h) => Ok(self.update_hash(repo, h.as_str())),
            None => if self.get_hash(repo).is_some() {
                Ok(false)
            } else {
                Err(FetchError::HeadUnresolved)
            },
        }
    }

    /// Whether the head of `repo` has to be resolved before fetching:
    /// when asked to reload, or when no commit is recorded for it.
    pub fn needs_update(&self, repo: &str, reload: bool) -> (r: bool)
        ensures
            r == (reload || !self@.contains_key((self.from, repo@))),
    {
        reload || self.get_hash(repo).is_none()
    }
}

/// From a remote's reference list, given as names and the commits they point to, the
/// commit of the first reference named `HEAD`.
pub fn pick_head(names: &Vec<String>, oids: &Vec<String>) -> (r: Option<String>)
    requires
        names@.len() == oids@.len(),
    ensures
        r is Some <==> exists|i: int| 0 <= i < names@.len() && names@[i]@ == "HEAD"@,
        r is Some ==> exists|i: int| 0 <= i < names@.len() && names@[i]@ == "HEAD"@
            && (forall|k: int| 0 <= k < i ==> names@[k]@ != "HEAD"@)
            && r->Some_0@ == oids@[i]@,
{
    let head = string_of(&chars_of("HEAD"));
    let mut i: usize = 0;
    while i < names.len()
        invariant
            i <= names@.len(),
            names@.len() == oids@.len(),
            head@ == "HEAD"@,
            forall|k: int| 0 <= k < i ==> names@[k]@ != "HEAD"@,
        decreases names@.len() - i,
    {
        if names[i] == head {
            return Some(oids[i].clone());
        }
        i = i + 1;
    }
    None
}

/// Once a head has been recorded, recording the same head again changes nothing,
/// so the store is written back only once.
pub proof fn update_is_idempotent(
    before: Map<(From, Seq<char>), Seq<char>>,
    site: From,
    repo: Seq<char>,
    hash: Seq<char>,
)
    ensures
        before.insert((site, repo), hash).contains_key((site, repo)),
        before.insert((site, repo), hash)[(site, repo)] == hash,
        before.insert((site, repo), hash).insert((site, repo), hash) == before.insert(
            (site, repo),
            hash,
        ),
{
    assert(before.insert((site, repo), hash).insert((site, repo), hash) =~= before.insert(
        (site, repo),
        hash,
    ));
}

} // verus!
