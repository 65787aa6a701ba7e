use vstd::prelude::*;

verus! {

/// The characters of `s`, in order.
pub(crate) fn chars_of(s: &str) -> (r: Vec<char>)
    ensures
        r@ == s@,
{
    let mut r: Vec<char> = Vec::new();
    for c in it: s.chars()
        invariant
            it.seq() == s@,
            r@ == it.seq().take(it.index() as int),
    {
        r.push(c);
    }
    r
}

/// Relies on `String: FromIterator<&char>`: the string made of the characters of `v`, in order.
#[verifier::external_body]
pub(crate) fn string_of(v: &Vec<char>) -> (r: String)
    ensures
        r@ == v@,
{
    v.iter().collect()
}

/// Whether a sequence of characters holds no `/`.
pub open spec fn no_slash(s: Seq<char>) -> bool {
    forall|k: int| 0 <= k < s.len() ==> s[k] != '/'
}

/// `s` split at its first `/`: the part before it, and the part after it if there is one.
#[verifier::opaque]
pub open spec fn cut(s: Seq<char>) -> (Seq<char>, Option<Seq<char>>) {
    if no_slash(s) {
        (s, None)
    } else {
        let i = choose|i: int| 0 <= i < s.len() && s[i] == '/' && no_slash(s.take(i));
        (s.take(i), Some(s.skip(i + 1)))
    }
}

/// The part of `s` after its last `/` (all of `s` when it has none).
pub open spec fn last_segment(s: Seq<char>) -> Seq<char>
    decreases s.len(),
{
    if s.len() == 0 {
        s
    } else if s.last() == '/' {
        Seq::empty()
    } else {
        last_segment(s.drop_last()).push(s.last())
    }
}

/// Index of the first `/` in `v` at or after `start`, or `v.len()` when there is none.
pub fn find_slash(v: &Vec<char>, start: usize) -> (r: usize)
    requires
        start <= v.len(),
    ensures
        start <= r <= v.len(),
        r < v.len() ==> v@[r as int] == '/',
        forall|k: int| start <= k < r ==> v@[k] != '/',
{
    let mut i: usize = start;
    while i < v.len()
        invariant
            start <= i <= v.len(),
            forall|k: int| start <= k < i ==> v@[k] != '/',
        decreases v.len() - i,
    {
        if v[i] == '/' {
            return i;
        }
        i = i + 1;
    }
    i
}

/// Splits `s` at its first `/`, as `cut` states.
pub fn cut_at_slash(s: &Vec<char>) -> (r: (Vec<char>, Option<Vec<char>>))
    ensures
        r.0@ == cut(s@).0,
        r.1 is Some <==> cut(s@).1 is Some,
        r.1 is Some ==> r.1->Some_0@ == cut(s@).1->Some_0,
{
    reveal(cut);
    let i = find_slash(s, 0);
    if i == s.len() {
        assert(s@.take(i as int) =~= s@);
        assert(no_slash(s@));
        (s.clone(), None)
    } else {
        let ghost j = choose|j: int| 0 <= j < s@.len() && s@[j] == '/' && no_slash(s@.take(j));
        proof {
            assert(no_slash(s@.take(i as int)));
            assert(!no_slash(s@));
            if j < i {
                assert(s@[j] == '/');
            } else if i < j {
                assert(s@.take(j)[i as int] == '/');
            }
        }
        let mut a: Vec<char> = Vec::new();
        let mut b: Vec<char> = Vec::new();
        let mut k: usize = 0;
        while k < s.len()
            invariant
                i < s.len(),
                k <= s.len(),
                k <= i ==> a@ == s@.take(k as int) && b@.len() == 0,
                k > i ==> a@ == s@.take(i as int) && b@ == s@.subrange(i + 1, k as int),
            decreases s.len() - k,
        {
            if k < i {
                a.push(s[k]);
                assert(a@ =~= s@.take(k + 1));
            } else if k > i {
                b.push(s[k]);
                assert(b@ =~= s@.subrange(i + 1, k + 1));
            } else {
                assert(b@ =~= s@.subrange(i + 1, k + 1));
            }
            k = k + 1;
        }
        assert(b@ =~= s@.skip(i + 1));
        (a, Some(b))
    }
}

/// The part of `s` after its last `/`, as `last_segment` states.
pub fn last_segment_of(s: &Vec<char>) -> (r: Vec<char>)
    ensures
        r@ == last_segment(s@),
{
    let mut r: Vec<char> = Vec::new();
    let mut i: usize = 0;
    while i < s.len()
        invariant
            i <= s.len(),
            r@ == last_segment(s@.take(i as int)),
        decreases s.len() - i,
    {
        assert(s@.take(i + 1).drop_last() =~= s@.take(i as int));
        if s[i] == '/' {
            r = Vec::new();
            assert(r@ =~= Seq::<char>::empty());
        } else {
            r.push(s[i]);
        }
        i = i + 1;
    }
    assert(s@.take(i as int) =~= s@);
    r
}

/// `org`, `name` and the optional subdirectory of an identifier `org/name[/subdir]`.
pub open spec fn parse_ident(s: Seq<char>) -> Option<(Seq<char>, Seq<char>, Option<Seq<char>>)> {
    match cut(s).1 {
        None => None,
        Some(rest) => if cut(s).0.len() > 0 && cut(rest).0.len() > 0 {
            Some((cut(s).0, cut(rest).0, cut(rest).1))
        } else {
            None
        },
    }
}

/// An identifier `org/name`, both parts non-empty and without `/`, names no subdirectory;
/// `org/name/sub` names `sub`, which may hold `/`.
#[verifier::rlimit(50)]
pub proof fn identifier_parts(org: Seq<char>, name: Seq<char>, sub: Seq<char>)
    requires
        org.len() > 0,
        name.len() > 0,
        no_slash(org),
        no_slash(name),
    ensures
        parse_ident(org + "/"@ + name) == Some((org, name, None::<Seq<char>>)),
        parse_ident(org + "/"@ + name + "/"@ + sub) == Some((org, name, Some(sub))),
{
    reveal_strlit("/");
    lemma_cut_at(org, name);
    lemma_cut_at(org, name + "/"@ + sub);
    assert(org + "/"@ + name + "/"@ + sub =~= org + "/"@ + (name + "/"@ + sub));
    lemma_cut_at(name, sub);
    reveal(cut);
}

proof fn lemma_cut_at(a: Seq<char>, b: Seq<char>)
    requires
        no_slash(a),
    ensures
        cut(a + "/"@ + b) == (a, Some(b)),
{
    reveal_strlit("/");
    reveal(cut);
    let s = a + "/"@ + b;
    let i = a.len() as int;
    assert(s[i] == '/');
    assert(s.take(i) =~= a);
    assert(!no_slash(s));
    let j = choose|j: int| 0 <= j < s.len() && s[j] == '/' && no_slash(s.take(j));
    if j < i {
        assert(a[j] == '/');
    } else if i < j {
        assert(s.take(j)[i] == '/');
    }
    assert(s.skip(i + 1) =~= b);
}

} // verus!
