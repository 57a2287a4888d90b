//! String helpers: slash-separated path segments, membership tests.
//!
//! Upstream URLs and mirror-relative paths are slash-separated; the mirror
//! derives an artifact's local position by dropping leading URL segments.
use vstd::prelude::*;

verus! {

/// The segments of `s` between `/` separators. Always at least one segment;
/// empty segments arise from leading, trailing or doubled separators.
pub open spec fn split_slash(s: Seq<char>) -> Seq<Seq<char>>
    decreases s.len(),
{
    if s.len() == 0 {
        seq![Seq::<char>::empty()]
    } else {
        let init = split_slash(s.drop_last());
        if s.last() == '/' {
            init.push(Seq::<char>::empty())
        } else {
            init.update(init.len() - 1, init.last().push(s.last()))
        }
    }
}

/// The segments joined back with `/` separators.
pub open spec fn join_slash(parts: Seq<Seq<char>>) -> Seq<char>
    decreases parts.len(),
{
    if parts.len() == 0 {
        Seq::<char>::empty()
    } else if parts.len() == 1 {
        parts[0]
    } else {
        join_slash(parts.drop_last()) + seq!['/'] + parts.last()
    }
}

pub proof fn lemma_split_slash_len(s: Seq<char>)
    ensures
        split_slash(s).len() >= 1,
    decreases s.len(),
{
    if s.len() > 0 {
        lemma_split_slash_len(s.drop_last());
    }
}

/// Relies on String::push: appends one character.
#[verifier::external_body]
pub(crate) fn push_char(s: &mut String, c: char) -> (r: ())
    ensures
        final(s)@ == old(s)@.push(c),
{
    s.push(c)
}

/// Splits a string on `/`.
pub fn split_slash_exec(s: &String) -> (r: Vec<String>)
    ensures
        r.deep_view() == split_slash(s@),
{
    let n: usize = s.as_str().unicode_len();
    let mut done: Vec<String> = Vec::new();
    let mut cur: String = String::new();
    let mut i: usize = 0;
    while i < n
        invariant
            i <= n,
            n == s@.len(),
            done.deep_view().push(cur@) =~= split_slash(s@.take(i as int)),
        decreases n - i,
    {
        let c = s.as_str().get_char(i);
        proof {
            assert(s@.take(i + 1).drop_last() =~= s@.take(i as int));
            assert(s@.take(i + 1).last() == s@[i as int]);
            lemma_split_slash_len(s@.take(i as int));
        }
        if c == '/' {
            let ghost prev = done.deep_view().push(cur@);
            done.push(cur);
            cur = String::new();
            proof {
                assert(done.deep_view().push(cur@) =~= prev.push(Seq::<char>::empty()));
            }
        } else {
            let ghost prev = done.deep_view().push(cur@);
            push_char(&mut cur, c);
            proof {
                assert(done.deep_view().push(cur@) =~= prev.update(
                    prev.len() - 1,
                    prev.last().push(c),
                ));
            }
        }
        i = i + 1;
    }
    proof {
        assert(s@.take(n as int) =~= s@);
    }
    done.push(cur);
    proof {
        assert(done.deep_view() =~= split_slash(s@));
    }
    done
}

/// Joins segments with `/` separators.
pub fn join_slash_exec(parts: &Vec<String>) -> (r: String)
    ensures
        r@ == join_slash(parts.deep_view()),
{
    let mut r = String::new();
    let mut i: usize = 0;
    while i < parts.len()
        invariant
            i <= parts.deep_view().len(),
            parts.deep_view().len() == parts@.len(),
            r@ =~= join_slash(parts.deep_view().take(i as int)),
        decreases parts@.len() - i,
    {
        proof {
            assert(parts.deep_view().take(i + 1).drop_last() =~= parts.deep_view().take(i as int));
            assert(parts.deep_view().take(i + 1).last() == parts.deep_view()[i as int]);
        }
        if i > 0 {
            r.append("/");
            proof {
                assert("/"@ =~= seq!['/']) by {
                    reveal_strlit("/");
                }
            }
        }
        r.append(parts[i].as_str());
        i = i + 1;
    }
    proof {
        assert(parts.deep_view().take(parts.deep_view().len() as int) =~= parts.deep_view());
    }
    r
}

/// Whether some element of the sequence views to `d`.
pub open spec fn contains_view(v: Seq<String>, d: Seq<char>) -> bool {
    exists|i: int| 0 <= i < v.len() && (#[trigger] v[i])@ == d
}

/// Whether some element of `v` equals `x`.
pub fn vec_contains_string(v: &Vec<String>, x: &String) -> (r: bool)
    ensures
        r == v.deep_view().contains(x@),
        r == contains_view(v@, x@),
{
    let mut i: usize = 0;
    while i < v.len()
        invariant
            i <= v@.len(),
            forall|j: int| 0 <= j < i ==> v.deep_view()[j] != x@,
        decreases v@.len() - i,
    {
        if x.eq(&v[i]) {
            proof {
                assert(v.deep_view()[i as int] == x@);
                assert(v@[i as int]@ == x@);
            }
            return true;
        }
        i = i + 1;
    }
    proof {
        assert(forall|j: int| 0 <= j < v.deep_view().len() ==> v.deep_view()[j] != x@);
        assert forall|j: int| 0 <= j < v@.len() implies (#[trigger] v@[j])@ != x@ by {
            assert(v.deep_view()[j] == v@[j]@);
        }
    }
    false
}

} // verus!
