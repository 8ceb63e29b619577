//! `key=value` tokens. A token is split on its first `=`: the key is what
//! stands before it, the value everything after it (later `=` characters are
//! kept in the value verbatim). A token without `=` is rejected.

use vstd::prelude::*;
use crate::error::HttpError;
use crate::text::{chars_of, string_of, sub_chars};

verus! {

/// A key/value pair parsed from a `key=value` command-line token.
#[derive(Clone, Debug)]
pub struct KvPair {
    pub k: String,
    pub v: String,
}

impl View for KvPair {
    type V = (Seq<char>, Seq<char>);

    open spec fn view(&self) -> (Seq<char>, Seq<char>) {
        (self.k@, self.v@)
    }
}

/// The index of the first `=` in `s`, if any.
pub open spec fn find_eq(s: Seq<char>) -> Option<int>
    decreases s.len(),
{
    if s.len() == 0 {
        None
    } else if s[0] == '=' {
        Some(0int)
    } else {
        match find_eq(s.drop_first()) {
            Some(i) => Some(i + 1),
            None => None,
        }
    }
}

/// What parsing a token yields: key before the first `=`, value after it;
/// nothing when the token has no `=`.
pub open spec fn kv_of(s: Seq<char>) -> Option<(Seq<char>, Seq<char>)> {
    match find_eq(s) {
        Some(i) => Some((s.subrange(0, i), s.subrange(i + 1, s.len() as int))),
        None => None,
    }
}

/// `find_eq` points at the first `=`: the character there is `=` and no
/// earlier one is; when it finds nothing, no character is `=`.
pub proof fn lemma_find_eq(s: Seq<char>)
    ensures
        match find_eq(s) {
            Some(i) => 0 <= i < s.len() && s[i] == '=' && (forall|j: int|
                0 <= j < i ==> s[j] != '='),
            None => forall|j: int| 0 <= j < s.len() ==> s[j] != '=',
        },
    decreases s.len(),
{
    if s.len() == 0 {
    } else if s[0] == '=' {
    } else {
        let t = s.drop_first();
        lemma_find_eq(t);
        match find_eq(t) {
            Some(i) => {
                assert(s[i + 1] == t[i]);
                assert forall|j: int| 0 <= j < i + 1 implies s[j] != '=' by {
                    if j > 0 {
                        assert(t[j - 1] == s[j]);
                    }
                }
            },
            None => {
                assert forall|j: int| 0 <= j < s.len() implies s[j] != '=' by {
                    if j > 0 {
                        assert(t[j - 1] == s[j]);
                    }
                }
            },
        }
    }
}

/// Where the first `=` is known, `find_eq` returns exactly that index.
pub proof fn lemma_find_eq_at(s: Seq<char>, i: int)
    requires
        0 <= i < s.len(),
        s[i] == '=',
        forall|j: int| 0 <= j < i ==> s[j] != '=',
    ensures
        find_eq(s) == Some(i),
    decreases s.len(),
{
    if i == 0 {
    } else {
        assert(s[0] != '=');
        assert(forall|j: int| 0 <= j < s.drop_first().len() ==> s.drop_first()[j] == s[j + 1]);
        lemma_find_eq_at(s.drop_first(), i - 1);
    }
}

/// Law: the splitting rule applies only to the first separator. A parsed
/// token reassembles to `key`, one `=`, then `value`, and the key holds no
/// `=` of its own; a token is rejected exactly when it has no `=` at all.
pub proof fn lemma_kv_split(s: Seq<char>)
    ensures
        kv_of(s) matches Some(p) ==> {
            &&& s =~= p.0 + seq!['='] + p.1
            &&& forall|j: int| 0 <= j < p.0.len() ==> p.0[j] != '='
        },
        kv_of(s) is None ==> forall|j: int| 0 <= j < s.len() ==> s[j] != '=',
{
    lemma_find_eq(s);
    if kv_of(s) is Some {
        let i = find_eq(s)->Some_0;
        assert(s =~= s.subrange(0, i) + seq!['='] + s.subrange(i + 1, s.len() as int));
    }
}

impl KvPair {
    /// Parses a `key=value` token, splitting on the first `=`; a token
    /// without `=` is rejected with an error naming it.
    pub fn from_str(s: &str) -> (r: Result<KvPair, HttpError>)
        ensures
            r matches Ok(p) ==> kv_of(s@) == Some((p.k@, p.v@)),
            r matches Err(e) ==> e matches HttpError::InvalidPair(t) && t@ == s@,
            r is Ok <==> kv_of(s@) is Some,
    {
        let cs = chars_of(s);
        let n = cs.len();
        let mut i: usize = 0;
        while i < n
            invariant
                cs@ == s@,
                n == cs@.len(),
                i <= n,
                forall|j: int| 0 <= j < i ==> cs@[j] != '=',
            decreases n - i,
        {
            if cs[i] == '=' {
                proof {
                    lemma_find_eq_at(s@, i as int);
                }
                let k = string_of(&sub_chars(&cs, 0, i));
                let v = string_of(&sub_chars(&cs, i + 1, n));
                return Ok(KvPair { k, v });
            }
            i = i + 1;
        }
        proof {
            lemma_find_eq(s@);
        }
        Err(HttpError::InvalidPair(s.to_owned()))
    }
}

/// Parses one `key=value` command-line token.
pub fn parse_kv_pair(s: &str) -> (r: Result<KvPair, HttpError>)
    ensures
        r matches Ok(p) ==> kv_of(s@) == Some((p.k@, p.v@)),
        r matches Err(e) ==> e matches HttpError::InvalidPair(t) && t@ == s@,
        r is Ok <==> kv_of(s@) is Some,
{
    KvPair::from_str(s)
}

} // verus!
