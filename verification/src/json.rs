//! Building the JSON object body of a POST request. The pairs are first
//! reduced so that each key occurs once, the last occurrence of a key
//! winning; the object text then holds one member per remaining pair, with
//! keys and values written as JSON strings (quotes, backslashes and control
//! characters escaped).

use vstd::prelude::*;
use crate::kv::KvPair;
use crate::text::{chars_of, string_of};

verus! {

/// The lowercase hexadecimal digit of `n`.
pub open spec fn digit_of(n: int) -> char {
    if n == 0 {
        '0'
    } else if n == 1 {
        '1'
    } else if n == 2 {
        '2'
    } else if n == 3 {
        '3'
    } else if n == 4 {
        '4'
    } else if n == 5 {
        '5'
    } else if n == 6 {
        '6'
    } else if n == 7 {
        '7'
    } else if n == 8 {
        '8'
    } else if n == 9 {
        '9'
    } else if n == 10 {
        'a'
    } else if n == 11 {
        'b'
    } else if n == 12 {
        'c'
    } else if n == 13 {
        'd'
    } else if n == 14 {
        'e'
    } else {
        'f'
    }
}

/// How one character is written inside a JSON string.
pub open spec fn escape_char(c: char) -> Seq<char> {
    if c == '"' {
        seq!['\\', '"']
    } else if c == '\\' {
        seq!['\\', '\\']
    } else if c == '\n' {
        seq!['\\', 'n']
    } else if c == '\r' {
        seq!['\\', 'r']
    } else if c == '\t' {
        seq!['\\', 't']
    } else if (c as u32) < 0x20 {
        seq!['\\', 'u', '0', '0', digit_of(c as u32 as int / 16), digit_of(c as u32 as int % 16)]
    } else {
        seq![c]
    }
}

/// The escaped form of a whole character sequence.
pub open spec fn escape_chars(s: Seq<char>) -> Seq<char>
    decreases s.len(),
{
    if s.len() == 0 {
        Seq::empty()
    } else {
        escape_char(s[0]) + escape_chars(s.drop_first())
    }
}

/// A JSON string literal: the escaped characters between double quotes.
pub open spec fn json_string(s: Seq<char>) -> Seq<char> {
    seq!['"'] + escape_chars(s) + seq!['"']
}

/// One object member, `"key":"value"`.
pub open spec fn json_member(k: Seq<char>, v: Seq<char>) -> Seq<char> {
    json_string(k) + seq![':'] + json_string(v)
}

/// The members of an object, separated by commas.
pub open spec fn json_members(ps: Seq<(Seq<char>, Seq<char>)>) -> Seq<char>
    decreases ps.len(),
{
    if ps.len() == 0 {
        Seq::empty()
    } else if ps.len() == 1 {
        json_member(ps[0].0, ps[0].1)
    } else {
        json_member(ps[0].0, ps[0].1) + seq![','] + json_members(ps.drop_first())
    }
}

/// The object text: members between braces.
pub open spec fn json_object(ps: Seq<(Seq<char>, Seq<char>)>) -> Seq<char> {
    seq!['{'] + json_members(ps) + seq!['}']
}

/// The views of a sequence of pairs.
pub open spec fn pair_views(ps: Seq<KvPair>) -> Seq<(Seq<char>, Seq<char>)> {
    ps.map_values(|p: KvPair| p@)
}

/// Whether some pair in `ps` has key `k`.
pub open spec fn has_key(ps: Seq<(Seq<char>, Seq<char>)>, k: Seq<char>) -> bool {
    exists|i: int| 0 <= i < ps.len() && ps[i].0 == k
}

/// The value of the last pair in `ps` whose key is `k`, if any.
pub open spec fn last_value(ps: Seq<(Seq<char>, Seq<char>)>, k: Seq<char>) -> Option<Seq<char>>
    decreases ps.len(),
{
    if ps.len() == 0 {
        None
    } else if ps.last().0 == k {
        Some(ps.last().1)
    } else {
        last_value(ps.drop_last(), k)
    }
}

/// What reducing `ps` to unique keys must yield: distinct keys, each carrying
/// the value of its last occurrence in `ps`, and exactly the keys of `ps`.
pub open spec fn dedup_ok(
    ps: Seq<(Seq<char>, Seq<char>)>,
    ds: Seq<(Seq<char>, Seq<char>)>,
) -> bool {
    &&& forall|i: int, j: int| 0 <= i < j < ds.len() ==> ds[i].0 != ds[j].0
    &&& forall|i: int| 0 <= i < ds.len() ==> last_value(ps, ds[i].0) == Some(ds[i].1)
    &&& forall|k: Seq<char>| has_key(ps, k) <==> has_key(ds, k)
}

/// Appending a pair moves the deciding occurrence of its key to the end.
proof fn lemma_last_value_push(
    ps: Seq<(Seq<char>, Seq<char>)>,
    p: (Seq<char>, Seq<char>),
    k: Seq<char>,
)
    ensures
        last_value(ps.push(p), k) == if p.0 == k {
            Some(p.1)
        } else {
            last_value(ps, k)
        },
{
    assert(ps.push(p).drop_last() =~= ps);
}

/// One member written after `n` earlier ones extends the member list.
proof fn lemma_members_push(ps: Seq<(Seq<char>, Seq<char>)>, p: (Seq<char>, Seq<char>))
    ensures
        json_members(ps.push(p)) =~= if ps.len() == 0 {
            json_member(p.0, p.1)
        } else {
            json_members(ps) + seq![','] + json_member(p.0, p.1)
        },
    decreases ps.len(),
{
    if ps.len() == 0 {
        assert(ps.push(p).len() == 1);
        assert(ps.push(p)[0] == p);
    } else {
        assert(ps.push(p).drop_first() =~= ps.drop_first().push(p));
        lemma_members_push(ps.drop_first(), p);
        assert(ps.push(p)[0] == ps[0]);
    }
}

/// Reduces the pairs to unique keys; the last occurrence of a key wins, so
/// the result maps each key of the input to the value of its last pair.
pub fn unique_pairs(pairs: &Vec<KvPair>) -> (r: Vec<KvPair>)
    ensures
        dedup_ok(pair_views(pairs@), pair_views(r@)),
{
    let ghost full = pair_views(pairs@);
    let mut r: Vec<KvPair> = Vec::new();
    let mut i: usize = 0;
    while i < pairs.len()
        invariant
            i <= pairs@.len(),
            dedup_ok(pair_views(pairs@.subrange(0, i as int)), pair_views(r@)),
        decreases pairs@.len() - i,
    {
        let ghost prefix = pair_views(pairs@.subrange(0, i as int));
        let ghost ds = pair_views(r@);
        let key = pairs[i].k.clone();
        let val = pairs[i].v.clone();
        let ghost p = (key@, val@);
        proof {
            assert(pair_views(pairs@.subrange(0, i + 1)) =~= prefix.push(p));
            assert forall|k: Seq<char>| true implies last_value(prefix.push(p), k) == (if p.0 == k {
                Some(p.1)
            } else {
                last_value(prefix, k)
            }) by {
                lemma_last_value_push(prefix, p, k);
            }
        }
        let mut j: usize = 0;
        let mut idx: Option<usize> = None;
        while j < r.len()
            invariant
                j <= r@.len(),
                ds == pair_views(r@),
                key@ == p.0,
                idx is None ==> forall|t: int| 0 <= t < j ==> ds[t].0 != p.0,
                idx matches Some(t) ==> t < r@.len() && ds[t as int].0 == p.0,
            decreases r@.len() - j,
        {
            if idx.is_none() {
                if r[j].k == key {
                    idx = Some(j);
                }
            }
            j = j + 1;
        }
        match idx {
            Some(t) => {
                r[t] = KvPair { k: key, v: val };
                proof {
                    let ds2 = pair_views(r@);
                    assert(ds2 =~= ds.update(t as int, p));
                    assert forall|k: Seq<char>|
                        has_key(prefix.push(p), k) <==> has_key(ds2, k) by {
                        if has_key(prefix.push(p), k) {
                            if k == p.0 {
                                assert(ds2[t as int].0 == k);
                            } else {
                                assert(has_key(prefix, k));
                                let w = choose|w: int| 0 <= w < ds.len() && ds[w].0 == k;
                                assert(ds2[w].0 == k);
                            }
                        }
                        if has_key(ds2, k) {
                            let w = choose|w: int| 0 <= w < ds2.len() && ds2[w].0 == k;
                            if w == t as int {
                                assert(has_key(prefix.push(p), k));
                            } else {
                                assert(ds[w].0 == k);
                                assert(has_key(prefix, k));
                                let q = choose|q: int| 0 <= q < prefix.len() && prefix[q].0 == k;
                                assert(prefix.push(p)[q].0 == k);
                            }
                        }
                    }
                }
            },
            None => {
                r.push(KvPair { k: key, v: val });
                proof {
                    let ds2 = pair_views(r@);
                    assert(ds2 =~= ds.push(p));
                    assert forall|k: Seq<char>|
                        has_key(prefix.push(p), k) <==> has_key(ds2, k) by {
                        if has_key(prefix.push(p), k) {
                            if k == p.0 {
                                assert(ds2[ds.len() as int].0 == k);
                            } else {
                                assert(has_key(prefix, k));
                                let w = choose|w: int| 0 <= w < ds.len() && ds[w].0 == k;
                                assert(ds2[w].0 == k);
                            }
                        }
                        if has_key(ds2, k) {
                            let w = choose|w: int| 0 <= w < ds2.len() && ds2[w].0 == k;
                            if w == ds.len() as int {
                                assert(prefix.push(p).last().0 == k);
                                assert(has_key(prefix.push(p), k));
                            } else {
                                assert(ds[w].0 == k);
                                assert(has_key(prefix, k));
                                let q = choose|q: int| 0 <= q < prefix.len() && prefix[q].0 == k;
                                assert(prefix.push(p)[q].0 == k);
                            }
                        }
                    }
                }
            },
        }
        i = i + 1;
    }
    proof {
        assert(pairs@.subrange(0, pairs@.len() as int) =~= pairs@);
    }
    r
}

/// Writes one escaped character.
fn push_escaped(out: &mut Vec<char>, c: char)
    ensures
        final(out)@ == old(out)@ + escape_char(c),
{
    if c == '"' {
        out.push('\\');
        out.push('"');
    } else if c == '\\' {
        out.push('\\');
        out.push('\\');
    } else if c == '\n' {
        out.push('\\');
        out.push('n');
    } else if c == '\r' {
        out.push('\\');
        out.push('r');
    } else if c == '\t' {
        out.push('\\');
        out.push('t');
    } else {
        let u = c as u32;
        if u < 0x20 {
            out.push('\\');
            out.push('u');
            out.push('0');
            out.push('0');
            out.push(digit_ascii(u / 16));
            out.push(digit_ascii(u % 16));
        } else {
            out.push(c);
        }
    }
    proof {
        assert(out@ =~= old(out)@ + escape_char(c));
    }
}

/// The lowercase hexadecimal digit character of `n`.
fn digit_ascii(n: u32) -> (r: char)
    requires
        n < 16,
    ensures
        r == digit_of(n as int),
{
    if n == 0 {
        '0'
    } else if n == 1 {
        '1'
    } else if n == 2 {
        '2'
    } else if n == 3 {
        '3'
    } else if n == 4 {
        '4'
    } else if n == 5 {
        '5'
    } else if n == 6 {
        '6'
    } else if n == 7 {
        '7'
    } else if n == 8 {
        '8'
    } else if n == 9 {
        '9'
    } else if n == 10 {
        'a'
    } else if n == 11 {
        'b'
    } else if n == 12 {
        'c'
    } else if n == 13 {
        'd'
    } else if n == 14 {
        'e'
    } else {
        'f'
    }
}

/// The escaped form grows one character at a time.
proof fn lemma_escape_chars_push(s: Seq<char>, c: char)
    ensures
        escape_chars(s.push(c)) =~= escape_chars(s) + escape_char(c),
    decreases s.len(),
{
    if s.len() == 0 {
        assert(s.push(c)[0] == c);
        assert(s.push(c).drop_first() =~= Seq::<char>::empty());
        assert(escape_chars(s.push(c)) == escape_char(c) + escape_chars(s.push(c).drop_first()));
        assert(escape_chars(Seq::<char>::empty()) == Seq::<char>::empty());
        assert(escape_chars(s.push(c)) =~= escape_chars(s) + escape_char(c));
    } else {
        assert(s.push(c)[0] == s[0]);
        assert(s.push(c).drop_first() =~= s.drop_first().push(c));
        lemma_escape_chars_push(s.drop_first(), c);
        assert(escape_chars(s.push(c)) == escape_char(s[0]) + escape_chars(
            s.drop_first().push(c),
        ));
        assert(escape_chars(s.push(c)) =~= escape_chars(s) + escape_char(c));
    }
}

/// Writes `s` as a JSON string literal.
fn push_json_string(out: &mut Vec<char>, s: &str)
    ensures
        final(out)@ == old(out)@ + json_string(s@),
{
    let ghost start = out@;
    out.push('"');
    let cs = chars_of(s);
    let mut i: usize = 0;
    while i < cs.len()
        invariant
            i <= cs@.len(),
            cs@ == s@,
            out@ =~= start + seq!['"'] + escape_chars(s@.subrange(0, i as int)),
        decreases cs@.len() - i,
    {
        proof {
            assert(s@.subrange(0, i + 1) =~= s@.subrange(0, i as int).push(s@[i as int]));
            lemma_escape_chars_push(s@.subrange(0, i as int), s@[i as int]);
        }
        push_escaped(out, cs[i]);
        i = i + 1;
    }
    out.push('"');
    proof {
        assert(s@.subrange(0, s@.len() as int) =~= s@);
        assert(out@ =~= start + json_string(s@));
    }
}

/// Writes the object text of the given pairs, one member each, in order.
pub fn json_object_text(pairs: &Vec<KvPair>) -> (r: String)
    ensures
        r@ == json_object(pair_views(pairs@)),
{
    let mut out: Vec<char> = Vec::new();
    out.push('{');
    let mut i: usize = 0;
    while i < pairs.len()
        invariant
            i <= pairs@.len(),
            out@ =~= seq!['{'] + json_members(pair_views(pairs@).subrange(0, i as int)),
        decreases pairs@.len() - i,
    {
        let ghost written = pair_views(pairs@).subrange(0, i as int);
        proof {
            assert(pair_views(pairs@).subrange(0, i + 1) =~= written.push(pair_views(pairs@)[i as int]));
            lemma_members_push(written, pair_views(pairs@)[i as int]);
        }
        if i > 0 {
            out.push(',');
        }
        push_json_string(&mut out, pairs[i].k.as_str());
        out.push(':');
        push_json_string(&mut out, pairs[i].v.as_str());
        proof {
            assert(out@ =~= seq!['{'] + json_members(pair_views(pairs@).subrange(0, i + 1)));
        }
        i = i + 1;
    }
    out.push('}');
    proof {
        assert(pair_views(pairs@).subrange(0, pairs@.len() as int) =~= pair_views(pairs@));
        assert(out@ =~= json_object(pair_views(pairs@)));
    }
    string_of(&out)
}

/// Builds the JSON body of a POST: the pairs reduced to unique keys, last
/// occurrence winning, written as one JSON object.
pub fn build_json_body(pairs: &Vec<KvPair>) -> (r: String)
    ensures
        exists|ds: Seq<(Seq<char>, Seq<char>)>|
            dedup_ok(pair_views(pairs@), ds) && r@ == json_object(ds),
{
    let u = unique_pairs(pairs);
    let r = json_object_text(&u);
    proof {
        let ds = pair_views(u@);
        assert(dedup_ok(pair_views(pairs@), ds) && r@ == json_object(ds));
    }
    r
}

} // verus!
