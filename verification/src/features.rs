//! Feature-token splitting: turning a raw feature string such as `"a,b c"`
//! into the flat, order-preserving list of feature names `["a", "b", "c"]`.
//!
//! The rule: split on any whitespace run, split each resulting fragment on
//! commas, and discard empty fragments.

use vstd::prelude::*;

verus! {

/// A character with the Unicode `White_Space` property.
pub open spec fn is_whitespace_char(c: char) -> bool {
    let u = c as u32;
    (9 <= u && u <= 13) || u == 32 || u == 0x85 || u == 0xA0 || u == 0x1680 || (0x2000 <= u
        && u <= 0x200A) || u == 0x2028 || u == 0x2029 || u == 0x202F || u == 0x205F || u == 0x3000
}

/// A character that separates feature names: whitespace or a comma.
pub open spec fn is_feature_separator(c: char) -> bool {
    is_whitespace_char(c) || c == ','
}

/// The fragment accumulated so far, as zero or one completed feature names.
pub open spec fn emitted(cur: Seq<char>) -> Seq<Seq<char>> {
    if cur.len() == 0 {
        Seq::<Seq<char>>::empty()
    } else {
        seq![cur]
    }
}

/// Walk the characters of `s`, accumulating the current fragment in `cur`;
/// a separator ends the fragment, and empty fragments are discarded.
pub open spec fn split_acc(s: Seq<char>, cur: Seq<char>) -> Seq<Seq<char>>
    decreases s.len(),
{
    if s.len() == 0 {
        emitted(cur)
    } else if is_feature_separator(s[0]) {
        emitted(cur) + split_acc(s.skip(1), Seq::<char>::empty())
    } else {
        split_acc(s.skip(1), cur.push(s[0]))
    }
}

/// The feature names found in `s`: maximal runs of non-separator characters,
/// in order of appearance.
pub open spec fn split_features(s: Seq<char>) -> Seq<Seq<char>> {
    split_acc(s, Seq::<char>::empty())
}

/// The views of a sequence of strings.
pub open spec fn seq_views(v: Seq<String>) -> Seq<Seq<char>> {
    Seq::new(v.len(), |i: int| v[i]@)
}

/// The feature names joined into one string with single spaces between them.
pub open spec fn join_spaces(ts: Seq<Seq<char>>) -> Seq<char>
    decreases ts.len(),
{
    if ts.len() == 0 {
        Seq::<char>::empty()
    } else if ts.len() == 1 {
        ts[0]
    } else {
        ts[0] + seq![' '] + join_spaces(ts.skip(1))
    }
}

proof fn lemma_split_acc_separator_free(t: Seq<char>, u: Seq<char>, cur: Seq<char>)
    requires
        forall|k: int| 0 <= k < t.len() ==> !is_feature_separator(t[k]),
    ensures
        split_acc(t + u, cur) == split_acc(u, cur + t),
    decreases t.len(),
{
    if t.len() == 0 {
        assert(t + u =~= u);
        assert(cur + t =~= cur);
    } else {
        assert((t + u)[0] == t[0]);
        assert((t + u).skip(1) =~= t.skip(1) + u);
        assert forall|k: int| 0 <= k < t.skip(1).len() implies !is_feature_separator(
            t.skip(1)[k],
        ) by {
            assert(t.skip(1)[k] == t[k + 1]);
        }
        lemma_split_acc_separator_free(t.skip(1), u, cur.push(t[0]));
        assert(cur.push(t[0]) + t.skip(1) =~= cur + t);
    }
}

proof fn lemma_split_acc_separator_head(c: char, u: Seq<char>, cur: Seq<char>)
    requires
        is_feature_separator(c),
    ensures
        split_acc(seq![c] + u, cur) == emitted(cur) + split_acc(u, Seq::<char>::empty()),
{
    assert((seq![c] + u)[0] == c);
    assert((seq![c] + u).skip(1) =~= u);
}

/// Feature-token splitting is idempotent on already-split input: joining
/// feature names that are nonempty and free of separator characters with
/// single spaces, then splitting the result, gives back the original names.
pub proof fn lemma_split_join_identity(ts: Seq<Seq<char>>)
    requires
        forall|i: int| 0 <= i < ts.len() ==> ts[i].len() > 0,
        forall|i: int, k: int|
            0 <= i < ts.len() && 0 <= k < ts[i].len() ==> !is_feature_separator(ts[i][k]),
    ensures
        split_features(join_spaces(ts)) == ts,
    decreases ts.len(),
{
    if ts.len() == 0 {
        assert(split_acc(Seq::<char>::empty(), Seq::<char>::empty()) =~= ts);
    } else if ts.len() == 1 {
        lemma_split_acc_separator_free(ts[0], Seq::<char>::empty(), Seq::<char>::empty());
        assert(ts[0] + Seq::<char>::empty() =~= ts[0]);
        assert(Seq::<char>::empty() + ts[0] =~= ts[0]);
        assert(split_features(join_spaces(ts)) == emitted(ts[0]));
        assert(emitted(ts[0]) =~= ts);
    } else {
        let rest = ts.skip(1);
        assert forall|i: int| 0 <= i < rest.len() implies rest[i].len() > 0 by {
            assert(rest[i] == ts[i + 1]);
        }
        assert forall|i: int, k: int|
            0 <= i < rest.len() && 0 <= k < rest[i].len() implies !is_feature_separator(
            rest[i][k],
        ) by {
            assert(rest[i] == ts[i + 1]);
        }
        assert(join_spaces(ts) =~= ts[0] + (seq![' '] + join_spaces(rest)));
        lemma_split_acc_separator_free(
            ts[0],
            seq![' '] + join_spaces(rest),
            Seq::<char>::empty(),
        );
        assert(Seq::<char>::empty() + ts[0] =~= ts[0]);
        assert(' ' as u32 == 32);
        lemma_split_acc_separator_head(' ', join_spaces(rest), ts[0]);
        lemma_split_join_identity(rest);
        assert(emitted(ts[0]) + rest =~= ts);
    }
}

/// Decide the Unicode `White_Space` property of a character.
pub fn is_whitespace_char_exec(c: char) -> (r: bool)
    ensures
        r == is_whitespace_char(c),
{
    let u = c as u32;
    (9 <= u && u <= 13) || u == 32 || u == 0x85 || u == 0xA0 || u == 0x1680 || (0x2000 <= u
        && u <= 0x200A) || u == 0x2028 || u == 0x2029 || u == 0x202F || u == 0x205F || u == 0x3000
}

/// Decide whether a character separates feature names.
pub fn is_feature_separator_exec(c: char) -> (r: bool)
    ensures
        r == is_feature_separator(c),
{
    is_whitespace_char_exec(c) || c == ','
}

/// Split a raw feature string into the flat list of feature names it holds:
/// split on whitespace runs and commas, discarding empty fragments.
pub fn parse_feature(feature: &str) -> (r: Vec<String>)
    ensures
        seq_views(r@) == split_features(feature@),
{
    let n = feature.unicode_len();
    let mut out: Vec<String> = Vec::new();
    let mut start: usize = 0;
    let mut i: usize = 0;
    proof {
        assert(feature@.skip(0) =~= feature@);
        assert(feature@.subrange(0, 0) =~= Seq::<char>::empty());
        assert(seq_views(out@) + split_acc(feature@, Seq::<char>::empty()) =~= split_acc(
            feature@,
            Seq::<char>::empty(),
        ));
    }
    while i < n
        invariant
            start <= i <= n,
            n == feature@.len(),
            forall|k: int| start <= k < i ==> !is_feature_separator(feature@[k]),
            split_features(feature@) == seq_views(out@) + split_acc(
                feature@.skip(i as int),
                feature@.subrange(start as int, i as int),
            ),
        decreases n - i,
    {
        let ghost s = feature@;
        let ghost cur = s.subrange(start as int, i as int);
        proof {
            assert(s.skip(i as int)[0] == s[i as int]);
            assert(s.skip(i as int).skip(1) =~= s.skip(i as int + 1));
        }
        let c = feature.get_char(i);
        if is_feature_separator_exec(c) {
            if start < i {
                let frag = feature.substring_char(start, i);
                let owned = frag.to_owned();
                let ghost out0 = out@;
                proof {
                    assert(owned@ == cur);
                }
                out.push(owned);
                proof {
                    assert(seq_views(out@) =~= seq_views(out0) + seq![cur]);
                }
            }
            proof {
                assert(emitted(cur) + split_acc(s.skip(i as int + 1), Seq::<char>::empty())
                    == split_acc(s.skip(i as int), cur));
                if start < i {
                } else {
                    assert(cur =~= Seq::<char>::empty());
                    assert(emitted(cur) =~= Seq::<Seq<char>>::empty());
                }
                assert(s.subrange(i as int + 1, i as int + 1) =~= Seq::<char>::empty());
            }
            i = i + 1;
            start = i;
            proof {
                assert(seq_views(out@) + split_acc(s.skip(i as int), s.subrange(
                    i as int,
                    i as int,
                )) =~= split_features(s));
            }
        } else {
            proof {
                assert(split_acc(s.skip(i as int), cur) == split_acc(
                    s.skip(i as int + 1),
                    cur.push(s[i as int]),
                ));
                assert(cur.push(s[i as int]) =~= s.subrange(start as int, i as int + 1));
            }
            i = i + 1;
        }
    }
    proof {
        let s = feature@;
        assert(s.skip(n as int) =~= Seq::<char>::empty());
    }
    if start < n {
        let frag = feature.substring_char(start, n);
        let owned = frag.to_owned();
        let ghost out0 = out@;
        out.push(owned);
        proof {
            let s = feature@;
            let cur = s.subrange(start as int, n as int);
            assert(seq_views(out@) =~= seq_views(out0) + seq![cur]);
            assert(seq_views(out@) =~= seq_views(out0) + emitted(cur));
        }
    } else {
        proof {
            let s = feature@;
            assert(s.subrange(start as int, n as int) =~= Seq::<char>::empty());
            assert(seq_views(out@) + Seq::<Seq<char>>::empty() =~= seq_views(out@));
        }
    }
    proof {
        assert(seq_views(out@) =~= split_features(feature@));
    }
    out
}

} // verus!
