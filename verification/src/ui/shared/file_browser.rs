//! File-name checks and the case-insensitive name sort shared by the file
//! browsers.
use vstd::prelude::*;

use crate::std_calls::{lowercase_str, str_to_lowercase};
use crate::ui::shared::ranking::{
    chars_less, chars_lt, lemma_chars_lt_irreflexive, lemma_chars_lt_total,
    lemma_chars_lt_transitive,
};
use crate::utf8::str_chars;

verus! {

/// `t` holds no path component other than the current directory: every run
/// of characters between slashes is empty or a single `.`.
pub open spec fn only_empty_or_dot_segments(t: Seq<char>) -> bool {
    forall|i: int|
        0 <= i < t.len() && #[trigger] t[i] != '/' ==> {
            &&& t[i] == '.'
            &&& (i == 0 || t[i - 1] == '/')
            &&& (i + 1 == t.len() || t[i + 1] == '/')
        }
}

/// Position of the first `/` in `s`, or its length when there is none.
pub open spec fn first_slash(s: Seq<char>) -> int
    decreases s.len(),
{
    if s.len() == 0 {
        0
    } else {
        let f = first_slash(s.drop_last());
        if f < s.len() - 1 {
            f
        } else if s.last() == '/' {
            s.len() - 1
        } else {
            s.len() as int
        }
    }
}

/// A position with no slash before it and a slash (or the end) at it is the
/// first slash.
pub proof fn lemma_first_slash(s: Seq<char>, k: int)
    requires
        0 <= k <= s.len(),
        k == s.len() || s[k] == '/',
        forall|j: int| 0 <= j < k ==> #[trigger] s[j] != '/',
    ensures
        first_slash(s) == k,
    decreases s.len(),
{
    if s.len() > 0 {
        let t = s.drop_last();
        if k < s.len() - 1 {
            lemma_first_slash(t, k);
        } else {
            assert forall|j: int| 0 <= j < t.len() implies #[trigger] t[j] != '/' by {
                assert(t[j] == s[j]);
            }
            lemma_first_slash(t, t.len() as int);
        }
    }
}

/// `name`, read as a path, has exactly one component and it is a normal
/// name: it is not empty, does not start at the root, its first segment is
/// neither `.` nor `..`, and nothing but empty or `.` segments follows (a
/// trailing slash or `/.` does not add a component).
pub open spec fn is_single_name(name: Seq<char>) -> bool {
    let k = first_slash(name);
    &&& name.len() > 0
    &&& name[0] != '/'
    &&& name.take(k) != seq!['.']
    &&& name.take(k) != seq!['.', '.']
    &&& only_empty_or_dot_segments(name.skip(k))
}

/// Whether `name` is a single path component naming a file or directory.
pub fn is_valid_single_name(name: &str) -> (r: bool)
    ensures
        r == is_single_name(name@),
{
    let chars = crate::utf8::str_chars(name);
    let n = chars.len();
    if n == 0 || chars[0] == '/' {
        return false;
    }
    let mut k: usize = 0;
    while k < n && chars[k] != '/'
        invariant
            k <= n,
            n == chars@.len(),
            forall|j: int| 0 <= j < k ==> #[trigger] chars@[j] != '/',
        decreases n - k,
    {
        k = k + 1;
    }
    proof {
        lemma_first_slash(chars@, k as int);
    }
    let ghost first = chars@.take(k as int);
    if k == 1 && chars[0] == '.' {
        proof {
            assert(first =~= seq!['.']);
        }
        return false;
    }
    if k == 2 && chars[0] == '.' && chars[1] == '.' {
        proof {
            assert(first =~= seq!['.', '.']);
        }
        return false;
    }
    proof {
        if first == seq!['.'] {
            assert(first[0] == '.');
        }
        if first == seq!['.', '.'] {
            assert(first[0] == '.' && first[1] == '.');
        }
    }
    let ghost rest = chars@.skip(k as int);
    proof {
        assert(name@ == chars@);
        assert(first_slash(name@) == k);
        assert(name@.len() > 0 && name@[0] != '/');
        assert(name@.take(k as int) == first);
        if first == seq!['.'] {
            assert(first.len() == 1 && first[0] == '.');
            assert(chars@[0] == '.');
        }
        if first == seq!['.', '.'] {
            assert(first.len() == 2 && first[0] == '.' && first[1] == '.');
            assert(chars@[0] == '.' && chars@[1] == '.');
        }
    }
    assert(is_single_name(name@) <==> only_empty_or_dot_segments(rest));
    let mut i: usize = k;
    while i < n
        invariant
            k <= i <= n,
            n == chars@.len(),
            chars@ == name@,
            is_single_name(name@) <==> only_empty_or_dot_segments(rest),
            rest == chars@.skip(k as int),
            forall|q: int|
                0 <= q < i - k && #[trigger] rest[q] != '/' ==> {
                    &&& rest[q] == '.'
                    &&& (q == 0 || rest[q - 1] == '/')
                    &&& (q + 1 == rest.len() || rest[q + 1] == '/')
                },
        decreases n - i,
    {
        let c = chars[i];
        if c != '/' {
            let ok = c == '.' && (i == k || chars[i - 1] == '/') && (i + 1 == n || chars[i + 1]
                == '/');
            if !ok {
                proof {
                    assert(rest[i - k] == c);
                    if i > k {
                        assert(rest[i - k - 1] == chars@[i - 1]);
                    }
                    if i + 1 < n {
                        assert(rest[i - k + 1] == chars@[i + 1]);
                    }
                    assert(!only_empty_or_dot_segments(rest));
                }
                return false;
            }
            proof {
                assert(rest[i - k] == c);
                if i > k {
                    assert(rest[i - k - 1] == chars@[i - 1]);
                }
                if i + 1 < n {
                    assert(rest[i - k + 1] == chars@[i + 1]);
                }
            }
        }
        i = i + 1;
    }
    proof {
        assert(only_empty_or_dot_segments(rest));
        assert(name@ == chars@);
    }
    true
}

/// `s` with `x` put after the last element whose key does not come after
/// `x`'s key (and first when every key comes after it).
pub open spec fn insert_by_key<T>(s: Seq<T>, x: T, key: spec_fn(T) -> Seq<char>) -> Seq<T>
    decreases s.len(),
{
    if s.len() == 0 {
        seq![x]
    } else if chars_lt(key(x), key(s.last())) {
        insert_by_key(s.drop_last(), x, key).push(s.last())
    } else {
        s.push(x)
    }
}

/// The stable sort of `s` by `key`: each element, in order, inserted after
/// the elements already placed whose key does not come after its own.
pub open spec fn sort_by_key_stable<T>(s: Seq<T>, key: spec_fn(T) -> Seq<char>) -> Seq<T>
    decreases s.len(),
{
    if s.len() == 0 {
        s
    } else {
        insert_by_key(sort_by_key_stable(s.drop_last(), key), s.last(), key)
    }
}

/// No key in `s` comes before the key of an element ahead of it.
pub open spec fn sorted_by_key<T>(s: Seq<T>, key: spec_fn(T) -> Seq<char>) -> bool {
    forall|i: int, j: int| 0 <= i < j < s.len() ==> !chars_lt(#[trigger] key(s[j]), #[trigger] key(s[i]))
}

proof fn lemma_chars_lt_asym(a: Seq<char>, b: Seq<char>)
    requires
        chars_lt(a, b),
    ensures
        !chars_lt(b, a),
{
    if chars_lt(b, a) {
        lemma_chars_lt_transitive(a, b, a);
        lemma_chars_lt_irreflexive(a);
    }
}

/// Inserting adds exactly the one element.
proof fn lemma_insert_multiset<T>(s: Seq<T>, x: T, key: spec_fn(T) -> Seq<char>)
    ensures
        insert_by_key(s, x, key).to_multiset() == s.to_multiset().insert(x),
        insert_by_key(s, x, key).len() == s.len() + 1,
    decreases s.len(),
{
    broadcast use vstd::seq_lib::group_to_multiset_ensures;
    if s.len() == 0 {
        assert(seq![x] =~= Seq::<T>::empty().push(x));
    } else if chars_lt(key(x), key(s.last())) {
        lemma_insert_multiset(s.drop_last(), x, key);
        assert(s =~= s.drop_last().push(s.last()));
    }
}

/// Inserting into a sorted sequence keeps it sorted.
proof fn lemma_insert_sorted<T>(s: Seq<T>, x: T, key: spec_fn(T) -> Seq<char>)
    requires
        sorted_by_key(s, key),
    ensures
        sorted_by_key(insert_by_key(s, x, key), key),
    decreases s.len(),
{
    broadcast use vstd::seq_lib::group_to_multiset_ensures;
    let r = insert_by_key(s, x, key);
    if s.len() == 0 {
    } else if chars_lt(key(x), key(s.last())) {
        let t = s.drop_last();
        let l = s.last();
        assert(sorted_by_key(t, key)) by {
            assert forall|i: int, j: int| 0 <= i < j < t.len() implies !chars_lt(#[trigger] key(t[j]), #[trigger] key(t[i])) by {
                assert(t[i] == s[i] && t[j] == s[j]);
            }
        }
        lemma_insert_sorted(t, x, key);
        lemma_insert_multiset(t, x, key);
        let u = insert_by_key(t, x, key);
        assert forall|i: int| 0 <= i < u.len() implies !chars_lt(key(l), #[trigger] key(u[i])) by {
            assert(u.to_multiset().count(u[i]) > 0);
            assert(t.to_multiset().insert(x).count(u[i]) > 0);
            if u[i] == x {
                lemma_chars_lt_asym(key(x), key(l));
            } else {
                assert(t.to_multiset().count(u[i]) > 0);
                assert(t.contains(u[i]));
                let k = choose|k: int| 0 <= k < t.len() && t[k] == u[i];
                assert(s[k] == t[k]);
                assert(s[s.len() - 1] == l);
            }
        }
        assert forall|i: int, j: int| 0 <= i < j < r.len() implies !chars_lt(#[trigger] key(r[j]), #[trigger] key(r[i])) by {
            if j < u.len() {
                assert(r[i] == u[i] && r[j] == u[j]);
            } else {
                assert(r[j] == l);
                assert(r[i] == u[i]);
            }
        }
    } else {
        assert forall|i: int, j: int| 0 <= i < j < r.len() implies !chars_lt(#[trigger] key(r[j]), #[trigger] key(r[i])) by {
            if j < s.len() {
                assert(r[i] == s[i] && r[j] == s[j]);
            } else {
                assert(r[j] == x);
                assert(r[i] == s[i]);
                let l = s.last();
                if chars_lt(key(x), key(s[i])) {
                    if i < s.len() - 1 {
                        assert(!chars_lt(key(s[s.len() - 1]), key(s[i])));
                        lemma_chars_lt_total(key(s[i]), key(l));
                        if chars_lt(key(s[i]), key(l)) {
                            lemma_chars_lt_transitive(key(x), key(s[i]), key(l));
                        }
                    }
                }
            }
        }
    }
}

/// A stable sort by key keeps every element, as often as it occurred.
pub proof fn lemma_sort_by_key_permutes<T>(s: Seq<T>, key: spec_fn(T) -> Seq<char>)
    ensures
        sort_by_key_stable(s, key).to_multiset() == s.to_multiset(),
        sort_by_key_stable(s, key).len() == s.len(),
    decreases s.len(),
{
    broadcast use vstd::seq_lib::group_to_multiset_ensures;
    if s.len() > 0 {
        lemma_sort_by_key_permutes(s.drop_last(), key);
        lemma_insert_multiset(sort_by_key_stable(s.drop_last(), key), s.last(), key);
        assert(s =~= s.drop_last().push(s.last()));
    }
}

/// A stable sort by key puts the keys in order.
pub proof fn lemma_sort_by_key_sorted<T>(s: Seq<T>, key: spec_fn(T) -> Seq<char>)
    ensures
        sorted_by_key(sort_by_key_stable(s, key), key),
    decreases s.len(),
{
    if s.len() > 0 {
        lemma_sort_by_key_sorted(s.drop_last(), key);
        lemma_insert_sorted(sort_by_key_stable(s.drop_last(), key), s.last(), key);
    }
}

/// The name that `name_of` gives to `t`.
pub open spec fn name_given<T, F: Fn(&T) -> &str>(name_of: F, t: T) -> Seq<char> {
    (choose|r: &str| name_of.ensures((&t,), r))@
}

/// `name_of` has given `t` a name.
pub open spec fn gives_name<T, F: Fn(&T) -> &str>(name_of: F, t: T) -> bool {
    exists|r: &str| name_of.ensures((&t,), r)
}

/// The case-folded name that `name_of` gives to `t`.
pub open spec fn folded_name<T, F: Fn(&T) -> &str>(name_of: F) -> spec_fn(T) -> Seq<char> {
    |t: T| lowercase_str(name_given(name_of, t))
}

/// When every key after position `j` comes after `x`'s key, inserting `x`
/// lands right at `j`.
proof fn lemma_insert_at<T>(s: Seq<T>, x: T, key: spec_fn(T) -> Seq<char>, j: int)
    requires
        0 <= j <= s.len(),
        forall|k: int| j <= k < s.len() ==> chars_lt(key(x), #[trigger] key(s[k])),
        j == 0 || !chars_lt(key(x), key(s[j - 1])),
    ensures
        insert_by_key(s, x, key) == s.take(j).push(x) + s.skip(j),
    decreases s.len(),
{
    if s.len() == 0 {
        assert(s.take(j).push(x) + s.skip(j) =~= seq![x]);
    } else if j == s.len() {
        assert(s.take(j) =~= s);
        assert(s.skip(j) =~= Seq::<T>::empty());
        assert(s.take(j).push(x) + s.skip(j) =~= s.push(x));
    } else {
        assert(chars_lt(key(x), key(s[s.len() - 1])));
        let t = s.drop_last();
        assert forall|k: int| j <= k < t.len() implies chars_lt(key(x), #[trigger] key(t[k])) by {
            assert(t[k] == s[k]);
        }
        if j > 0 {
            assert(t[j - 1] == s[j - 1]);
        }
        lemma_insert_at(t, x, key, j);
        assert(t.take(j) =~= s.take(j));
        assert((t.take(j).push(x) + t.skip(j)).push(s.last()) =~= s.take(j).push(x) + s.skip(j));
    }
}

/// Sorts `items` by the lowercase form of the name `name_of` gives each of
/// them; items whose names fold to the same text keep their order.
pub fn sort_by_name_case_insensitive<T, F: Fn(&T) -> &str>(items: &mut Vec<T>, name_of: F)
    requires
        forall|t: &T| name_of.requires((t,)),
        forall|t: &T, a: &str, b: &str|
            name_of.ensures((t,), a) && name_of.ensures((t,), b) ==> a@ == b@,
    ensures
        final(items)@ == sort_by_key_stable(old(items)@, folded_name(name_of)),
        forall|i: int| 0 <= i < old(items)@.len() ==> #[trigger] gives_name(name_of, old(items)@[i]),
{
    let ghost key = folded_name(name_of);
    let ghost orig = items@;
    let mut src: Vec<T> = Vec::new();
    std::mem::swap(&mut src, items);
    let mut out: Vec<T> = Vec::new();
    let mut keys: Vec<Vec<char>> = Vec::new();
    let ghost mut n: int = 0;
    proof {
        assert(src@.skip(0) =~= src@);
        assert(orig.take(0) =~= Seq::<T>::empty());
    }
    while src.len() > 0
        invariant
            0 <= n <= orig.len(),
            src@ == orig.skip(n),
            out@ == sort_by_key_stable(orig.take(n), key),
            keys@.len() == out@.len(),
            forall|k: int| 0 <= k < keys@.len() ==> (#[trigger] keys@[k])@ == key(out@[k]),
            forall|t: &T| name_of.requires((t,)),
            forall|t: &T, a: &str, b: &str|
                name_of.ensures((t,), a) && name_of.ensures((t,), b) ==> a@ == b@,
            key == folded_name(name_of),
            forall|i: int| 0 <= i < n ==> #[trigger] gives_name(name_of, orig[i]),
        decreases src@.len(),
    {
        let x = src.remove(0);
        proof {
            assert(x == orig[n]);
        }
        let name = name_of(&x);
        let folded = str_chars(str_to_lowercase(name).as_str());
        proof {
            assert(name_of.ensures((&x,), name));
            let c = choose|r: &str| name_of.ensures((&x,), r);
            assert(c@ == name@);
            assert(folded@ == key(x));
        }
        let mut j: usize = out.len();
        while j > 0 && chars_less(&folded, &keys[j - 1])
            invariant
                j <= out@.len(),
                keys@.len() == out@.len(),
                forall|k: int| 0 <= k < keys@.len() ==> (#[trigger] keys@[k])@ == key(out@[k]),
                folded@ == key(x),
                forall|k: int| j <= k < out@.len() ==> chars_lt(key(x), #[trigger] key(out@[k])),
            decreases j,
        {
            j = j - 1;
        }
        proof {
            if j > 0 {
                assert(!chars_lt(folded@, keys@[j - 1]@));
            }
            lemma_insert_at(out@, x, key, j as int);
            let t = orig.take(n + 1);
            assert(t.drop_last() =~= orig.take(n));
            assert(t.last() == x);
            assert(src@ =~= orig.skip(n + 1));
        }
        let ghost before_keys = keys@;
        let ghost before_out = out@;
        out.insert(j, x);
        keys.insert(j, folded);
        proof {
            assert(out@ =~= before_out.take(j as int).push(x) + before_out.skip(j as int));
            assert forall|k: int| 0 <= k < keys@.len() implies (#[trigger] keys@[k])@ == key(out@[k]) by {
                if k < j {
                    assert(keys@[k] == before_keys[k]);
                } else if k > j {
                    assert(keys@[k] == before_keys[k - 1]);
                }
            }
            assert forall|i: int| 0 <= i < n + 1 implies #[trigger] gives_name(name_of, orig[i]) by {
                if i == n {
                    assert(name_of.ensures((&orig[i],), name));
                }
            }
            n = n + 1;
        }
    }
    proof {
        assert(orig.take(n) =~= orig);
    }
    *items = out;
}

/// Inserting depends only on the keys of the elements involved.
proof fn lemma_insert_congruent<T>(s: Seq<T>, x: T, k1: spec_fn(T) -> Seq<char>, k2: spec_fn(T) -> Seq<char>)
    requires
        forall|i: int| 0 <= i < s.len() ==> k1(#[trigger] s[i]) == k2(s[i]),
        k1(x) == k2(x),
    ensures
        insert_by_key(s, x, k1) == insert_by_key(s, x, k2),
    decreases s.len(),
{
    if s.len() > 0 {
        let t = s.drop_last();
        assert(k1(s[s.len() - 1]) == k2(s[s.len() - 1]));
        assert forall|i: int| 0 <= i < t.len() implies k1(#[trigger] t[i]) == k2(t[i]) by {
            assert(t[i] == s[i]);
        }
        lemma_insert_congruent(t, x, k1, k2);
    }
}

/// Two keys that agree on every element of `s` sort it alike.
pub proof fn lemma_sort_by_key_congruent<T>(s: Seq<T>, k1: spec_fn(T) -> Seq<char>, k2: spec_fn(T) -> Seq<char>)
    requires
        forall|i: int| 0 <= i < s.len() ==> k1(#[trigger] s[i]) == k2(s[i]),
    ensures
        sort_by_key_stable(s, k1) == sort_by_key_stable(s, k2),
    decreases s.len(),
{
    broadcast use vstd::seq_lib::group_to_multiset_ensures;
    if s.len() > 0 {
        let t = s.drop_last();
        assert forall|i: int| 0 <= i < t.len() implies k1(#[trigger] t[i]) == k2(t[i]) by {
            assert(t[i] == s[i]);
        }
        lemma_sort_by_key_congruent(t, k1, k2);
        let u = sort_by_key_stable(t, k1);
        lemma_sort_by_key_permutes(t, k1);
        assert forall|i: int| 0 <= i < u.len() implies k1(#[trigger] u[i]) == k2(u[i]) by {
            assert(u.to_multiset().count(u[i]) > 0);
            assert(t.contains(u[i]));
            let j = choose|j: int| 0 <= j < t.len() && t[j] == u[i];
            assert(k1(t[j]) == k2(t[j]));
        }
        assert(k1(s[s.len() - 1]) == k2(s[s.len() - 1]));
        lemma_insert_congruent(u, s.last(), k1, k2);
    }
}

} // verus!
