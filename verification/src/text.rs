//! Text helpers shared by the relay: comparison, ordering and trimming of
//! strings, each stated over the characters (or the UTF-8 bytes) of its
//! arguments.
use vstd::prelude::*;
use vstd::string::*;
use vstd::utf8::*;

verus! {

/// The lowercase form of a text, as `str::to_lowercase` of the standard
/// library computes it from the Unicode tables.
pub uninterp spec fn lowercase(s: Seq<char>) -> Seq<char>;

/// Calls `str::to_lowercase`. The standard library documents the result as
/// the lowercase equivalent of the whole string; nothing is proved of it here,
/// the contract only gives the result its name.
#[verifier::external_body]
pub(crate) fn to_lowercase(s: &str) -> (out: String)
    ensures
        out@ == lowercase(s@),
{
    s.to_lowercase()
}

/// Lexicographic order on byte strings: the order of `str` and of `[u8]`.
pub open spec fn bytes_lt(a: Seq<u8>, b: Seq<u8>) -> bool
    decreases a.len(),
{
    if b.len() == 0 {
        false
    } else if a.len() == 0 {
        true
    } else if a[0] != b[0] {
        a[0] < b[0]
    } else {
        bytes_lt(a.drop_first(), b.drop_first())
    }
}

/// The order of two texts: that of their UTF-8 encodings.
pub open spec fn text_lt(a: Seq<char>, b: Seq<char>) -> bool {
    bytes_lt(encode_utf8(a), encode_utf8(b))
}

/// No byte string lies before itself.
pub proof fn bytes_lt_irreflexive(a: Seq<u8>)
    ensures
        !bytes_lt(a, a),
    decreases a.len(),
{
    if a.len() > 0 {
        bytes_lt_irreflexive(a.drop_first());
    }
}

/// The order on byte strings is transitive.
pub proof fn bytes_lt_transitive(a: Seq<u8>, b: Seq<u8>, c: Seq<u8>)
    requires
        bytes_lt(a, b),
        bytes_lt(b, c),
    ensures
        bytes_lt(a, c),
    decreases a.len(),
{
    if a.len() > 0 && a[0] == b[0] && b[0] == c[0] {
        bytes_lt_transitive(a.drop_first(), b.drop_first(), c.drop_first());
    }
}

/// Of two different byte strings one lies before the other.
pub proof fn bytes_lt_total(a: Seq<u8>, b: Seq<u8>)
    ensures
        a == b || bytes_lt(a, b) || bytes_lt(b, a),
    decreases a.len(),
{
    if a.len() > 0 && b.len() > 0 && a[0] == b[0] {
        bytes_lt_total(a.drop_first(), b.drop_first());
        if a.drop_first() == b.drop_first() {
            assert(a =~= seq![a[0]] + a.drop_first());
            assert(b =~= seq![b[0]] + b.drop_first());
        }
    } else if a.len() == 0 && b.len() == 0 {
        assert(a =~= b);
    }
}

/// Two texts with the same UTF-8 encoding are the same text.
pub proof fn encoding_is_injective(a: Seq<char>, b: Seq<char>)
    requires
        encode_utf8(a) == encode_utf8(b),
    ensures
        a == b,
{
    encode_utf8_decode_utf8(a);
    encode_utf8_decode_utf8(b);
}

/// Of two different texts one lies before the other, and never both.
pub proof fn text_lt_trichotomy(a: Seq<char>, b: Seq<char>)
    ensures
        a == b || text_lt(a, b) || text_lt(b, a),
        !(text_lt(a, b) && text_lt(b, a)),
        !text_lt(a, a),
{
    let x = encode_utf8(a);
    let y = encode_utf8(b);
    bytes_lt_total(x, y);
    if x == y {
        encoding_is_injective(a, b);
    }
    bytes_lt_irreflexive(x);
    if bytes_lt(x, y) && bytes_lt(y, x) {
        bytes_lt_transitive(x, y, x);
    }
}

/// Whether `a` comes before `b` in the order of `str`.
pub fn precedes(a: &str, b: &str) -> (r: bool)
    ensures
        r == text_lt(a@, b@),
{
    let x = a.as_bytes();
    let y = b.as_bytes();
    let mut i: usize = 0;
    proof {
        assert(x@.skip(0) =~= x@);
        assert(y@.skip(0) =~= y@);
    }
    while i < x.len() && i < y.len()
        invariant
            i <= x@.len(),
            i <= y@.len(),
            x@ == encode_utf8(a@),
            y@ == encode_utf8(b@),
            bytes_lt(x@, y@) == bytes_lt(x@.skip(i as int), y@.skip(i as int)),
        decreases x@.len() - i,
    {
        proof {
            assert(x@.skip(i as int).drop_first() =~= x@.skip(i + 1));
            assert(y@.skip(i as int).drop_first() =~= y@.skip(i + 1));
        }
        if x[i] != y[i] {
            return x[i] < y[i];
        }
        i += 1;
    }
    i < y.len()
}

/// Whether two texts are the same, character by character.
pub fn same_text(a: &str, b: &str) -> (r: bool)
    ensures
        r == (a@ == b@),
{
    let x = a.as_bytes();
    let y = b.as_bytes();
    if x.len() != y.len() {
        return false;
    }
    let mut i: usize = 0;
    while i < x.len()
        invariant
            i <= x@.len(),
            x@.len() == y@.len(),
            x@ == encode_utf8(a@),
            y@ == encode_utf8(b@),
            x@.take(i as int) == y@.take(i as int),
        decreases x@.len() - i,
    {
        if x[i] != y[i] {
            return false;
        }
        proof {
            assert(x@.take(i + 1) =~= x@.take(i as int).push(x@[i as int]));
            assert(y@.take(i + 1) =~= y@.take(i as int).push(y@[i as int]));
        }
        i += 1;
    }
    proof {
        assert(x@ =~= x@.take(i as int));
        assert(y@ =~= y@.take(i as int));
        encoding_is_injective(a@, b@);
    }
    true
}

/// The characters of `s`, in order.
pub fn chars_of(s: &str) -> (out: Vec<char>)
    ensures
        out@ == s@,
{
    broadcast use vstd::string::group_string_axioms;

    let mut out: Vec<char> = Vec::new();
    for c in it: s.chars()
        invariant
            it.seq() == s@,
            out@ == s@.take(it.index() as int),
    {
        out.push(c);
        assert(s@.take(it.index() + 1) == s@.take(it.index() as int).push(s@[it.index() as int]));
    }
    out
}

/// `s` without its leading copies of `prefix`, however many there are. An
/// empty prefix removes nothing.
pub open spec fn trim_start(s: Seq<char>, prefix: Seq<char>) -> Seq<char>
    decreases s.len(),
{
    if prefix.len() > 0 && prefix.is_prefix_of(s) {
        trim_start(s.skip(prefix.len() as int), prefix)
    } else {
        s
    }
}

/// `s` without its trailing run of the character `c`.
pub open spec fn trim_end(s: Seq<char>, c: char) -> Seq<char>
    decreases s.len(),
{
    if s.len() > 0 && s.last() == c {
        trim_end(s.drop_last(), c)
    } else {
        s
    }
}

/// Whether `prefix` stands in `s` at position `at`.
fn occurs_at(s: &Vec<char>, at: usize, prefix: &Vec<char>) -> (r: bool)
    requires
        at <= s@.len(),
    ensures
        r == prefix@.is_prefix_of(s@.skip(at as int)),
{
    let n = s.len();
    if prefix.len() > n - at {
        return false;
    }
    let mut i: usize = 0;
    while i < prefix.len()
        invariant
            n == s@.len(),
            at <= s@.len(),
            prefix@.len() <= s@.len() - at,
            i <= prefix@.len(),
            prefix@.take(i as int) == s@.skip(at as int).take(i as int),
        decreases prefix@.len() - i,
    {
        if prefix[i] != s[at + i] {
            proof {
                let rest = s@.skip(at as int);
                assert(rest[i as int] == s@[at + i]);
                if prefix@.is_prefix_of(rest) {
                    assert(rest.subrange(0, prefix@.len() as int)[i as int] == prefix@[i as int]);
                }
            }
            return false;
        }
        proof {
            let rest = s@.skip(at as int);
            assert(rest[i as int] == s@[at + i]);
            assert(prefix@.take(i + 1) =~= prefix@.take(i as int).push(prefix@[i as int]));
            assert(rest.take(i + 1) =~= rest.take(i as int).push(rest[i as int]));
        }
        i += 1;
    }
    proof {
        let rest = s@.skip(at as int);
        assert(prefix@ =~= prefix@.take(i as int));
        assert(rest.take(i as int) =~= rest.subrange(0, prefix@.len() as int));
    }
    true
}

/// Removes every leading copy of `prefix` from `s`.
pub fn trim_start_matches<'a>(s: &'a str, prefix: &str) -> (out: &'a str)
    ensures
        out@ == trim_start(s@, prefix@),
{
    let text = chars_of(s);
    let pat = chars_of(prefix);
    let n = text.len();
    let mut start: usize = 0;
    proof {
        assert(s@.skip(0) =~= s@);
    }
    if pat.len() > 0 {
        while occurs_at(&text, start, &pat)
            invariant
                n == text@.len(),
                text@ == s@,
                pat@ == prefix@,
                pat@.len() > 0,
                start <= text@.len(),
                trim_start(s@, prefix@) == trim_start(s@.skip(start as int), prefix@),
            decreases text@.len() - start,
        {
            proof {
                assert(s@.skip(start as int).skip(pat@.len() as int) =~= s@.skip(start + pat@.len()));
            }
            start += pat.len();
        }
    }
    proof {
        assert(s@.skip(start as int) =~= s@.subrange(start as int, s@.len() as int));
    }
    s.substring_char(start, n)
}

/// Removes the trailing run of the character `c` from `s`.
pub fn trim_end_matches<'a>(s: &'a str, c: char) -> (out: &'a str)
    ensures
        out@ == trim_end(s@, c),
{
    let text = chars_of(s);
    let mut end: usize = text.len();
    proof {
        assert(s@.take(end as int) =~= s@);
    }
    while end > 0 && text[end - 1] == c
        invariant
            text@ == s@,
            end <= text@.len(),
            trim_end(s@, c) == trim_end(s@.take(end as int), c),
        decreases end,
    {
        proof {
            assert(s@.take(end as int).drop_last() =~= s@.take(end - 1));
        }
        end -= 1;
    }
    proof {
        assert(s@.take(end as int) =~= s@.subrange(0, end as int));
    }
    s.substring_char(0, end)
}

/// A second copy of a list of texts.
pub fn clone_texts(texts: &Vec<String>) -> (out: Vec<String>)
    ensures
        out.deep_view() == texts.deep_view(),
{
    let mut out: Vec<String> = Vec::new();
    let mut i: usize = 0;
    while i < texts.len()
        invariant
            i <= texts@.len(),
            out@.len() == i,
            forall|j: int| 0 <= j < i ==> out@[j]@ == texts@[j]@,
        decreases texts@.len() - i,
    {
        out.push(texts[i].clone());
        i += 1;
    }
    assert(out.deep_view() =~= texts.deep_view());
    out
}

/// Whether each text of the list lies before the next one: the list is in
/// order and holds nothing twice.
pub open spec fn strictly_sorted(texts: Seq<Seq<char>>) -> bool {
    forall|i: int, j: int| 0 <= i < j < texts.len() ==> text_lt(texts[i], texts[j])
}

/// The list `sorted` with `x` put in its place, unless it is there already.
pub open spec fn insert_sorted(sorted: Seq<Seq<char>>, x: Seq<char>) -> Seq<Seq<char>>
    decreases sorted.len(),
{
    if sorted.len() == 0 {
        seq![x]
    } else if sorted.last() == x {
        sorted
    } else if text_lt(sorted.last(), x) {
        sorted.push(x)
    } else {
        insert_sorted(sorted.drop_last(), x).push(sorted.last())
    }
}

/// The texts of a list in the order of `str`, each one once.
pub open spec fn sort_dedup(texts: Seq<Seq<char>>) -> Seq<Seq<char>>
    decreases texts.len(),
{
    if texts.len() == 0 {
        Seq::empty()
    } else {
        insert_sorted(sort_dedup(texts.drop_last()), texts.last())
    }
}

/// Putting a text into an ordered list without repeats gives such a list
/// again, which holds the text and what the list held, and nothing else.
pub proof fn insert_sorted_keeps_order(sorted: Seq<Seq<char>>, x: Seq<char>)
    requires
        strictly_sorted(sorted),
    ensures
        strictly_sorted(insert_sorted(sorted, x)),
        forall|y: Seq<char>|
            insert_sorted(sorted, x).contains(y) <==> (sorted.contains(y) || y == x),
    decreases sorted.len(),
{
    let out = insert_sorted(sorted, x);
    if sorted.len() == 0 {
        assert(out[0] == x);
        assert forall|y: Seq<char>| out.contains(y) <==> (sorted.contains(y) || y == x) by {
            if y == x {
                assert(out[0] == y);
            }
        }
    } else if sorted.last() == x {
        assert(sorted[sorted.len() - 1] == x);
    } else if text_lt(sorted.last(), x) {
        assert forall|i: int, j: int| 0 <= i < j < out.len() implies text_lt(out[i], out[j]) by {
            if j == sorted.len() {
                if i < sorted.len() - 1 {
                    assert(text_lt(sorted[i], sorted[sorted.len() - 1]));
                    bytes_lt_transitive(
                        encode_utf8(sorted[i]),
                        encode_utf8(sorted.last()),
                        encode_utf8(x),
                    );
                }
            }
        }
        assert forall|y: Seq<char>| out.contains(y) <==> (sorted.contains(y) || y == x) by {
            if out.contains(y) {
                let k = choose|k: int| 0 <= k < out.len() && out[k] == y;
                if k < sorted.len() {
                    assert(sorted[k] == y);
                }
            }
            if sorted.contains(y) {
                let k = choose|k: int| 0 <= k < sorted.len() && sorted[k] == y;
                assert(out[k] == y);
            }
            if y == x {
                assert(out[sorted.len() as int] == y);
            }
        }
    } else {
        let front = sorted.drop_last();
        let last = sorted.last();
        let inner = insert_sorted(front, x);
        assert(forall|i: int| 0 <= i < front.len() ==> front[i] == sorted[i]);
        assert(strictly_sorted(front));
        insert_sorted_keeps_order(front, x);
        text_lt_trichotomy(last, x);
        assert forall|i: int, j: int| 0 <= i < j < out.len() implies text_lt(out[i], out[j]) by {
            if j == inner.len() {
                assert(inner.contains(inner[i]));
                if front.contains(inner[i]) {
                    let k = choose|k: int| 0 <= k < front.len() && front[k] == inner[i];
                    assert(text_lt(sorted[k], sorted[sorted.len() - 1]));
                }
            } else {
                assert(text_lt(inner[i], inner[j]));
            }
        }
        assert forall|y: Seq<char>| out.contains(y) <==> (sorted.contains(y) || y == x) by {
            if out.contains(y) {
                let k = choose|k: int| 0 <= k < out.len() && out[k] == y;
                if k < inner.len() {
                    assert(inner.contains(inner[k]));
                    if front.contains(y) {
                        let m = choose|m: int| 0 <= m < front.len() && front[m] == y;
                        assert(sorted[m] == y);
                    }
                } else {
                    assert(sorted[sorted.len() - 1] == y);
                }
            }
            if sorted.contains(y) {
                let k = choose|k: int| 0 <= k < sorted.len() && sorted[k] == y;
                if k < front.len() {
                    assert(front[k] == y);
                    assert(front.contains(y));
                    assert(inner.contains(y));
                    let m = choose|m: int| 0 <= m < inner.len() && inner[m] == y;
                    assert(out[m] == y);
                } else {
                    assert(out[inner.len() as int] == y);
                }
            }
            if y == x {
                assert(inner.contains(x));
                let m = choose|m: int| 0 <= m < inner.len() && inner[m] == x;
                assert(out[m] == y);
            }
        }
    }
}

/// The sorted list is in order, holds nothing twice, and holds exactly the
/// texts of the list it was made from.
pub proof fn sort_dedup_is_sorted(texts: Seq<Seq<char>>)
    ensures
        strictly_sorted(sort_dedup(texts)),
        forall|y: Seq<char>| sort_dedup(texts).contains(y) <==> texts.contains(y),
    decreases texts.len(),
{
    if texts.len() > 0 {
        let front = texts.drop_last();
        sort_dedup_is_sorted(front);
        insert_sorted_keeps_order(sort_dedup(front), texts.last());
        assert forall|y: Seq<char>| sort_dedup(texts).contains(y) <==> texts.contains(y) by {
            if texts.contains(y) {
                let k = choose|k: int| 0 <= k < texts.len() && texts[k] == y;
                if k < front.len() {
                    assert(front[k] == y);
                }
            }
            if front.contains(y) {
                let k = choose|k: int| 0 <= k < front.len() && front[k] == y;
                assert(texts[k] == y);
            }
            if y == texts.last() {
                assert(texts[texts.len() - 1] == y);
            }
        }
    }
}

/// An ordered list without repeats is fixed by the texts it holds: two such
/// lists that hold the same texts are the same list.
pub proof fn strictly_sorted_is_unique(a: Seq<Seq<char>>, b: Seq<Seq<char>>)
    requires
        strictly_sorted(a),
        strictly_sorted(b),
        forall|y: Seq<char>| a.contains(y) <==> b.contains(y),
    ensures
        a == b,
    decreases a.len(),
{
    if a.len() == 0 {
        if b.len() > 0 {
            assert(b.contains(b[0]));
        }
        assert(a =~= b);
    } else {
        let top = a.last();
        assert(a.contains(a[a.len() - 1]));
        assert(b.contains(top));
        let j = choose|j: int| 0 <= j < b.len() && b[j] == top;
        if j != b.len() - 1 {
            let above = b[b.len() - 1];
            assert(text_lt(b[j], above));
            assert(b.contains(above));
            assert(a.contains(above));
            let i = choose|i: int| 0 <= i < a.len() && a[i] == above;
            text_lt_trichotomy(top, above);
            if i < a.len() - 1 {
                assert(text_lt(a[i], a[a.len() - 1]));
            }
        }
        assert(b.last() == top);
        let a0 = a.drop_last();
        let b0 = b.drop_last();
        assert(forall|i: int| 0 <= i < a0.len() ==> a0[i] == a[i]);
        assert(forall|i: int| 0 <= i < b0.len() ==> b0[i] == b[i]);
        assert forall|y: Seq<char>| a0.contains(y) <==> b0.contains(y) by {
            text_lt_trichotomy(y, top);
            if a0.contains(y) {
                let i = choose|i: int| 0 <= i < a0.len() && a0[i] == y;
                assert(text_lt(a[i], a[a.len() - 1]));
                assert(a.contains(a[i]));
                assert(b.contains(y));
                let k = choose|k: int| 0 <= k < b.len() && b[k] == y;
                assert(b0[k] == y);
            }
            if b0.contains(y) {
                let i = choose|i: int| 0 <= i < b0.len() && b0[i] == y;
                assert(text_lt(b[i], b[b.len() - 1]));
                assert(b.contains(b[i]));
                assert(a.contains(y));
                let k = choose|k: int| 0 <= k < a.len() && a[k] == y;
                assert(a0[k] == y);
            }
        }
        strictly_sorted_is_unique(a0, b0);
        assert(a =~= a0.push(top));
        assert(b =~= b0.push(top));
    }
}

/// The sorted list does not depend on the order of the texts it is made
/// from, nor on how often each is given.
pub proof fn sort_dedup_ignores_order(a: Seq<Seq<char>>, b: Seq<Seq<char>>)
    requires
        forall|y: Seq<char>| a.contains(y) <==> b.contains(y),
    ensures
        sort_dedup(a) == sort_dedup(b),
{
    sort_dedup_is_sorted(a);
    sort_dedup_is_sorted(b);
    assert forall|y: Seq<char>| sort_dedup(a).contains(y) <==> sort_dedup(b).contains(y) by {
        assert(sort_dedup(a).contains(y) <==> a.contains(y));
        assert(sort_dedup(b).contains(y) <==> b.contains(y));
    }
    strictly_sorted_is_unique(sort_dedup(a), sort_dedup(b));
}

/// Puts `x` into its place in an ordered list, unless the list holds it.
pub fn insert_text(sorted: &mut Vec<String>, x: String)
    ensures
        final(sorted).deep_view() == insert_sorted(old(sorted).deep_view(), x@),
{
    let ghost before = sorted.deep_view();
    let mut i: usize = sorted.len();
    proof {
        assert(before.take(i as int) =~= before);
        assert(before.skip(i as int) =~= Seq::<Seq<char>>::empty());
        assert(insert_sorted(before, x@) =~= insert_sorted(before.take(i as int), x@) + before.skip(
            i as int,
        ));
    }
    let mut placed = false;
    while i > 0 && !placed
        invariant
            i <= sorted@.len(),
            sorted.deep_view() == before,
            insert_sorted(before, x@) == insert_sorted(before.take(i as int), x@) + before.skip(
                i as int,
            ),
            placed ==> i > 0 && text_lt(before[i - 1], x@) && before[i - 1] != x@,
        decreases i - if placed { 1int } else { 0int },
    {
        let ghost head = before.take(i as int);
        assert(head.last() == sorted@[i - 1]@);
        if same_text(sorted[i - 1].as_str(), x.as_str()) {
            assert(head + before.skip(i as int) =~= before);
            return ;
        }
        if precedes(sorted[i - 1].as_str(), x.as_str()) {
            placed = true;
        } else {
            proof {
                assert(head.drop_last() =~= before.take(i - 1));
                assert(insert_sorted(before.take(i - 1), x@).push(head.last()) + before.skip(
                    i as int,
                ) =~= insert_sorted(before.take(i - 1), x@) + before.skip(i - 1));
            }
            i -= 1;
        }
    }
    proof {
        let head = before.take(i as int);
        if i > 0 {
            assert(head.last() == before[i - 1]);
        }
        assert(insert_sorted(head, x@) =~= head.push(x@));
        assert(head.push(x@) + before.skip(i as int) =~= before.insert(i as int, x@));
    }
    sorted.insert(i, x);
    assert(sorted.deep_view() =~= before.insert(i as int, x@));
}

/// The texts of a list in the order of `str`, each one once.
pub fn sorted_unique(texts: Vec<String>) -> (out: Vec<String>)
    ensures
        out.deep_view() == sort_dedup(texts.deep_view()),
{
    let mut out: Vec<String> = Vec::new();
    let mut texts = texts;
    let ghost all = texts.deep_view();
    let mut i: usize = 0;
    proof {
        assert(all.take(0) =~= Seq::<Seq<char>>::empty());
        assert(out.deep_view() =~= Seq::<Seq<char>>::empty());
    }
    while i < texts.len()
        invariant
            i <= texts@.len(),
            texts.deep_view() == all,
            out.deep_view() == sort_dedup(all.take(i as int)),
        decreases texts@.len() - i,
    {
        proof {
            assert(all.take(i + 1).drop_last() =~= all.take(i as int));
            assert(all.take(i + 1).last() == texts@[i as int]@);
        }
        insert_text(&mut out, texts[i].clone());
        i += 1;
    }
    proof {
        assert(all.take(i as int) =~= all);
    }
    out
}

} // verus!
