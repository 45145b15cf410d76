//! Text primitives of the renderer: escaping, case changes, decimal
//! numbers, and a stable sort by a text key.

use vstd::prelude::*;

verus! {

/// Relies on `str::chars`, collected: the characters of `s` in order.
#[verifier::external_body]
pub(crate) fn chars_of(s: &str) -> (r: Vec<char>)
    ensures
        r@ == s@,
{
    s.chars().collect()
}

/// Relies on `String::push`: appends one character.
#[verifier::external_body]
pub(crate) fn push_char(s: &mut String, c: char)
    ensures
        final(s)@ == old(s)@.push(c),
{
    s.push(c)
}

/// What `char::to_uppercase` gives for `c` (one or more characters).
pub uninterp spec fn char_upper(c: char) -> Seq<char>;

/// What `str::to_lowercase` gives for `s`.
pub uninterp spec fn lower_of(s: Seq<char>) -> Seq<char>;

/// Relies on `char::to_uppercase`: the uppercase mapping of one character.
#[verifier::external_body]
fn upper_char(c: char) -> (r: String)
    ensures
        r@ == char_upper(c),
{
    c.to_uppercase().collect()
}

/// Relies on `str::to_lowercase`: the lowercase form of a string, which
/// depends on its characters alone.
#[verifier::external_body]
pub(crate) fn to_lower(s: &str) -> (r: String)
    ensures
        r@ == lower_of(s@),
{
    s.to_lowercase()
}

pub open spec fn escape_char(c: char) -> Seq<char> {
    if c == '&' {
        "&amp;"@
    } else if c == '<' {
        "&lt;"@
    } else if c == '>' {
        "&gt;"@
    } else if c == '"' {
        "&quot;"@
    } else {
        seq![c]
    }
}

/// `s` with `&`, `<`, `>` and `"` written as entities.
pub open spec fn escape(s: Seq<char>) -> Seq<char>
    decreases s.len(),
{
    if s.len() == 0 {
        Seq::empty()
    } else {
        escape(s.drop_last()) + escape_char(s.last())
    }
}

/// `s` with its first character in upper case.
pub open spec fn capitalized(s: Seq<char>) -> Seq<char> {
    if s.len() == 0 {
        Seq::empty()
    } else {
        char_upper(s[0]) + s.drop_first()
    }
}

/// `s` with every character in upper case.
pub open spec fn upper_text(s: Seq<char>) -> Seq<char>
    decreases s.len(),
{
    if s.len() == 0 {
        Seq::empty()
    } else {
        upper_text(s.drop_last()) + char_upper(s.last())
    }
}

/// Appends `s` to `out` with HTML's special characters escaped.
pub fn push_escaped(out: &mut String, s: &str)
    ensures
        final(out)@ == old(out)@ + escape(s@),
{
    let cs = chars_of(s);
    let ghost start = out@;
    let mut i: usize = 0;
    while i < cs.len()
        invariant
            i <= cs.len(),
            cs@ == s@,
            out@ == start + escape(cs@.subrange(0, i as int)),
        decreases cs.len() - i,
    {
        let c = cs[i];
        if c == '&' {
            out.append("&amp;");
        } else if c == '<' {
            out.append("&lt;");
        } else if c == '>' {
            out.append("&gt;");
        } else if c == '"' {
            out.append("&quot;");
        } else {
            push_char(out, c);
        }
        proof {
            let next = cs@.subrange(0, i + 1);
            assert(next.drop_last() =~= cs@.subrange(0, i as int));
            assert(out@ =~= start + escape(next));
        }
        i = i + 1;
    }
    assert(cs@.subrange(0, cs.len() as int) =~= cs@);
}

/// `s` with HTML's special characters escaped.
pub fn escape_html(s: &str) -> (r: String)
    ensures
        r@ == escape(s@),
{
    let mut out = String::new();
    push_escaped(&mut out, s);
    assert(out@ =~= escape(s@));
    out
}

/// `s` with its first character in upper case.
pub fn capitalize(s: &str) -> (r: String)
    ensures
        r@ == capitalized(s@),
{
    let cs = chars_of(s);
    if cs.len() == 0 {
        return String::new();
    }
    let mut out = upper_char(cs[0]);
    let ghost head = out@;
    let mut i: usize = 1;
    while i < cs.len()
        invariant
            1 <= i <= cs.len(),
            cs@ == s@,
            out@ == head + cs@.subrange(1, i as int),
        decreases cs.len() - i,
    {
        push_char(&mut out, cs[i]);
        assert(out@ =~= head + cs@.subrange(1, i + 1));
        i = i + 1;
    }
    assert(cs@.subrange(1, cs.len() as int) =~= s@.drop_first());
    out
}

/// `s` with every character in upper case.
pub fn to_upper(s: &str) -> (r: String)
    ensures
        r@ == upper_text(s@),
{
    let cs = chars_of(s);
    let mut out = String::new();
    let mut i: usize = 0;
    while i < cs.len()
        invariant
            i <= cs.len(),
            cs@ == s@,
            out@ == upper_text(cs@.subrange(0, i as int)),
        decreases cs.len() - i,
    {
        let u = upper_char(cs[i]);
        out.append(u.as_str());
        proof {
            let next = cs@.subrange(0, i + 1);
            assert(next.drop_last() =~= cs@.subrange(0, i as int));
        }
        i = i + 1;
    }
    assert(cs@.subrange(0, cs.len() as int) =~= cs@);
    out
}

pub open spec fn digit_char(d: nat) -> char {
    if d == 0 {
        '0'
    } else if d == 1 {
        '1'
    } else if d == 2 {
        '2'
    } else if d == 3 {
        '3'
    } else if d == 4 {
        '4'
    } else if d == 5 {
        '5'
    } else if d == 6 {
        '6'
    } else if d == 7 {
        '7'
    } else if d == 8 {
        '8'
    } else {
        '9'
    }
}

/// The decimal numeral of `n`, without leading zeros.
pub open spec fn decimal(n: nat) -> Seq<char>
    decreases n,
{
    if n < 10 {
        seq![digit_char(n)]
    } else {
        decimal(n / 10) + seq![digit_char(n % 10)]
    }
}

fn digit(d: usize) -> (c: char)
    requires
        d < 10,
    ensures
        c == digit_char(d as nat),
{
    if d == 0 {
        '0'
    } else if d == 1 {
        '1'
    } else if d == 2 {
        '2'
    } else if d == 3 {
        '3'
    } else if d == 4 {
        '4'
    } else if d == 5 {
        '5'
    } else if d == 6 {
        '6'
    } else if d == 7 {
        '7'
    } else if d == 8 {
        '8'
    } else {
        '9'
    }
}

/// Appends the decimal numeral of `n`.
pub fn push_decimal(out: &mut String, n: usize)
    ensures
        final(out)@ == old(out)@ + decimal(n as nat),
{
    push_decimal_u64(out, n as u64);
}

/// Appends the decimal numeral of `n`.
pub fn push_decimal_u64(out: &mut String, n: u64)
    ensures
        final(out)@ == old(out)@ + decimal(n as nat),
    decreases n,
{
    if n >= 10 {
        push_decimal_u64(out, n / 10);
    }
    push_char(out, digit((n % 10) as usize));
    assert(out@ =~= old(out)@ + decimal(n as nat));
}


/// `a` comes strictly before `b` in the order of `str`: character by
/// character by code point, a proper prefix first.
pub open spec fn text_lt(a: Seq<char>, b: Seq<char>) -> bool
    decreases a.len(),
{
    if a.len() == 0 {
        b.len() > 0
    } else if b.len() == 0 {
        false
    } else if a[0] != b[0] {
        (a[0] as int) < (b[0] as int)
    } else {
        text_lt(a.drop_first(), b.drop_first())
    }
}

pub open spec fn text_le(a: Seq<char>, b: Seq<char>) -> bool {
    !text_lt(b, a)
}

/// The strict order of texts is transitive.
pub proof fn lemma_text_lt_trans(a: Seq<char>, b: Seq<char>, c: Seq<char>)
    requires
        text_lt(a, b),
        text_lt(b, c),
    ensures
        text_lt(a, c),
    decreases a.len(),
{
    if a.len() > 0 && b.len() > 0 && c.len() > 0 && a[0] == b[0] && b[0] == c[0] {
        lemma_text_lt_trans(a.drop_first(), b.drop_first(), c.drop_first());
    }
}

/// Two texts are equal or one comes before the other.
pub proof fn lemma_text_total(a: Seq<char>, b: Seq<char>)
    ensures
        text_lt(a, b) || text_lt(b, a) || a == b,
    decreases a.len(),
{
    if a.len() > 0 && b.len() > 0 {
        if a[0] == b[0] {
            lemma_text_total(a.drop_first(), b.drop_first());
            if a.drop_first() == b.drop_first() {
                assert(a =~= seq![a[0]] + a.drop_first());
                assert(b =~= seq![b[0]] + b.drop_first());
            }
        } else {
            assert((a[0] as int) != (b[0] as int));
        }
    } else if a.len() == 0 && b.len() == 0 {
        assert(a =~= b);
    }
}

/// The order of texts is transitive.
pub proof fn lemma_text_le_trans(a: Seq<char>, b: Seq<char>, c: Seq<char>)
    requires
        text_le(a, b),
        text_le(b, c),
    ensures
        text_le(a, c),
{
    if text_lt(c, a) {
        lemma_text_total(a, b);
        if text_lt(a, b) {
            lemma_text_lt_trans(c, a, b);
        }
    }
}

/// No text comes before itself.
pub proof fn lemma_text_lt_irreflexive(a: Seq<char>)
    ensures
        !text_lt(a, a),
    decreases a.len(),
{
    if a.len() > 0 {
        lemma_text_lt_irreflexive(a.drop_first());
    }
}

/// Whether `a` comes strictly before `b` in the order of `str`.
pub fn text_less(a: &str, b: &str) -> (r: bool)
    ensures
        r == text_lt(a@, b@),
{
    let ac = chars_of(a);
    let bc = chars_of(b);
    let mut i: usize = 0;
    assert(a@.subrange(0, a@.len() as int) =~= a@);
    assert(b@.subrange(0, b@.len() as int) =~= b@);
    while i < ac.len() && i < bc.len()
        invariant
            i <= ac.len(),
            i <= bc.len(),
            ac@ == a@,
            bc@ == b@,
            text_lt(a@, b@) == text_lt(a@.subrange(i as int, a@.len() as int), b@.subrange(i as int, b@.len() as int)),
        decreases ac.len() - i,
    {
        let x = ac[i];
        let y = bc[i];
        let ghost sa = a@.subrange(i as int, a@.len() as int);
        let ghost sb = b@.subrange(i as int, b@.len() as int);
        assert(sa[0] == x && sb[0] == y);
        if x != y {
            return x < y;
        }
        assert(sa.drop_first() =~= a@.subrange(i + 1, a@.len() as int));
        assert(sb.drop_first() =~= b@.subrange(i + 1, b@.len() as int));
        i = i + 1;
    }
    i < bc.len()
}

/// `order` lists each index below `n` once.
pub open spec fn is_permutation(order: Seq<usize>, n: nat) -> bool {
    &&& order.len() == n
    &&& forall|i: int| 0 <= i < n ==> #[trigger] order[i] < n
    &&& forall|i: int, j: int| 0 <= i < j < n ==> #[trigger] order[i] != #[trigger] order[j]
}

/// `order` lists the indices of `keys` by key, in the order of `str`, and
/// indices with equal keys by index: the stable sort of `keys`.
pub open spec fn is_stable_sort(keys: Seq<Seq<char>>, order: Seq<usize>) -> bool {
    &&& is_permutation(order, keys.len())
    &&& forall|i: int, j: int|
        0 <= i < j < order.len() ==> text_le(
            keys[#[trigger] order[i] as int],
            keys[#[trigger] order[j] as int],
        ) && (keys[order[i] as int] == keys[order[j] as int] ==> order[i] < order[j])
}

/// Index `x` comes before index `y` in a stable sort by key.
pub open spec fn sorts_before(keys: Seq<Seq<char>>, x: int, y: int) -> bool {
    text_lt(keys[x], keys[y]) || (keys[x] == keys[y] && x < y)
}

proof fn lemma_sorted_before(keys: Seq<Seq<char>>, o: Seq<usize>, i: int, j: int)
    requires
        is_stable_sort(keys, o),
        0 <= i < j < o.len(),
    ensures
        sorts_before(keys, o[i] as int, o[j] as int),
{
    lemma_text_total(keys[o[i] as int], keys[o[j] as int]);
}

proof fn lemma_before_asymmetric(keys: Seq<Seq<char>>, x: int, y: int)
    ensures
        !(sorts_before(keys, x, y) && sorts_before(keys, y, x)),
{
    lemma_text_lt_irreflexive(keys[x]);
    lemma_text_lt_irreflexive(keys[y]);
    if text_lt(keys[x], keys[y]) && text_lt(keys[y], keys[x]) {
        lemma_text_lt_trans(keys[x], keys[y], keys[x]);
    }
}

/// Every index below `n` stands somewhere in a permutation of them.
proof fn lemma_permutation_onto(o: Seq<usize>, n: nat, x: int)
    requires
        is_permutation(o, n),
        0 <= x < n,
    ensures
        exists|i: int| 0 <= i < n && o[i] as int == x,
{
    let oi = o.map_values(|v: usize| v as int);
    assert forall|a: int, b: int| 0 <= a < oi.len() && 0 <= b < oi.len() && a != b implies oi[a] != oi[b] by {
        if a < b {
            assert(o[a] != o[b]);
        } else {
            assert(o[b] != o[a]);
        }
    }
    assert(oi.no_duplicates());
    oi.unique_seq_to_set();
    let range = vstd::set_lib::set_int_range(0, n as int);
    vstd::set_lib::lemma_int_range(0, n as int);
    assert forall|v: int| oi.to_set().contains(v) implies range.contains(v) by {
        let i = choose|i: int| 0 <= i < oi.len() && oi[i] == v;
        assert(o[i] < n);
    }
    vstd::seq_lib::seq_to_set_is_finite(oi);
    vstd::set_lib::lemma_subset_equality(oi.to_set(), range);
    assert(range.contains(x));
    assert(oi.to_set().contains(x));
    let i = choose|i: int| 0 <= i < oi.len() && oi[i] == x;
    assert(o[i] as int == x);
}

proof fn lemma_stable_sort_prefix(keys: Seq<Seq<char>>, o1: Seq<usize>, o2: Seq<usize>, i: int)
    requires
        is_stable_sort(keys, o1),
        is_stable_sort(keys, o2),
        0 <= i < keys.len(),
    ensures
        forall|k: int| 0 <= k <= i ==> o1[k] == o2[k],
    decreases i,
{
    if i > 0 {
        lemma_stable_sort_prefix(keys, o1, o2, i - 1);
    }
    if o1[i] != o2[i] {
        let n = keys.len();
        lemma_permutation_onto(o2, n, o1[i] as int);
        let p = choose|p: int| 0 <= p < n && o2[p] as int == o1[i] as int;
        lemma_permutation_onto(o1, n, o2[i] as int);
        let q = choose|q: int| 0 <= q < n && o1[q] as int == o2[i] as int;
        if p < i {
            assert(o1[p] == o2[p]);
            assert(o1[p] != o1[i]);
        }
        if q < i {
            assert(o1[q] == o2[q]);
            assert(o2[q] != o2[i]);
        }
        assert(p > i && q > i);
        lemma_sorted_before(keys, o1, i, q);
        lemma_sorted_before(keys, o2, i, p);
        lemma_before_asymmetric(keys, o1[i] as int, o2[i] as int);
    }
}

/// A stable sort is unique: two orders that both sort `keys` stably are
/// the same order.
pub proof fn lemma_stable_sort_unique(keys: Seq<Seq<char>>, o1: Seq<usize>, o2: Seq<usize>)
    requires
        is_stable_sort(keys, o1),
        is_stable_sort(keys, o2),
    ensures
        o1 == o2,
{
    if keys.len() > 0 {
        lemma_stable_sort_prefix(keys, o1, o2, keys.len() - 1);
    }
    assert(o1 =~= o2);
}

/// The stable sort of `keys`.
pub open spec fn sorted_order(keys: Seq<Seq<char>>) -> Seq<usize> {
    choose|o: Seq<usize>| is_stable_sort(keys, o)
}

/// An order that sorts `keys` stably is their stable sort.
pub proof fn lemma_sorted_order(keys: Seq<Seq<char>>, o: Seq<usize>)
    requires
        is_stable_sort(keys, o),
    ensures
        sorted_order(keys) == o,
{
    lemma_stable_sort_unique(keys, sorted_order(keys), o);
}

/// The indices of `keys` in the order of a stable sort by key.
pub fn stable_sort_order(keys: &Vec<String>) -> (r: Vec<usize>)
    ensures
        is_stable_sort(keys@.map_values(|k: String| k@), r@),
{
    let ghost kv = keys@.map_values(|k: String| k@);
    let mut order: Vec<usize> = Vec::new();
    let mut n: usize = 0;
    while n < keys.len()
        invariant
            n <= keys.len(),
            kv == keys@.map_values(|k: String| k@),
            order.len() == n,
            forall|i: int| 0 <= i < n ==> #[trigger] order[i] < n,
            forall|i: int, j: int| 0 <= i < j < n ==> #[trigger] order[i] != #[trigger] order[j],
            forall|i: int, j: int|
                0 <= i < j < n ==> text_le(
                    kv[#[trigger] order[i] as int],
                    kv[#[trigger] order[j] as int],
                ) && (kv[order[i] as int] == kv[order[j] as int] ==> order[i] < order[j]),
        decreases keys.len() - n,
    {
        // Find the place of `n`: after every index whose key is not greater.
        let mut p: usize = n;
        while p > 0 && text_less(keys[n].as_str(), keys[order[p - 1]].as_str())
            invariant
                p <= n < keys.len(),
                order.len() == n,
                kv == keys@.map_values(|k: String| k@),
                forall|i: int| 0 <= i < n ==> #[trigger] order[i] < n,
                forall|i: int| p <= i < n ==> #[trigger] text_lt(kv[n as int], kv[order[i] as int]),
            decreases p,
        {
            p = p - 1;
        }
        proof {
            if p > 0 {
                assert(text_le(kv[order[p - 1] as int], kv[n as int]));
            }
            assert forall|i: int| 0 <= i < p implies #[trigger] text_le(kv[order[i] as int], kv[n as int]) by {
                if i < p - 1 {
                    lemma_text_le_trans(kv[order[i] as int], kv[order[p - 1] as int], kv[n as int]);
                }
            }
            assert forall|i: int| p <= i < n implies !(kv[n as int] == kv[#[trigger] order[i] as int]) by {
                lemma_text_lt_irreflexive(kv[n as int]);
            }
        }
        let ghost before = order@;
        order.insert(p, n);
        proof {
            assert forall|i: int| 0 <= i < n + 1 implies #[trigger] order[i] < n + 1 by {
                if i < p {
                    assert(order[i] == before[i]);
                } else if i > p {
                    assert(order[i] == before[i - 1]);
                }
            }
            assert forall|i: int, j: int| 0 <= i < j < n + 1 implies #[trigger] order[i] != #[trigger] order[j] by {
                if i < p {
                    assert(order[i] == before[i]);
                } else if i > p {
                    assert(order[i] == before[i - 1]);
                }
                if j < p {
                    assert(order[j] == before[j]);
                } else if j > p {
                    assert(order[j] == before[j - 1]);
                }
            }
            assert forall|i: int, j: int|
                0 <= i < j < n + 1 implies text_le(
                    kv[#[trigger] order[i] as int],
                    kv[#[trigger] order[j] as int],
                ) && (kv[order[i] as int] == kv[order[j] as int] ==> order[i] < order[j]) by {
                if i < p {
                    assert(order[i] == before[i]);
                } else if i > p {
                    assert(order[i] == before[i - 1]);
                }
                if j < p {
                    assert(order[j] == before[j]);
                } else if j > p {
                    assert(order[j] == before[j - 1]);
                }
                if j == p {
                    assert(text_le(kv[before[i] as int], kv[n as int]));
                }
                if i == p {
                    assert(text_lt(kv[n as int], kv[before[j - 1] as int]));
                    lemma_text_lt_irreflexive(kv[n as int]);
                    lemma_text_total(kv[n as int], kv[before[j - 1] as int]);
                    if text_lt(kv[before[j - 1] as int], kv[n as int]) {
                        lemma_text_lt_trans(kv[n as int], kv[before[j - 1] as int], kv[n as int]);
                    }
                }
            }
        }
        n = n + 1;
    }
    order
}

} // verus!
