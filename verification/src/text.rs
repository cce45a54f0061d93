//! Text as the node's messages and names need it: numbers in decimal, joining,
//! searching and the byte order of names.
use vstd::prelude::*;
use vstd::string::*;

verus! {

/// The decimal digit `d`.
pub open spec fn digit(d: nat) -> char {
    ('0' as u32 + d) as char
}

/// `n` in decimal, without leading zeros.
pub open spec fn digits(n: nat) -> Seq<char>
    decreases n,
{
    if n < 10 {
        seq![digit(n)]
    } else {
        digits(n / 10).push(digit(n % 10))
    }
}

fn digit_text(d: u64) -> (s: &'static str)
    requires
        d < 10,
    ensures
        s@ == seq![digit(d as nat)],
{
    proof {
        reveal_strlit("0");
        reveal_strlit("1");
        reveal_strlit("2");
        reveal_strlit("3");
        reveal_strlit("4");
        reveal_strlit("5");
        reveal_strlit("6");
        reveal_strlit("7");
        reveal_strlit("8");
        reveal_strlit("9");
    }
    let s = if d == 0 {
        "0"
    } else if d == 1 {
        "1"
    } else if d == 2 {
        "2"
    } else if d == 3 {
        "3"
    } else if d == 4 {
        "4"
    } else if d == 5 {
        "5"
    } else if d == 6 {
        "6"
    } else if d == 7 {
        "7"
    } else if d == 8 {
        "8"
    } else {
        "9"
    };
    assert(s@ =~= seq![digit(d as nat)]);
    s
}

/// `n` in decimal.
pub fn decimal(n: u64) -> (s: String)
    ensures
        s@ == digits(n as nat),
    decreases n,
{
    if n < 10 {
        digit_text(n).to_owned()
    } else {
        let mut s = decimal(n / 10);
        s.append(digit_text(n % 10));
        assert(s@ =~= digits((n / 10) as nat).push(digit((n % 10) as nat)));
        s
    }
}

/// Decimal text tells numbers apart.
pub proof fn lemma_digits_injective(a: nat, b: nat)
    ensures
        digits(a) == digits(b) ==> a == b,
    decreases a,
{
    if digits(a) == digits(b) {
        lemma_digits_len(a);
        lemma_digits_len(b);
        if a >= 10 && b >= 10 {
            assert(digits(a).drop_last() =~= digits(a / 10));
            assert(digits(b).drop_last() =~= digits(b / 10));
            lemma_digits_injective(a / 10, b / 10);
            assert(digits(a).last() == digit(a % 10));
            assert(digits(b).last() == digit(b % 10));
            lemma_digit_injective(a % 10, b % 10);
        } else if a < 10 && b < 10 {
            assert(digits(a)[0] == digit(a));
            assert(digits(b)[0] == digit(b));
            lemma_digit_injective(a, b);
        }
    }
}

proof fn lemma_digit_injective(a: nat, b: nat)
    requires
        a < 10,
        b < 10,
        digit(a) == digit(b),
    ensures
        a == b,
{
    assert(digit(a) as u32 == '0' as u32 + a);
    assert(digit(b) as u32 == '0' as u32 + b);
}

proof fn lemma_digits_len(n: nat)
    ensures
        digits(n).len() >= 1,
        n < 10 <==> digits(n).len() == 1,
    decreases n,
{
    if n >= 10 {
        lemma_digits_len(n / 10);
    }
}

/// Decimal text starts with a digit.
pub proof fn lemma_digits_stand_first(n: nat)
    ensures
        digits(n).len() >= 1,
        digits(n)[0] != '/',
    decreases n,
{
    if n >= 10 {
        lemma_digits_stand_first(n / 10);
    } else {
        assert(digits(n)[0] as u32 == '0' as u32 + n);
    }
}

/// Decimal text is read back as the number that it was made of.
pub proof fn law_digits_are_read_back(n: nat)
    ensures
        digits(n).fold_left(0int, |a: int, c: char| 10 * a + (c as u32 - '0' as u32)) == n,
    decreases n,
{
    let read = |a: int, c: char| 10 * a + (c as u32 - '0' as u32);
    reveal(Seq::fold_left);
    if n < 10 {
        assert(digits(n).drop_last() =~= Seq::<char>::empty());
        assert(digits(n).last() as u32 == '0' as u32 + n);
        assert(Seq::<char>::empty().fold_left(0int, read) == 0);
    } else {
        law_digits_are_read_back(n / 10);
        assert(digits(n).drop_last() =~= digits(n / 10));
        assert(digits(n).last() as u32 == '0' as u32 + n % 10);
    }
}

/// `a` with `b` behind it.
pub fn join(a: &str, b: &str) -> (s: String)
    ensures
        s@ == a@ + b@,
{
    let mut s = a.to_owned();
    s.append(b);
    s
}

/// The first position at which two byte strings differ, or the shorter length.
pub open spec fn common_prefix_len(a: Seq<u8>, b: Seq<u8>) -> nat
    decreases a.len(),
{
    if a.len() == 0 || b.len() == 0 || a[0] != b[0] {
        0
    } else {
        1 + common_prefix_len(a.drop_first(), b.drop_first())
    }
}

/// Byte order: the first differing byte decides, and a prefix comes first.
pub open spec fn bytes_before(a: Seq<u8>, b: Seq<u8>) -> bool {
    exists|i: int|
        {
            &&& 0 <= i <= a.len()
            &&& i < b.len()
            &&& #[trigger] b.subrange(0, i) == a.subrange(0, i)
            &&& i == a.len() || a[i] < b[i]
        }
}

/// The order of names: that of their UTF-8 bytes.
pub open spec fn text_before(a: Seq<char>, b: Seq<char>) -> bool {
    bytes_before(vstd::utf8::encode_utf8(a), vstd::utf8::encode_utf8(b))
}

/// The order of names is strict and total.
pub proof fn lemma_text_order(a: Seq<char>, b: Seq<char>)
    ensures
        !text_before(a, a),
        text_before(a, b) ==> !text_before(b, a),
        a != b ==> text_before(a, b) || text_before(b, a),
{
    let x = vstd::utf8::encode_utf8(a);
    let y = vstd::utf8::encode_utf8(b);
    lemma_bytes_irreflexive(x);
    if bytes_before(x, y) && bytes_before(y, x) {
        lemma_bytes_transitive(x, y, x);
    }
    if a != b {
        vstd::utf8::encode_utf8_decode_utf8(a);
        vstd::utf8::encode_utf8_decode_utf8(b);
        assert(x != y);
        lemma_bytes_total(x, y);
    }
}

/// The order of names is transitive.
pub proof fn lemma_text_transitive(a: Seq<char>, b: Seq<char>, c: Seq<char>)
    requires
        text_before(a, b),
        text_before(b, c),
    ensures
        text_before(a, c),
{
    lemma_bytes_transitive(vstd::utf8::encode_utf8(a), vstd::utf8::encode_utf8(b), vstd::utf8::encode_utf8(c));
}

proof fn lemma_bytes_irreflexive(a: Seq<u8>)
    ensures
        !bytes_before(a, a),
{
}

proof fn lemma_bytes_transitive(a: Seq<u8>, b: Seq<u8>, c: Seq<u8>)
    requires
        bytes_before(a, b),
        bytes_before(b, c),
    ensures
        bytes_before(a, c),
{
    let i = choose|i: int|
        {
            &&& 0 <= i <= a.len()
            &&& i < b.len()
            &&& #[trigger] b.subrange(0, i) == a.subrange(0, i)
            &&& i == a.len() || a[i] < b[i]
        };
    let j = choose|j: int|
        {
            &&& 0 <= j <= b.len()
            &&& j < c.len()
            &&& #[trigger] c.subrange(0, j) == b.subrange(0, j)
            &&& j == b.len() || b[j] < c[j]
        };
    let k = if i < j { i } else { j };
    assert forall|p: int| 0 <= p < k implies c[p] == a[p] by {
        assert(b.subrange(0, i)[p] == a.subrange(0, i)[p]);
        assert(c.subrange(0, j)[p] == b.subrange(0, j)[p]);
    }
    assert(c.subrange(0, k) =~= a.subrange(0, k));
    if i < j {
        assert(c.subrange(0, j)[i] == b.subrange(0, j)[i]);
    } else if j < i {
        assert(b.subrange(0, i)[j] == a.subrange(0, i)[j]);
    }
}

proof fn lemma_bytes_total(a: Seq<u8>, b: Seq<u8>)
    requires
        a != b,
    ensures
        bytes_before(a, b) || bytes_before(b, a),
{
    let k = common_prefix_len(a, b);
    lemma_common_prefix(a, b);
    assert(a.subrange(0, k as int) =~= b.subrange(0, k as int));
    if k == a.len() && k == b.len() {
        assert(a =~= b);
    } else if k < b.len() && (k == a.len() || a[k as int] < b[k as int]) {
        assert(b.subrange(0, k as int) == a.subrange(0, k as int));
    } else {
        assert(a.subrange(0, k as int) == b.subrange(0, k as int));
    }
}

proof fn lemma_common_prefix(a: Seq<u8>, b: Seq<u8>)
    ensures
        common_prefix_len(a, b) <= a.len(),
        common_prefix_len(a, b) <= b.len(),
        forall|i: int| 0 <= i < common_prefix_len(a, b) ==> a[i] == b[i],
        common_prefix_len(a, b) < a.len() && common_prefix_len(a, b) < b.len()
            ==> a[common_prefix_len(a, b) as int] != b[common_prefix_len(a, b) as int],
    decreases a.len(),
{
    if a.len() == 0 || b.len() == 0 || a[0] != b[0] {
    } else {
        lemma_common_prefix(a.drop_first(), b.drop_first());
        assert forall|i: int| 0 <= i < common_prefix_len(a, b) implies a[i] == b[i] by {
            if i > 0 {
                assert(a.drop_first()[i - 1] == b.drop_first()[i - 1]);
            }
        }
    }
}

/// Whether `a` comes before `b` in the order of names.
pub fn is_before(a: &String, b: &String) -> (r: bool)
    ensures
        r == text_before(a@, b@),
{
    let x = a.as_str().as_bytes();
    let y = b.as_str().as_bytes();
    let mut i: usize = 0;
    while i < x.len() && i < y.len() && x[i] == y[i]
        invariant
            i <= x@.len(),
            i <= y@.len(),
            forall|j: int| 0 <= j < i ==> x@[j] == y@[j],
        decreases x@.len() - i,
    {
        i += 1;
    }
    assert(x@.subrange(0, i as int) =~= y@.subrange(0, i as int));
    let r = i < y.len() && (i >= x.len() || x[i] < y[i]);
    proof {
        if r {
            assert(y@.subrange(0, i as int) == x@.subrange(0, i as int));
        } else if bytes_before(x@, y@) {
            let k = choose|k: int|
                {
                    &&& 0 <= k <= x@.len()
                    &&& k < y@.len()
                    &&& #[trigger] y@.subrange(0, k) == x@.subrange(0, k)
                    &&& k == x@.len() || x@[k] < y@[k]
                };
            if k > i {
                assert(y@.subrange(0, k)[i as int] == x@.subrange(0, k)[i as int]);
            }
        }
    }
    r
}

/// The characters of each text of a list.
pub open spec fn views(list: Seq<String>) -> Seq<Seq<char>> {
    list.map_values(|s: String| s@)
}

/// Every text comes before the next in the order of names, so none occurs twice.
pub open spec fn ascending(list: Seq<Seq<char>>) -> bool {
    forall|i: int, j: int|
        0 <= i < j < list.len() ==> text_before(#[trigger] list[i], #[trigger] list[j])
}

/// Adds `name` to an ascending list, unless it is there.
pub fn insert_name(list: &mut Vec<String>, name: &String)
    requires
        ascending(views(old(list)@)),
    ensures
        ascending(views(final(list)@)),
        views(final(list)@).to_set() == views(old(list)@).to_set().insert(name@),
{
    let ghost before = views(list@);
    let mut p: usize = 0;
    while p < list.len() && is_before(&list[p], name)
        invariant
            p <= list@.len(),
            before == views(list@),
            forall|i: int| 0 <= i < p ==> text_before(#[trigger] before[i], name@),
        decreases list@.len() - p,
    {
        assert(before[p as int] == list@[p as int]@);
        p += 1;
    }
    if p < list.len() && list[p] == *name {
        proof {
            assert(before[p as int] == name@);
            assert(before.to_set() =~= before.to_set().insert(name@));
        }
    } else {
        let copy = name.clone();
        list.insert(p, copy);
        proof {
            let after = views(list@);
            assert(after =~= before.insert(p as int, name@));
            assert forall|i: int, j: int| 0 <= i < j < after.len() implies text_before(
                #[trigger] after[i],
                #[trigger] after[j],
            ) by {
                if j == p {
                    assert(after[i] == before[i]);
                } else if i == p {
                    let q = before[p as int];
                    lemma_text_order(name@, q);
                    assert(text_before(name@, q));
                    if j - 1 > p {
                        assert(text_before(before[p as int], before[j - 1]));
                        lemma_text_transitive(name@, q, before[j - 1]);
                    }
                } else {
                    let i2 = if i < p { i } else { i - 1 };
                    let j2 = if j < p { j } else { j - 1 };
                    assert(text_before(before[i2], before[j2]));
                }
            }
            assert forall|x: Seq<char>| after.to_set().contains(x) == before.to_set().insert(
                name@,
            ).contains(x) by {
                if after.contains(x) {
                    let i = after.index_of(x);
                    if i != p {
                        let i2 = if i < p { i } else { i - 1 };
                        assert(before[i2] == x);
                    }
                }
                if before.contains(x) {
                    let i = before.index_of(x);
                    let i2 = if i < p { i } else { i + 1 };
                    assert(after[i2] == x);
                }
                assert(after[p as int] == name@);
            }
            assert(after.to_set() =~= before.to_set().insert(name@));
        }
    }
}

/// The texts of a list with `separator` between them.
pub open spec fn joined(list: Seq<Seq<char>>, separator: Seq<char>) -> Seq<char>
    decreases list.len(),
{
    if list.len() == 0 {
        Seq::empty()
    } else if list.len() == 1 {
        list[0]
    } else {
        joined(list.drop_last(), separator) + separator + list.last()
    }
}

/// Joins the texts of a list.
pub fn join_all(list: &Vec<String>, separator: &str) -> (s: String)
    ensures
        s@ == joined(views(list@), separator@),
{
    let mut s = String::new();
    let mut i: usize = 0;
    let ghost all = views(list@);
    while i < list.len()
        invariant
            i <= list@.len(),
            all == views(list@),
            s@ == joined(all.subrange(0, i as int), separator@),
        decreases list@.len() - i,
    {
        if i > 0 {
            s.append(separator);
        }
        s.append(list[i].as_str());
        i += 1;
        proof {
            let part = all.subrange(0, i as int);
            assert(part.drop_last() =~= all.subrange(0, i - 1));
            assert(part.last() == list@[i - 1]@);
            assert(s@ =~= joined(part, separator@));
        }
    }
    assert(all.subrange(0, i as int) =~= all);
    s
}

/// The hexadecimal digit `d`, in lower case.
pub open spec fn hex_digit(d: nat) -> char {
    if d < 10 {
        ('0' as u32 + d) as char
    } else {
        ('a' as u32 + d - 10) as char
    }
}

/// A byte as two hexadecimal digits.
pub open spec fn hex_byte(b: u8) -> Seq<char> {
    seq![hex_digit((b / 16) as nat), hex_digit((b % 16) as nat)]
}

fn hex_text(d: u8) -> (s: &'static str)
    requires
        d < 16,
    ensures
        s@ == seq![hex_digit(d as nat)],
{
    proof {
        reveal_strlit("a");
        reveal_strlit("b");
        reveal_strlit("c");
        reveal_strlit("d");
        reveal_strlit("e");
        reveal_strlit("f");
    }
    let s = if d < 10 {
        digit_text(d as u64)
    } else if d == 10 {
        "a"
    } else if d == 11 {
        "b"
    } else if d == 12 {
        "c"
    } else if d == 13 {
        "d"
    } else if d == 14 {
        "e"
    } else {
        "f"
    };
    assert(s@ =~= seq![hex_digit(d as nat)]);
    s
}

/// A byte as two hexadecimal digits.
pub fn hex(b: u8) -> (s: String)
    ensures
        s@ == hex_byte(b),
{
    let s = join(hex_text(b / 16), hex_text(b % 16));
    assert(s@ =~= hex_byte(b));
    s
}

/// Whether `needle` occurs in `s`.
pub fn contains(s: &str, needle: &str) -> (b: bool)
    ensures
        b == exists|i: int|
            0 <= i <= s@.len() - needle@.len() && #[trigger] s@.subrange(i, i + needle@.len())
                == needle@,
{
    let n: usize = s.unicode_len();
    let k: usize = needle.unicode_len();
    if n < k {
        return false;
    }
    let target = needle.to_owned();
    let mut i: usize = 0;
    while i <= n - k
        invariant
            n == s@.len(),
            k == needle@.len(),
            target@ == needle@,
            k <= n,
            i <= n - k + 1,
            forall|j: int| 0 <= j < i ==> #[trigger] s@.subrange(j, j + needle@.len()) != needle@,
        decreases n - k + 1 - i,
    {
        if s.substring_char(i, i + k).to_owned() == target {
            assert(s@.subrange(i as int, i + needle@.len()) == needle@);
            return true;
        }
        if i == n - k {
            return false;
        }
        i += 1;
    }
    false
}

/// Whether a text is in a list.
pub fn is_listed(list: &Vec<String>, name: &String) -> (b: bool)
    ensures
        b == views(list@).contains(name@),
{
    let mut i: usize = 0;
    while i < list.len()
        invariant
            i <= list@.len(),
            forall|j: int| 0 <= j < i ==> (#[trigger] list@[j])@ != name@,
        decreases list@.len() - i,
    {
        if list[i] == *name {
            assert(views(list@)[i as int] == name@);
            return true;
        }
        i += 1;
    }
    assert forall|j: int| 0 <= j < views(list@).len() implies views(list@)[j] != name@ by {
        assert(views(list@)[j] == list@[j]@);
    }
    false
}

/// Puts a text at the end of a list that does not hold it yet.
pub fn add_new(list: &mut Vec<String>, name: &String)
    ensures
        views(final(list)@) == if views(old(list)@).contains(name@) {
            views(old(list)@)
        } else {
            views(old(list)@).push(name@)
        },
{
    if !is_listed(list, name) {
        list.push(name.clone());
        assert(views(list@) =~= views(old(list)@).push(name@));
    }
}

/// The texts of `list` that are not in `present`, in their order.
pub fn without(list: &Vec<String>, present: &Vec<String>) -> (rest: Vec<String>)
    ensures
        views(rest@) == views(list@).filter(|x: Seq<char>| !views(present@).contains(x)),
{
    let mut rest: Vec<String> = Vec::new();
    let mut i: usize = 0;
    let ghost all = views(list@);
    let ghost keep = |x: Seq<char>| !views(present@).contains(x);
    assert(all.subrange(0, 0).filter(keep) =~= Seq::<Seq<char>>::empty()) by {
        all.subrange(0, 0).lemma_filter_len(keep);
    }
    assert(views(rest@) =~= all.subrange(0, 0).filter(keep));
    while i < list.len()
        invariant
            i <= list@.len(),
            all == views(list@),
            keep == (|x: Seq<char>| !views(present@).contains(x)),
            views(rest@) == all.subrange(0, i as int).filter(keep),
        decreases list@.len() - i,
    {
        let ghost seen = all.subrange(0, i as int);
        let ghost before = views(rest@);
        proof {
            assert(all.subrange(0, i + 1) =~= seen.push(all[i as int]));
            seen.lemma_filter_push(all[i as int], keep);
        }
        if !is_listed(present, &list[i]) {
            rest.push(list[i].clone());
            assert(views(rest@) =~= before.push(all[i as int]));
        }
        i += 1;
    }
    assert(all.subrange(0, i as int) =~= all);
    rest
}

/// A copy of a list of texts.
pub fn copy_list(list: &Vec<String>) -> (copy: Vec<String>)
    ensures
        views(copy@) == views(list@),
{
    let mut copy: Vec<String> = Vec::new();
    let mut i: usize = 0;
    while i < list.len()
        invariant
            i <= list@.len(),
            copy@.len() == i,
            forall|j: int| 0 <= j < i ==> (#[trigger] copy@[j])@ == list@[j]@,
        decreases list@.len() - i,
    {
        copy.push(list[i].clone());
        i += 1;
    }
    assert(views(copy@) =~= views(list@));
    copy
}

/// `needle` stands in `s` at `i`.
pub open spec fn occurs_at(s: Seq<char>, needle: Seq<char>, i: int) -> bool {
    &&& 0 <= i <= s.len() - needle.len()
    &&& s.subrange(i, i + needle.len()) == needle
}

/// The last place at or before `k` at which `needle` stands in `s`.
pub open spec fn last_from(s: Seq<char>, needle: Seq<char>, k: int) -> Option<int>
    decreases k + 1,
{
    if k < 0 {
        None
    } else if occurs_at(s, needle, k) {
        Some(k)
    } else {
        last_from(s, needle, k - 1)
    }
}

/// The last place at which `needle` stands in `s`.
pub open spec fn last_place(s: Seq<char>, needle: Seq<char>) -> Option<int> {
    last_from(s, needle, s.len() - needle.len())
}

/// The last place is one at which the needle stands, none behind it is, and there is
/// one wherever the needle stands at all.
pub proof fn law_the_last_place_is_last(s: Seq<char>, needle: Seq<char>, i: int)
    requires
        0 <= i <= s.len() - needle.len(),
    ensures
        last_place(s, needle) matches Some(p) ==> 0 <= p <= s.len() - needle.len() && s.subrange(
            p,
            p + needle.len(),
        ) == needle,
        s.subrange(i, i + needle.len()) == needle ==> last_place(s, needle) is Some && i
            <= last_place(s, needle)->0,
{
    lemma_last_from(s, needle, s.len() - needle.len(), i);
}

proof fn lemma_last_from(s: Seq<char>, needle: Seq<char>, k: int, i: int)
    requires
        k <= s.len() - needle.len(),
    ensures
        last_from(s, needle, k) matches Some(p) ==> 0 <= p <= k && occurs_at(s, needle, p),
        occurs_at(s, needle, i) && i <= k ==> last_from(s, needle, k) is Some && i <= last_from(
            s,
            needle,
            k,
        )->0,
    decreases k + 1,
{
    if k >= 0 && !occurs_at(s, needle, k) {
        lemma_last_from(s, needle, k - 1, i);
    }
}

/// Finds the last place at which `needle` stands in `s`.
pub fn find_last(s: &str, needle: &str) -> (at: Option<usize>)
    ensures
        match at {
            Some(i) => last_place(s@, needle@) == Some(i as int) && i + needle@.len() <= s@.len(),
            None => last_place(s@, needle@) is None,
        },
{
    let n: usize = s.unicode_len();
    let k: usize = needle.unicode_len();
    if n < k {
        return None;
    }
    let target = needle.to_owned();
    let mut i: usize = n - k;
    loop
        invariant
            n == s@.len(),
            k == needle@.len(),
            k <= n,
            i <= n - k,
            target@ == needle@,
            last_place(s@, needle@) == last_from(s@, needle@, i as int),
        decreases i,
    {
        if s.substring_char(i, i + k).to_owned() == target {
            assert(occurs_at(s@, needle@, i as int));
            return Some(i);
        }
        assert(!occurs_at(s@, needle@, i as int));
        if i == 0 {
            assert(last_from(s@, needle@, -1) is None);
            return None;
        }
        i -= 1;
    }
}

/// The part of `s` before the first `c`, or all of it.
pub open spec fn part_before(s: Seq<char>, c: char) -> Seq<char>
    decreases s.len(),
{
    if s.len() == 0 || s[0] == c {
        Seq::empty()
    } else {
        seq![s[0]] + part_before(s.drop_first(), c)
    }
}

proof fn lemma_part_before(s: Seq<char>, c: char, n: int)
    requires
        0 <= n <= s.len(),
        forall|j: int| 0 <= j < n ==> s[j] != c,
        n < s.len() ==> s[n] == c,
    ensures
        part_before(s, c) == s.subrange(0, n),
    decreases s.len(),
{
    if s.len() > 0 && n > 0 {
        lemma_part_before(s.drop_first(), c, n - 1);
        assert(s.subrange(0, n) =~= seq![s[0]] + s.drop_first().subrange(0, n - 1));
    } else {
        assert(s.subrange(0, n) =~= Seq::<char>::empty());
    }
}

/// The part before a character is the start of the text, does not hold the character,
/// and ends only where the character stands or the text does.
pub proof fn law_parts_end_at_the_character(s: Seq<char>, c: char)
    ensures
        part_before(s, c).is_prefix_of(s),
        !part_before(s, c).contains(c),
        part_before(s, c).len() < s.len() ==> s[part_before(s, c).len() as int] == c,
    decreases s.len(),
{
    let part = part_before(s, c);
    if s.len() > 0 && s[0] != c {
        let rest = part_before(s.drop_first(), c);
        law_parts_end_at_the_character(s.drop_first(), c);
        assert forall|i: int| 0 <= i < part.len() implies #[trigger] part[i] == s[i] && part[i]
            != c by {
            if i > 0 {
                assert(part[i] == rest[i - 1]);
                assert(rest[i - 1] == s.drop_first().subrange(0, rest.len() as int)[i - 1]);
                assert(rest.contains(rest[i - 1]));
            }
        }
        assert(part =~= s.subrange(0, part.len() as int));
    } else {
        assert(part =~= s.subrange(0, 0));
    }
}

/// Takes the part of `s` from `from` on, up to the first `c`.
pub fn take_until(s: &str, from: usize, c: char) -> (part: String)
    requires
        from <= s@.len(),
    ensures
        part@ == part_before(s@.subrange(from as int, s@.len() as int), c),
{
    let n: usize = s.unicode_len();
    let mut i: usize = from;
    while i < n && s.get_char(i) != c
        invariant
            from <= i <= n,
            n == s@.len(),
            forall|j: int| from <= j < i ==> s@[j] != c,
        decreases n - i,
    {
        i += 1;
    }
    let part = s.substring_char(from, i).to_owned();
    proof {
        let rest = s@.subrange(from as int, n as int);
        lemma_part_before(rest, c, i - from);
        assert(rest.subrange(0, i - from) =~= s@.subrange(from as int, i as int));
    }
    part
}

/// The Unicode property `White_Space`.
pub open spec fn is_white(c: char) -> bool {
    let x = c as u32;
    ||| 9 <= x <= 13
    ||| x == 32
    ||| x == 133
    ||| x == 160
    ||| x == 5760
    ||| 8192 <= x <= 8202
    ||| x == 8232
    ||| x == 8233
    ||| x == 8239
    ||| x == 8287
    ||| x == 12288
}

fn is_white_space(c: char) -> (b: bool)
    ensures
        b == is_white(c),
{
    let x: u32 = c as u32;
    (9 <= x && x <= 13) || x == 32 || x == 133 || x == 160 || x == 5760 || (8192 <= x && x
        <= 8202) || x == 8232 || x == 8233 || x == 8239 || x == 8287 || x == 12288
}

/// `s` without the white space at its start.
pub open spec fn trimmed_start(s: Seq<char>) -> Seq<char>
    decreases s.len(),
{
    if s.len() > 0 && is_white(s[0]) {
        trimmed_start(s.drop_first())
    } else {
        s
    }
}

/// `s` without the white space at its end.
pub open spec fn trimmed_end(s: Seq<char>) -> Seq<char>
    decreases s.len(),
{
    if s.len() > 0 && is_white(s.last()) {
        trimmed_end(s.drop_last())
    } else {
        s
    }
}

/// `s` without the white space at its ends.
pub open spec fn trimmed(s: Seq<char>) -> Seq<char> {
    trimmed_end(trimmed_start(s))
}

proof fn lemma_trimmed_start(s: Seq<char>, i: int)
    requires
        0 <= i <= s.len(),
        forall|j: int| 0 <= j < i ==> is_white(s[j]),
        i < s.len() ==> !is_white(s[i]),
    ensures
        trimmed_start(s) == s.subrange(i, s.len() as int),
    decreases i,
{
    if i > 0 {
        lemma_trimmed_start(s.drop_first(), i - 1);
        assert(s.subrange(i, s.len() as int) =~= s.drop_first().subrange(i - 1, s.len() - 1));
    } else {
        assert(s.subrange(0, s.len() as int) =~= s);
    }
}

proof fn lemma_trimmed_end(s: Seq<char>, k: int)
    requires
        0 <= k <= s.len(),
        forall|j: int| k <= j < s.len() ==> is_white(s[j]),
        0 < k ==> !is_white(s[k - 1]),
    ensures
        trimmed_end(s) == s.subrange(0, k),
    decreases s.len() - k,
{
    if k < s.len() {
        lemma_trimmed_end(s.drop_last(), k);
        assert(s.subrange(0, k) =~= s.drop_last().subrange(0, k));
    } else {
        assert(s.subrange(0, k) =~= s);
    }
}

/// Trimming takes nothing but white space, from the ends alone, and leaves none there.
pub proof fn law_trimming_takes_only_white_space(s: Seq<char>) -> (cut: (int, int))
    ensures
        0 <= cut.0 <= cut.1 <= s.len(),
        trimmed(s) == s.subrange(cut.0, cut.1),
        forall|j: int| 0 <= j < cut.0 ==> is_white(#[trigger] s[j]),
        forall|j: int| cut.1 <= j < s.len() ==> is_white(#[trigger] s[j]),
        trimmed(s).len() > 0 ==> !is_white(trimmed(s)[0]) && !is_white(trimmed(s).last()),
        is_white(' ') && is_white('\n') && is_white('\t') && is_white('\r'),
        forall|c: char| 33 <= c as u32 <= 126 ==> !#[trigger] is_white(c),
{
    let i = lemma_front_cut(s);
    let front = trimmed_start(s);
    let k = lemma_back_cut(front);
    assert(front.subrange(0, k) =~= s.subrange(i, i + k));
    assert forall|j: int| i + k <= j < s.len() implies is_white(#[trigger] s[j]) by {
        assert(front[j - i] == s[j]);
    }
    (i, i + k)
}

proof fn lemma_front_cut(s: Seq<char>) -> (i: int)
    ensures
        0 <= i <= s.len(),
        trimmed_start(s) == s.subrange(i, s.len() as int),
        forall|j: int| 0 <= j < i ==> is_white(#[trigger] s[j]),
        i < s.len() ==> !is_white(s[i]),
    decreases s.len(),
{
    if s.len() > 0 && is_white(s[0]) {
        let k = lemma_front_cut(s.drop_first());
        assert(s.subrange(k + 1, s.len() as int) =~= s.drop_first().subrange(k, s.len() - 1));
        assert forall|j: int| 0 <= j < k + 1 implies is_white(#[trigger] s[j]) by {
            if j > 0 {
                assert(s.drop_first()[j - 1] == s[j]);
            }
        }
        k + 1
    } else {
        assert(s.subrange(0, s.len() as int) =~= s);
        0
    }
}

proof fn lemma_back_cut(s: Seq<char>) -> (k: int)
    ensures
        0 <= k <= s.len(),
        trimmed_end(s) == s.subrange(0, k),
        forall|j: int| k <= j < s.len() ==> is_white(#[trigger] s[j]),
        0 < k ==> !is_white(s[k - 1]),
    decreases s.len(),
{
    if s.len() > 0 && is_white(s.last()) {
        let k = lemma_back_cut(s.drop_last());
        assert(s.subrange(0, k) =~= s.drop_last().subrange(0, k));
        assert forall|j: int| k <= j < s.len() implies is_white(#[trigger] s[j]) by {
            if j < s.len() - 1 {
                assert(s.drop_last()[j] == s[j]);
            }
        }
        k
    } else {
        assert(s.subrange(0, s.len() as int) =~= s);
        s.len() as int
    }
}

/// Takes the white space off both ends.
pub fn trim(s: &str) -> (t: String)
    ensures
        t@ == trimmed(s@),
{
    let n: usize = s.unicode_len();
    let mut i: usize = 0;
    while i < n && is_white_space(s.get_char(i))
        invariant
            i <= n,
            n == s@.len(),
            forall|j: int| 0 <= j < i ==> is_white(s@[j]),
        decreases n - i,
    {
        i += 1;
    }
    let mut k: usize = n;
    while k > i && is_white_space(s.get_char(k - 1))
        invariant
            i <= k <= n,
            n == s@.len(),
            forall|j: int| k <= j < n ==> is_white(s@[j]),
        decreases k,
    {
        k -= 1;
    }
    let t = s.substring_char(i, k).to_owned();
    proof {
        let tail = s@.subrange(i as int, n as int);
        lemma_trimmed_start(s@, i as int);
        lemma_trimmed_end(tail, k - i);
        assert(tail.subrange(0, k - i) =~= s@.subrange(i as int, k as int));
    }
    t
}

/// The lower-case form of a text, after the Unicode tables of the standard library.
pub uninterp spec fn lower_case(s: Seq<char>) -> Seq<char>;

/// The small letter of an ASCII capital; any other ASCII character is its own.
pub open spec fn ascii_lower(c: char) -> char {
    if 'A' <= c <= 'Z' {
        (c as u32 + 32) as char
    } else {
        c
    }
}

/// Every character is an ASCII one.
pub open spec fn all_ascii(s: Seq<char>) -> bool {
    forall|i: int| 0 <= i < s.len() ==> (#[trigger] s[i]) as u32 <= 127
}

/// A text in small letters.
pub open spec fn lowered(s: Seq<char>) -> Seq<char> {
    if all_ascii(s) {
        s.map_values(|c: char| ascii_lower(c))
    } else {
        lower_case(s)
    }
}

/// `str::to_lowercase`: a function of the text alone. In a text of ASCII
/// characters each capital gives its small letter and nothing else changes.
#[verifier::external_body]
fn to_lower_case(s: &str) -> (t: String)
    ensures
        t@ == lower_case(s@),
        all_ascii(s@) ==> t@ == s@.map_values(|c: char| ascii_lower(c)),
{
    s.to_lowercase()
}

/// Puts a text in small letters.
pub fn lower(s: &str) -> (t: String)
    ensures
        t@ == lowered(s@),
{
    to_lower_case(s)
}

} // verus!
