use vstd::prelude::*;

verus! {

/// The character of a decimal digit.
pub open spec fn digit_char(d: nat) -> char {
    if d == 0 {
        '0'
    } else if d == 1 {
        '1'
    } else if d == 2 {
        '2'
    } else if d == 3 {
        '3'
    } else if d == 4 {
        '4'
    } else if d == 5 {
        '5'
    } else if d == 6 {
        '6'
    } else if d == 7 {
        '7'
    } else if d == 8 {
        '8'
    } else {
        '9'
    }
}

/// The value of a decimal digit character.
pub open spec fn digit_value(c: char) -> nat {
    if c == '1' {
        1
    } else if c == '2' {
        2
    } else if c == '3' {
        3
    } else if c == '4' {
        4
    } else if c == '5' {
        5
    } else if c == '6' {
        6
    } else if c == '7' {
        7
    } else if c == '8' {
        8
    } else if c == '9' {
        9
    } else {
        0
    }
}

/// The decimal text of `n`, without leading zeros.
pub open spec fn dec(n: nat) -> Seq<char>
    decreases n,
{
    if n < 10 {
        seq![digit_char(n)]
    } else {
        dec(n / 10) + seq![digit_char(n % 10)]
    }
}

/// The number that a decimal text stands for.
pub open spec fn dec_value(s: Seq<char>) -> nat
    decreases s.len(),
{
    if s.len() == 0 {
        0
    } else {
        dec_value(s.drop_last()) * 10 + digit_value(s.last())
    }
}

pub proof fn lemma_dec_value(n: nat)
    ensures
        dec_value(dec(n)) == n,
        dec(n).len() >= 1,
    decreases n,
{
    assert(digit_value(digit_char(n % 10)) == n % 10);
    if n >= 10 {
        lemma_dec_value(n / 10);
        let d = dec(n);
        assert(d.drop_last() =~= dec(n / 10));
        assert(d.last() == digit_char(n % 10));
        assert(dec_value(d) == dec_value(dec(n / 10)) * 10 + n % 10);
        assert((n / 10) * 10 + n % 10 == n);
    } else {
        let d = seq![digit_char(n)];
        assert(d.drop_last() =~= Seq::<char>::empty());
        assert(dec_value(Seq::<char>::empty()) == 0);
        assert(n % 10 == n);
        assert(dec_value(d) == dec_value(d.drop_last()) * 10 + digit_value(d.last()));
    }
}

/// Decimal texts of distinct numbers differ.
pub proof fn lemma_dec_injective(a: nat, b: nat)
    requires
        dec(a) == dec(b),
    ensures
        a == b,
{
    lemma_dec_value(a);
    lemma_dec_value(b);
}

/// The text of a decimal digit, `d < 10`.
fn digit_str(d: u64) -> (r: &'static str)
    requires
        d < 10,
    ensures
        r@ == seq![digit_char(d as nat)],
{
    proof {
        reveal_strlit("0");
        reveal_strlit("1");
        reveal_strlit("2");
        reveal_strlit("3");
        reveal_strlit("4");
        reveal_strlit("5");
        reveal_strlit("6");
        reveal_strlit("7");
        reveal_strlit("8");
        reveal_strlit("9");
    }
    if d == 0 {
        "0"
    } else if d == 1 {
        "1"
    } else if d == 2 {
        "2"
    } else if d == 3 {
        "3"
    } else if d == 4 {
        "4"
    } else if d == 5 {
        "5"
    } else if d == 6 {
        "6"
    } else if d == 7 {
        "7"
    } else if d == 8 {
        "8"
    } else {
        "9"
    }
}

/// Appends the decimal text of `n` to `out`.
pub fn push_decimal(out: &mut String, n: u64)
    ensures
        final(out)@ == old(out)@ + dec(n as nat),
    decreases n,
{
    if n >= 10 {
        push_decimal(out, n / 10);
    }
    out.append(digit_str(n % 10));
    proof {
        if n >= 10 {
            assert(old(out)@ + dec((n / 10) as nat) + seq![digit_char((n % 10) as nat)]
                =~= old(out)@ + dec(n as nat));
        } else {
            assert(n % 10 == n);
        }
    }
}

/// The decimal text of `n`.
pub fn decimal(n: u64) -> (r: String)
    ensures
        r@ == dec(n as nat),
{
    let mut out = String::new();
    push_decimal(&mut out, n);
    proof {
        assert(out@ =~= dec(n as nat));
    }
    out
}

/// The index of the last `.` in `s`, or -1 when there is none.
pub open spec fn last_dot(s: Seq<char>) -> int
    decreases s.len(),
{
    if s.len() == 0 {
        -1
    } else if s.last() == '.' {
        s.len() - 1
    } else {
        last_dot(s.drop_last())
    }
}

pub proof fn lemma_last_dot(s: Seq<char>)
    ensures
        -1 <= last_dot(s) < s.len(),
        last_dot(s) >= 0 ==> s[last_dot(s)] == '.',
        forall|j: int| last_dot(s) < j < s.len() ==> s[j] != '.',
    decreases s.len(),
{
    if s.len() > 0 && s.last() != '.' {
        lemma_last_dot(s.drop_last());
        assert forall|j: int| last_dot(s) < j < s.len() implies s[j] != '.' by {
            if j < s.len() - 1 {
                assert(s.drop_last()[j] == s[j]);
            }
        }
    }
}

/// Where the extension of a file name starts: at its last `.`, unless that
/// `.` opens the name (a hidden file has no extension); else at its end.
pub open spec fn ext_start(s: Seq<char>) -> int {
    if last_dot(s) > 0 {
        last_dot(s)
    } else {
        s.len() as int
    }
}

/// The name without its extension.
pub open spec fn stem_of(s: Seq<char>) -> Seq<char> {
    s.subrange(0, ext_start(s))
}

/// The extension of a name, its dot included; empty when it has none.
pub open spec fn ext_of(s: Seq<char>) -> Seq<char> {
    s.subrange(ext_start(s), s.len() as int)
}

/// Finds the last `.` of `s` by scanning from its end.
pub fn find_last_dot(s: &str) -> (r: Option<usize>)
    ensures
        match r {
            Some(i) => i == last_dot(s@),
            None => last_dot(s@) == -1,
        },
{
    let n = s.unicode_len();
    let mut i: usize = n;
    proof {
        assert(s@.subrange(0, n as int) =~= s@);
    }
    while i > 0
        invariant
            i <= n == s@.len(),
            forall|j: int| i <= j < n ==> s@[j] != '.',
            last_dot(s@) == last_dot(s@.subrange(0, i as int)),
        decreases i,
    {
        proof {
            lemma_last_dot(s@);
        }
        let c = s.get_char(i - 1);
        if c == '.' {
            proof {
                let t = s@.subrange(0, i as int);
                assert(t.last() == '.');
            }
            return Some(i - 1);
        }
        proof {
            let t = s@.subrange(0, i as int);
            assert(t.drop_last() =~= s@.subrange(0, i - 1));
        }
        i = i - 1;
    }
    proof {
        assert(s@.subrange(0, 0) =~= Seq::<char>::empty());
    }
    None
}

/// Computes where the extension of `name` starts (see `ext_start`).
pub fn extension_start(name: &str) -> (r: usize)
    ensures
        r == ext_start(name@),
{
    match find_last_dot(name) {
        Some(i) => {
            if i > 0 {
                i
            } else {
                name.unicode_len()
            }
        },
        None => name.unicode_len(),
    }
}

/// A name with a counter, `stem (k)ext`, used to avoid a name that is taken.
pub open spec fn candidate(stem: Seq<char>, ext: Seq<char>, k: nat) -> Seq<char> {
    stem + seq![' ', '('] + dec(k) + seq![')'] + ext
}

pub proof fn lemma_candidate_injective(stem: Seq<char>, ext: Seq<char>, a: nat, b: nat)
    requires
        candidate(stem, ext, a) == candidate(stem, ext, b),
    ensures
        a == b,
{
    let ca = candidate(stem, ext, a);
    let cb = candidate(stem, ext, b);
    assert(ca.len() == stem.len() + 2 + dec(a).len() + 1 + ext.len());
    assert(cb.len() == stem.len() + 2 + dec(b).len() + 1 + ext.len());
    let lo: int = stem.len() as int + 2;
    assert(ca.subrange(lo, lo + dec(a).len()) =~= dec(a));
    assert(cb.subrange(lo, lo + dec(b).len()) =~= dec(b));
    lemma_dec_injective(a, b);
}

/// The views of a list of names.
pub open spec fn name_views(v: Seq<String>) -> Seq<Seq<char>> {
    v.map_values(|s: String| s@)
}

/// The least counter from `k` on whose candidate is not in `taken`.
pub open spec fn first_free(stem: Seq<char>, ext: Seq<char>, taken: Seq<Seq<char>>, k: nat) -> nat
    decreases taken.len() + 2 - k,
{
    if k > taken.len() + 1 {
        k
    } else if !taken.contains(candidate(stem, ext, k)) {
        k
    } else {
        first_free(stem, ext, taken, k + 1)
    }
}

/// A name in a directory whose names are `taken`, for an item named `name`:
/// the name itself when it is free, else the first free `stem (k)ext`.
pub open spec fn unique_name_spec(name: Seq<char>, taken: Seq<Seq<char>>) -> Seq<char> {
    if !taken.contains(name) {
        name
    } else {
        candidate(stem_of(name), ext_of(name), first_free(stem_of(name), ext_of(name), taken, 1))
    }
}

/// Among the counters `1..=taken.len() + 1` one names a free candidate.
pub proof fn lemma_some_candidate_free(stem: Seq<char>, ext: Seq<char>, taken: Seq<Seq<char>>)
    ensures
        exists|k: nat| 1 <= k <= taken.len() + 1 && !taken.contains(#[trigger] candidate(stem, ext, k)),
{
    if forall|k: nat| 1 <= k <= taken.len() + 1 ==> taken.contains(#[trigger] candidate(stem, ext, k)) {
        let cs = Seq::new((taken.len() + 1) as nat, |i: int| candidate(stem, ext, (i + 1) as nat));
        assert(cs.no_duplicates()) by {
            assert forall|i: int, j: int| 0 <= i < cs.len() && 0 <= j < cs.len() && i != j
                implies cs[i] != cs[j] by {
                if cs[i] == cs[j] {
                    lemma_candidate_injective(stem, ext, (i + 1) as nat, (j + 1) as nat);
                }
            }
        }
        cs.unique_seq_to_set();
        taken.lemma_cardinality_of_set();
        assert(cs.to_set().subset_of(taken.to_set())) by {
            assert forall|x| cs.to_set().contains(x) implies taken.to_set().contains(x) by {
                let i = choose|i: int| 0 <= i < cs.len() && cs[i] == x;
                assert(taken.contains(candidate(stem, ext, (i + 1) as nat)));
            }
        }
        vstd::set_lib::lemma_len_subset(cs.to_set(), taken.to_set());
    }
}

pub proof fn lemma_first_free(stem: Seq<char>, ext: Seq<char>, taken: Seq<Seq<char>>, k: nat)
    requires
        1 <= k,
        forall|j: nat| 1 <= j < k ==> taken.contains(#[trigger] candidate(stem, ext, j)),
    ensures
        k <= first_free(stem, ext, taken, k) <= taken.len() + 1,
        !taken.contains(candidate(stem, ext, first_free(stem, ext, taken, k))),
        forall|j: nat|
            1 <= j < first_free(stem, ext, taken, k) ==> taken.contains(
                #[trigger] candidate(stem, ext, j),
            ),
    decreases taken.len() + 2 - k,
{
    lemma_some_candidate_free(stem, ext, taken);
    if k > taken.len() + 1 {
        let w = choose|w: nat| 1 <= w <= taken.len() + 1 && !taken.contains(#[trigger] candidate(stem, ext, w));
        assert(taken.contains(candidate(stem, ext, w)));
    } else if taken.contains(candidate(stem, ext, k)) {
        lemma_first_free(stem, ext, taken, k + 1);
    }
}

/// The result of `unique_name_spec` is never taken.
pub proof fn lemma_unique_name_free(name: Seq<char>, taken: Seq<Seq<char>>)
    ensures
        !taken.contains(unique_name_spec(name, taken)),
{
    if taken.contains(name) {
        lemma_first_free(stem_of(name), ext_of(name), taken, 1);
    }
}

/// Resolving a name gives one that is free in the directory, the same one
/// each time while the directory's names stay the same (the result is a
/// function of the name and those names). Once that name has been created
/// there, resolving again gives another free name, `stem (k)ext` with `k >= 1`.
pub proof fn lemma_unique_name_idempotent(name: Seq<char>, taken: Seq<Seq<char>>)
    ensures
        !taken.contains(unique_name_spec(name, taken)),
        ({
            let r = unique_name_spec(name, taken);
            let again = unique_name_spec(name, taken.push(r));
            &&& again != r
            &&& !taken.push(r).contains(again)
            &&& first_free(stem_of(name), ext_of(name), taken.push(r), 1) >= 1
            &&& again == candidate(
                stem_of(name),
                ext_of(name),
                first_free(stem_of(name), ext_of(name), taken.push(r), 1),
            )
        }),
{
    let r = unique_name_spec(name, taken);
    let t2 = taken.push(r);
    lemma_unique_name_free(name, taken);
    lemma_unique_name_free(name, t2);
    assert(t2[taken.len() as int] == r);
    if taken.contains(name) {
        let j = choose|j: int| 0 <= j < taken.len() && taken[j] == name;
        assert(t2[j] == name);
    } else {
        assert(t2[taken.len() as int] == name);
    }
    assert(t2.contains(name));
    lemma_first_free(stem_of(name), ext_of(name), t2, 1);
}

/// Whether `name` is among `names`.
pub fn contains_name(names: &Vec<String>, name: &String) -> (r: bool)
    ensures
        r == name_views(names@).contains(name@),
{
    let mut i: usize = 0;
    while i < names.len()
        invariant
            i <= names.len(),
            forall|j: int| 0 <= j < i ==> names@[j]@ != name@,
        decreases names.len() - i,
    {
        if names[i] == *name {
            proof {
                assert(name_views(names@)[i as int] == name@);
            }
            return true;
        }
        i = i + 1;
    }
    proof {
        if name_views(names@).contains(name@) {
            let j = choose|j: int| 0 <= j < name_views(names@).len() && name_views(names@)[j] == name@;
            assert(names@[j]@ == name@);
        }
    }
    false
}

/// Builds `stem (k)ext`.
pub fn candidate_name(stem: &str, ext: &str, k: u64) -> (r: String)
    ensures
        r@ == candidate(stem@, ext@, k as nat),
{
    let mut out = String::from_str(stem);
    out.append(" (");
    push_decimal(&mut out, k);
    out.append(")");
    proof {
        reveal_strlit(" (");
        reveal_strlit(")");
        assert(out@ =~= candidate(stem@, ext@, k as nat).subrange(0, out@.len() as int));
    }
    out.append(ext);
    proof {
        assert(out@ =~= candidate(stem@, ext@, k as nat));
    }
    out
}

/// A name for `name` in a directory whose names are `taken`: `name` itself
/// when it is free, else `stem (k)ext` for the least free counter `k >= 1`.
pub fn unique_name(name: &String, taken: &Vec<String>) -> (r: String)
    requires
        taken.len() < u64::MAX,
    ensures
        r@ == unique_name_spec(name@, name_views(taken@)),
        !name_views(taken@).contains(r@),
{
    let ghost tv = name_views(taken@);
    proof {
        lemma_unique_name_free(name@, tv);
    }
    if !contains_name(taken, name) {
        return name.clone();
    }
    let s = name.as_str();
    let e = extension_start(s);
    proof {
        lemma_last_dot(name@);
    }
    let stem = s.substring_char(0, e);
    let ext = s.substring_char(e, s.unicode_len());
    let mut k: u64 = 1;
    loop
        invariant
            1 <= k <= tv.len() + 1,
            stem@ == stem_of(name@),
            ext@ == ext_of(name@),
            tv == name_views(taken@),
            tv.len() == taken.len(),
            taken.len() < u64::MAX,
            tv.contains(name@),
            forall|j: nat| 1 <= j < k ==> tv.contains(#[trigger] candidate(stem@, ext@, j)),
            first_free(stem@, ext@, tv, 1) == first_free(stem@, ext@, tv, k as nat),
        decreases tv.len() + 1 - k,
    {
        let c = candidate_name(stem, ext, k);
        if !contains_name(taken, &c) {
            return c;
        }
        proof {
            lemma_some_candidate_free(stem@, ext@, tv);
            if k == tv.len() + 1 {
                let w = choose|w: nat| 1 <= w <= tv.len() + 1 && !tv.contains(#[trigger] candidate(stem@, ext@, w));
                assert(tv.contains(candidate(stem@, ext@, w)));
            }
        }
        k = k + 1;
    }
}

/// `prefix`, then the decimal text of `n`, then `suffix`.
pub fn count_message(prefix: &str, n: u64, suffix: &str) -> (r: String)
    ensures
        r@ == prefix@ + dec(n as nat) + suffix@,
{
    let mut out = String::from_str(prefix);
    push_decimal(&mut out, n);
    out.append(suffix);
    out
}

/// `prefix`, then `middle`, then `suffix`.
pub fn framed(prefix: &str, middle: &str, suffix: &str) -> (r: String)
    ensures
        r@ == prefix@ + middle@ + suffix@,
{
    let mut out = String::from_str(prefix);
    out.append(middle);
    out.append(suffix);
    out
}

} // verus!
