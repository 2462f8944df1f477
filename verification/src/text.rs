//! Verified text utilities: conversions between `String` and `Vec<char>`,
//! string equality, and the trigger normalization rule (trim surrounding
//! whitespace, lowercase ASCII letters) used throughout the command store.

use vstd::prelude::*;

verus! {

/// Relies on `String::push`: appends the given character to the end of the string.
pub assume_specification[ String::push ](s: &mut String, c: char)
    ensures
        final(s)@ == old(s)@.push(c),
;

/// The whitespace characters that trigger normalization strips.
pub open spec fn is_space_char(c: char) -> bool {
    c == ' ' || c == '\t' || c == '\n' || c == '\r'
}

/// ASCII lowercasing of a single character; anything but an ASCII capital
/// letter is left unchanged.
pub open spec fn lower_char(c: char) -> char {
    if c == 'A' { 'a' } else if c == 'B' { 'b' } else if c == 'C' { 'c' }
    else if c == 'D' { 'd' } else if c == 'E' { 'e' } else if c == 'F' { 'f' }
    else if c == 'G' { 'g' } else if c == 'H' { 'h' } else if c == 'I' { 'i' }
    else if c == 'J' { 'j' } else if c == 'K' { 'k' } else if c == 'L' { 'l' }
    else if c == 'M' { 'm' } else if c == 'N' { 'n' } else if c == 'O' { 'o' }
    else if c == 'P' { 'p' } else if c == 'Q' { 'q' } else if c == 'R' { 'r' }
    else if c == 'S' { 's' } else if c == 'T' { 't' } else if c == 'U' { 'u' }
    else if c == 'V' { 'v' } else if c == 'W' { 'w' } else if c == 'X' { 'x' }
    else if c == 'Y' { 'y' } else if c == 'Z' { 'z' } else { c }
}

pub open spec fn lower(s: Seq<char>) -> Seq<char> {
    s.map_values(|c: char| lower_char(c))
}

pub open spec fn trim_front(s: Seq<char>) -> Seq<char>
    decreases s.len(),
{
    if s.len() > 0 && is_space_char(s[0]) {
        trim_front(s.drop_first())
    } else {
        s
    }
}

pub open spec fn trim_back(s: Seq<char>) -> Seq<char>
    decreases s.len(),
{
    if s.len() > 0 && is_space_char(s.last()) {
        trim_back(s.drop_last())
    } else {
        s
    }
}

pub open spec fn trim(s: Seq<char>) -> Seq<char> {
    trim_back(trim_front(s))
}

/// The normalization applied to command triggers before they are stored,
/// compared or looked up.
pub open spec fn normalized(s: Seq<char>) -> Seq<char> {
    lower(trim(s))
}

/// A normalized trigger has no surrounding whitespace and no ASCII capitals,
/// so normalizing is idempotent.
pub proof fn lemma_normalized_idempotent(s: Seq<char>)
    ensures
        normalized(normalized(s)) == normalized(s),
{
    let t = trim(s);
    lemma_trim_is_trimmed(s);
    let u = lower(t);
    if u.len() > 0 {
        assert(u[0] == lower_char(t[0]));
        assert(u.last() == lower_char(t[t.len() - 1]));
    }
    lemma_trimmed_fixpoint(u);
    assert(lower(lower(t)) =~= lower(t)) by {
        assert forall|i: int| 0 <= i < lower(t).len() implies #[trigger] lower(lower(t))[i]
            == lower(t)[i] by {
            assert(lower_char(lower_char(t[i])) == lower_char(t[i]));
        }
    }
}

/// Trimming leaves no whitespace at either end.
pub proof fn lemma_trim_is_trimmed(s: Seq<char>)
    ensures
        trim(s).len() > 0 ==> !is_space_char(trim(s)[0]),
        trim(s).len() > 0 ==> !is_space_char(trim(s).last()),
{
    lemma_trim_front_no_lead(s);
    let f = trim_front(s);
    lemma_trim_back_no_trail(f);
    if trim_back(f).len() > 0 {
        lemma_trim_back_prefix(f);
        assert(trim_back(f)[0] == f[0]);
    }
}

/// A sequence with no leading or trailing whitespace trims to itself.
pub proof fn lemma_trimmed_fixpoint(s: Seq<char>)
    requires
        s.len() > 0 ==> !is_space_char(s[0]),
        s.len() > 0 ==> !is_space_char(s.last()),
    ensures
        trim(s) == s,
{
    assert(trim_front(s) == s);
    assert(trim_back(s) == s);
}

proof fn lemma_trim_front_no_lead(s: Seq<char>)
    ensures
        trim_front(s).len() > 0 ==> !is_space_char(trim_front(s)[0]),
    decreases s.len(),
{
    if s.len() > 0 && is_space_char(s[0]) {
        lemma_trim_front_no_lead(s.drop_first());
    }
}

proof fn lemma_trim_back_no_trail(s: Seq<char>)
    ensures
        trim_back(s).len() > 0 ==> !is_space_char(trim_back(s).last()),
    decreases s.len(),
{
    if s.len() > 0 && is_space_char(s.last()) {
        lemma_trim_back_no_trail(s.drop_last());
    }
}

/// `trim_back` only removes a suffix: what is left is a prefix of the input.
pub proof fn lemma_trim_back_prefix(s: Seq<char>)
    ensures
        trim_back(s).len() <= s.len(),
        forall|i: int| 0 <= i < trim_back(s).len() ==> #[trigger] trim_back(s)[i] == s[i],
    decreases s.len(),
{
    if s.len() > 0 && is_space_char(s.last()) {
        lemma_trim_back_prefix(s.drop_last());
    }
}

/// The characters of a string, in order.
pub fn str_chars(s: &str) -> (r: Vec<char>)
    ensures
        r@ == s@,
{
    let n = s.unicode_len();
    let mut r: Vec<char> = Vec::new();
    let mut i: usize = 0;
    while i < n
        invariant
            n == s@.len(),
            i <= n,
            r@ == s@.subrange(0, i as int),
        decreases n - i,
    {
        r.push(s.get_char(i));
        i += 1;
        assert(r@ =~= s@.subrange(0, i as int));
    }
    assert(r@ =~= s@);
    r
}

/// A string holding exactly the given characters.
pub fn chars_string(v: &Vec<char>) -> (r: String)
    ensures
        r@ == v@,
{
    let mut r = String::new();
    let mut i: usize = 0;
    while i < v.len()
        invariant
            i <= v@.len(),
            r@ == v@.subrange(0, i as int),
        decreases v@.len() - i,
    {
        r.push(v[i]);
        i += 1;
        assert(r@ =~= v@.subrange(0, i as int));
    }
    assert(r@ =~= v@);
    r
}

/// Character-for-character equality of two string slices.
pub fn str_eq(a: &str, b: &str) -> (r: bool)
    ensures
        r == (a@ == b@),
{
    let n = a.unicode_len();
    if n != b.unicode_len() {
        assert(a@.len() != b@.len());
        return false;
    }
    let mut i: usize = 0;
    while i < n
        invariant
            n == a@.len() && n == b@.len(),
            i <= n,
            forall|j: int| 0 <= j < i ==> a@[j] == b@[j],
        decreases n - i,
    {
        if a.get_char(i) != b.get_char(i) {
            return false;
        }
        i += 1;
    }
    assert(a@ =~= b@);
    true
}

fn lower_char_exec(c: char) -> (r: char)
    ensures
        r == lower_char(c),
{
    if c == 'A' { 'a' } else if c == 'B' { 'b' } else if c == 'C' { 'c' }
    else if c == 'D' { 'd' } else if c == 'E' { 'e' } else if c == 'F' { 'f' }
    else if c == 'G' { 'g' } else if c == 'H' { 'h' } else if c == 'I' { 'i' }
    else if c == 'J' { 'j' } else if c == 'K' { 'k' } else if c == 'L' { 'l' }
    else if c == 'M' { 'm' } else if c == 'N' { 'n' } else if c == 'O' { 'o' }
    else if c == 'P' { 'p' } else if c == 'Q' { 'q' } else if c == 'R' { 'r' }
    else if c == 'S' { 's' } else if c == 'T' { 't' } else if c == 'U' { 'u' }
    else if c == 'V' { 'v' } else if c == 'W' { 'w' } else if c == 'X' { 'x' }
    else if c == 'Y' { 'y' } else if c == 'Z' { 'z' } else { c }
}

fn is_space_exec(c: char) -> (r: bool)
    ensures
        r == is_space_char(c),
{
    c == ' ' || c == '\t' || c == '\n' || c == '\r'
}

/// Normalize a trigger: strip surrounding whitespace, lowercase ASCII letters.
pub fn normalize_trigger(s: &str) -> (r: String)
    ensures
        r@ == normalized(s@),
{
    let cs = str_chars(s);
    let n = cs.len();

    let mut start: usize = 0;
    while start < n && is_space_exec(cs[start])
        invariant
            n == cs@.len(),
            start <= n,
            forall|j: int| 0 <= j < start ==> is_space_char(cs@[j]),
        decreases n - start,
    {
        start += 1;
    }
    proof {
        lemma_trim_front_skip(cs@, start as int);
    }
    // everything before `start` is whitespace, so trim_front drops exactly it
    let mut end: usize = n;
    while end > start && is_space_exec(cs[end - 1])
        invariant
            n == cs@.len(),
            start <= end <= n,
            forall|j: int| end <= j < n ==> is_space_char(cs@[j]),
        decreases end,
    {
        end -= 1;
    }
    proof {
        lemma_trim_back_skip(cs@.subrange(start as int, n as int), end - start);
        assert(trim(cs@) =~= cs@.subrange(start as int, end as int));
    }

    let mut out: Vec<char> = Vec::new();
    let mut i: usize = start;
    while i < end
        invariant
            n == cs@.len(),
            start <= i <= end <= n,
            out@ == lower(cs@.subrange(start as int, i as int)),
        decreases end - i,
    {
        out.push(lower_char_exec(cs[i]));
        i += 1;
        assert(out@ =~= lower(cs@.subrange(start as int, i as int)));
    }
    assert(out@ =~= normalized(cs@));
    chars_string(&out)
}

/// The lines of `s`, split on newlines; text without a newline is one line.
pub open spec fn split_lines(s: Seq<char>) -> Seq<Seq<char>>
    decreases s.len(),
{
    if s.len() == 0 {
        seq![Seq::empty()]
    } else if s[0] == '\n' {
        seq![Seq::<char>::empty()] + split_lines(s.drop_first())
    } else {
        let rest = split_lines(s.drop_first());
        seq![seq![s[0]] + rest[0]] + rest.drop_first()
    }
}

pub proof fn lemma_split_lines_nonempty(s: Seq<char>)
    ensures
        split_lines(s).len() >= 1,
    decreases s.len(),
{
    if s.len() > 0 {
        lemma_split_lines_nonempty(s.drop_first());
    }
}

/// The lines of `s`, as strings.
pub fn split_lines_exec(s: &str) -> (r: Vec<String>)
    ensures
        r.deep_view() == split_lines(s@),
{
    let cs = crate::text::str_chars(s);
    let n = cs.len();
    let mut done: Vec<String> = Vec::new();
    let mut cur: Vec<char> = Vec::new();
    proof {
        assert(cs@.subrange(0, n as int) =~= cs@);
    }
    let mut i: usize = 0;
    while i < n
        invariant
            n == cs@.len(),
            cs@ == s@,
            i <= n,
            split_lines(s@) =~= done.deep_view() + seq![
                cur@ + split_lines(cs@.subrange(i as int, n as int))[0],
            ] + split_lines(cs@.subrange(i as int, n as int)).drop_first(),
        decreases n - i,
    {
        let ghost rem = cs@.subrange(i as int, n as int);
        let ghost rem2 = cs@.subrange(i + 1, n as int);
        let ghost cur0 = cur@;
        let ghost done0 = done.deep_view();
        proof {
            assert(rem[0] == cs@[i as int]);
            assert(rem.drop_first() =~= rem2);
            lemma_split_lines_nonempty(rem2);
            assert(split_lines(rem2) =~= seq![split_lines(rem2)[0]] + split_lines(
                rem2,
            ).drop_first());
        }
        if cs[i] == '\n' {
            let line = crate::text::chars_string(&cur);
            done.push(line);
            cur = Vec::new();
            proof {
                assert(split_lines(rem) =~= seq![Seq::<char>::empty()] + split_lines(rem2));
                assert(split_lines(rem)[0] =~= Seq::<char>::empty());
                assert(split_lines(rem).drop_first() =~= split_lines(rem2));
                assert(cur0 + split_lines(rem)[0] =~= cur0);
                assert(done.deep_view() =~= done0 + seq![cur0]);
                assert(done.deep_view() + seq![cur@ + split_lines(rem2)[0]] + split_lines(
                    rem2,
                ).drop_first() =~= done0 + seq![cur0 + split_lines(rem)[0]] + split_lines(
                    rem,
                ).drop_first());
            }
        } else {
            cur.push(cs[i]);
            proof {
                assert(split_lines(rem) =~= seq![seq![rem[0]] + split_lines(rem2)[0]]
                    + split_lines(rem2).drop_first());
                assert(split_lines(rem)[0] =~= seq![cs@[i as int]] + split_lines(rem2)[0]);
                assert(split_lines(rem).drop_first() =~= split_lines(rem2).drop_first());
                assert(cur@ =~= cur0 + seq![cs@[i as int]]);
                assert(cur@ + split_lines(rem2)[0] =~= cur0 + split_lines(rem)[0]);
                assert(done.deep_view() + seq![cur@ + split_lines(rem2)[0]] + split_lines(
                    rem2,
                ).drop_first() =~= done0 + seq![cur0 + split_lines(rem)[0]] + split_lines(
                    rem,
                ).drop_first());
            }
        }
        i += 1;
    }
    proof {
        assert(cs@.subrange(n as int, n as int) =~= Seq::<char>::empty());
        assert(split_lines(Seq::<char>::empty()) =~= seq![Seq::<char>::empty()]);
    }
    let line = crate::text::chars_string(&cur);
    done.push(line);
    proof {
        assert(done.deep_view() =~= split_lines(s@));
    }
    done
}


/// Strip surrounding whitespace.
pub fn trim_str(s: &str) -> (r: String)
    ensures
        r@ == trim(s@),
{
    let cs = str_chars(s);
    let n = cs.len();
    let mut start: usize = 0;
    while start < n && is_space_exec(cs[start])
        invariant
            n == cs@.len(),
            cs@ == s@,
            start <= n,
            forall|j: int| 0 <= j < start ==> is_space_char(cs@[j]),
        decreases n - start,
    {
        start += 1;
    }
    proof {
        lemma_trim_front_skip(cs@, start as int);
    }
    let mut end: usize = n;
    while end > start && is_space_exec(cs[end - 1])
        invariant
            n == cs@.len(),
            cs@ == s@,
            start <= end <= n,
            forall|j: int| end <= j < n ==> is_space_char(cs@[j]),
        decreases end,
    {
        end -= 1;
    }
    proof {
        lemma_trim_back_skip(cs@.subrange(start as int, n as int), end - start);
        assert(trim(cs@) =~= cs@.subrange(start as int, end as int));
    }
    let mut out: Vec<char> = Vec::new();
    let mut i: usize = start;
    while i < end
        invariant
            n == cs@.len(),
            start <= i <= end <= n,
            out@ == cs@.subrange(start as int, i as int),
        decreases end - i,
    {
        out.push(cs[i]);
        i += 1;
        assert(out@ =~= cs@.subrange(start as int, i as int));
    }
    chars_string(&out)
}

/// Lines joined with a separator between them.
pub open spec fn joined(xs: Seq<Seq<char>>, sep: Seq<char>) -> Seq<char>
    decreases xs.len(),
{
    if xs.len() == 0 {
        Seq::empty()
    } else if xs.len() == 1 {
        xs[0]
    } else {
        joined(xs.drop_last(), sep) + sep + xs.last()
    }
}

/// Join the given lines with newlines between them.
pub fn join_lines(xs: &Vec<String>) -> (r: String)
    ensures
        r@ == joined(xs.deep_view(), "\n"@),
{
    let ghost full = xs.deep_view();
    let mut out = String::new();
    let mut i: usize = 0;
    while i < xs.len()
        invariant
            full == xs.deep_view(),
            i <= full.len(),
            out@ == joined(full.subrange(0, i as int), "\n"@),
        decreases full.len() - i,
    {
        let ghost prefix = full.subrange(0, i as int);
        let ghost next_prefix = full.subrange(0, i + 1 as int);
        proof {
            assert(next_prefix.drop_last() =~= prefix);
            assert(next_prefix.last() == full[i as int]);
        }
        if i > 0 {
            out.append("\n");
        }
        out.append(xs[i].as_str());
        proof {
            if i == 0 {
                assert(out@ =~= next_prefix[0]);
            }
        }
        i += 1;
    }
    proof {
        assert(full.subrange(0, full.len() as int) =~= full);
    }
    out
}

/// Where the first `k` characters are whitespace and the next one is not,
/// `trim_front` drops exactly those `k`.
pub proof fn lemma_trim_front_skip(s: Seq<char>, k: int)
    requires
        0 <= k <= s.len(),
        forall|j: int| 0 <= j < k ==> is_space_char(s[j]),
        k < s.len() ==> !is_space_char(s[k]),
    ensures
        trim_front(s) == s.subrange(k, s.len() as int),
    decreases k,
{
    if k == 0 {
        if s.len() > 0 && is_space_char(s[0]) {
            assert(false);
        }
        assert(s.subrange(0, s.len() as int) =~= s);
    } else {
        assert(is_space_char(s[0]));
        lemma_trim_front_skip(s.drop_first(), k - 1);
        assert(s.drop_first().subrange(k - 1, s.drop_first().len() as int) =~= s.subrange(
            k,
            s.len() as int,
        ));
    }
}

proof fn lemma_trim_back_skip(s: Seq<char>, k: int)
    requires
        0 <= k <= s.len(),
        forall|j: int| k <= j < s.len() ==> is_space_char(s[j]),
        k > 0 ==> !is_space_char(s[k - 1]),
    ensures
        trim_back(s) == s.subrange(0, k),
    decreases s.len() - k,
{
    if k == s.len() {
        if s.len() > 0 && is_space_char(s.last()) {
            assert(false);
        }
        assert(s.subrange(0, s.len() as int) =~= s);
    } else {
        assert(is_space_char(s.last()));
        lemma_trim_back_skip(s.drop_last(), k);
        assert(s.drop_last().subrange(0, k) =~= s.subrange(0, k));
    }
}

} // verus!
