//! Character-sequence helpers over the `Seq<char>` view of strings: white space,
//! ASCII lower-casing, trimming, substring search, splitting into words and joining.
use vstd::prelude::*;

verus! {

/// The characters of `s`, in order.
pub fn str_to_chars(s: &str) -> (res: Vec<char>)
    ensures
        res@ == s@,
{
    broadcast use vstd::string::group_string_axioms;

    let mut res: Vec<char> = Vec::new();
    for c in it: s.chars()
        invariant
            it.seq() == s@,
            res@ == s@.take(it.index() as int),
    {
        res.push(c);
    }
    res
}

/// Appends `c` to `s` with std's `String::push`, which adds the character at the end.
#[verifier::external_body]
fn string_push(s: &mut String, c: char)
    ensures
        final(s)@ == old(s)@.push(c),
{
    s.push(c);
}

/// The string made of `chars`.
pub fn string_from_chars(chars: &Vec<char>) -> (res: String)
    ensures
        res@ == chars@,
{
    let mut res = String::new();
    for i in 0..chars.len()
        invariant
            res@ == chars@.take(i as int),
    {
        string_push(&mut res, chars[i]);
        assert(chars@.take(i + 1) =~= chars@.take(i as int).push(chars@[i as int]));
    }
    assert(chars@.take(chars.len() as int) =~= chars@);
    res
}

/// The Unicode `White_Space` property, the set of characters that
/// `char::is_whitespace`, `str::trim` and `str::split_whitespace` treat as space.
pub open spec fn is_white_space(c: char) -> bool {
    let u = c as u32;
    ||| 0x09 <= u <= 0x0D
    ||| u == 0x20
    ||| u == 0x85
    ||| u == 0xA0
    ||| u == 0x1680
    ||| 0x2000 <= u <= 0x200A
    ||| u == 0x2028
    ||| u == 0x2029
    ||| u == 0x202F
    ||| u == 0x205F
    ||| u == 0x3000
}

/// Whether `c` is Unicode white space.
pub fn char_is_whitespace(c: char) -> (b: bool)
    ensures
        b == is_white_space(c),
{
    let u = c as u32;
    (0x09 <= u && u <= 0x0D) || u == 0x20 || u == 0x85 || u == 0xA0 || u == 0x1680 || (0x2000
        <= u && u <= 0x200A) || u == 0x2028 || u == 0x2029 || u == 0x202F || u == 0x205F || u
        == 0x3000
}

/// `c` with ASCII upper-case letters mapped to lower case; every other character unchanged.
pub open spec fn ascii_lower(c: char) -> char {
    if 'A' <= c <= 'Z' {
        ((c as u32) + 32) as char
    } else {
        c
    }
}

/// ASCII lower-casing of a whole sequence, character by character.
pub open spec fn ascii_lower_seq(s: Seq<char>) -> Seq<char> {
    s.map_values(|c: char| ascii_lower(c))
}

/// ASCII lower-casing of one character.
pub fn char_to_ascii_lowercase(c: char) -> (r: char)
    ensures
        r == ascii_lower(c),
{
    if 'A' <= c && c <= 'Z' {
        let b = c as u8;
        let l = (b + 32) as char;
        assert(l == ((c as u32) + 32) as char);
        l
    } else {
        c
    }
}

/// ASCII lower-casing of a character vector.
pub fn chars_to_ascii_lowercase(s: &Vec<char>) -> (r: Vec<char>)
    ensures
        r@ == ascii_lower_seq(s@),
{
    let mut r: Vec<char> = Vec::new();
    for i in 0..s.len()
        invariant
            r@ == ascii_lower_seq(s@.take(i as int)),
    {
        r.push(char_to_ascii_lowercase(s[i]));
        assert(ascii_lower_seq(s@.take(i + 1)) == ascii_lower_seq(s@.take(i as int)).push(
            ascii_lower(s@[i as int]),
        ));
    }
    assert(s@.take(s.len() as int) == s@);
    r
}

/// Whether the characters of `a` and `b` are the same.
pub fn chars_eq(a: &Vec<char>, b: &Vec<char>) -> (r: bool)
    ensures
        r == (a@ == b@),
{
    if a.len() != b.len() {
        return false;
    }
    for i in 0..a.len()
        invariant
            a.len() == b.len(),
            forall|j: int| 0 <= j < i ==> a@[j] == b@[j],
    {
        if a[i] != b[i] {
            return false;
        }
    }
    assert(a@ =~= b@);
    true
}

/// `p` occurs in `s` starting at position `i`.
pub open spec fn occurs_at(s: Seq<char>, p: Seq<char>, i: int) -> bool {
    0 <= i && i + p.len() <= s.len() && s.subrange(i, i + p.len()) == p
}

/// `p` occurs somewhere in `s` (the empty sequence occurs in every sequence).
pub open spec fn has_substring(s: Seq<char>, p: Seq<char>) -> bool {
    exists|i: int| occurs_at(s, p, i)
}

/// Whether `p` occurs in `s` at position `i`.
fn matches_at(s: &Vec<char>, p: &Vec<char>, i: usize) -> (r: bool)
    requires
        i + p.len() <= s.len(),
    ensures
        r == occurs_at(s@, p@, i as int),
{
    for j in 0..p.len()
        invariant
            i + p.len() <= s.len(),
            forall|k: int| 0 <= k < j ==> s@[i + k] == p@[k],
    {
        if s[i + j] != p[j] {
            assert(s@.subrange(i as int, i + p.len())[j as int] != p@[j as int]);
            return false;
        }
    }
    assert(s@.subrange(i as int, i + p.len()) =~= p@);
    true
}

/// Whether `p` occurs somewhere in `s`.
pub fn contains_chars(s: &Vec<char>, p: &Vec<char>) -> (r: bool)
    ensures
        r == has_substring(s@, p@),
{
    if p.len() > s.len() {
        return false;
    }
    let last = s.len() - p.len();
    let mut i: usize = 0;
    loop
        invariant
            last + p.len() == s.len(),
            i <= last,
            forall|k: int| 0 <= k < i ==> !occurs_at(s@, p@, k),
        ensures
            !has_substring(s@, p@),
        decreases last - i,
    {
        if matches_at(s, p, i) {
            return true;
        }
        if i == last {
            assert forall|k: int| !occurs_at(s@, p@, k) by {
                if 0 <= k < i {
                } else if k == i {
                }
            }
            break;
        }
        i = i + 1;
    }
    false
}

/// Whether the string `p` occurs in `s`.
pub fn contains_str(s: &Vec<char>, p: &str) -> (r: bool)
    ensures
        r == has_substring(s@, p@),
{
    let pc = str_to_chars(p);
    contains_chars(s, &pc)
}

/// `s` without its leading white space.
pub open spec fn trim_start(s: Seq<char>) -> Seq<char>
    decreases s.len(),
{
    if s.len() > 0 && is_white_space(s[0]) {
        trim_start(s.drop_first())
    } else {
        s
    }
}

/// `s` without its trailing white space.
pub open spec fn trim_end(s: Seq<char>) -> Seq<char>
    decreases s.len(),
{
    if s.len() > 0 && is_white_space(s.last()) {
        trim_end(s.drop_last())
    } else {
        s
    }
}

/// `s` without leading and trailing white space, as `str::trim` gives it.
pub open spec fn trim(s: Seq<char>) -> Seq<char> {
    trim_end(trim_start(s))
}

proof fn lemma_trim_start_skip(s: Seq<char>, i: int)
    requires
        0 <= i <= s.len(),
        forall|k: int| 0 <= k < i ==> is_white_space(s[k]),
    ensures
        trim_start(s) == trim_start(s.skip(i)),
    decreases i,
{
    if i > 0 {
        assert(s.skip(1) =~= s.drop_first());
        lemma_trim_start_skip(s.drop_first(), i - 1);
        assert(s.drop_first().skip(i - 1) =~= s.skip(i));
    } else {
        assert(s.skip(0) =~= s);
    }
}

proof fn lemma_trim_end_take(s: Seq<char>, n: int)
    requires
        0 <= n <= s.len(),
        forall|k: int| n <= k < s.len() ==> is_white_space(s[k]),
    ensures
        trim_end(s) == trim_end(s.take(n)),
    decreases s.len() - n,
{
    if n < s.len() {
        assert(s.take(s.len() - 1) =~= s.drop_last());
        lemma_trim_end_take(s.drop_last(), n);
        assert(s.drop_last().take(n) =~= s.take(n));
    } else {
        assert(s.take(n) =~= s);
    }
}

/// `s` without leading and trailing white space.
pub fn trim_chars(s: &Vec<char>) -> (r: Vec<char>)
    ensures
        r@ == trim(s@),
{
    let mut lo: usize = 0;
    while lo < s.len() && char_is_whitespace(s[lo])
        invariant
            lo <= s.len(),
            forall|k: int| 0 <= k < lo ==> is_white_space(s@[k]),
        decreases s.len() - lo,
    {
        lo = lo + 1;
    }
    proof {
        lemma_trim_start_skip(s@, lo as int);
        assert(trim_start(s@.skip(lo as int)) == s@.skip(lo as int));
    }
    let mut hi: usize = s.len();
    while hi > lo && char_is_whitespace(s[hi - 1])
        invariant
            lo <= hi <= s.len(),
            forall|k: int| hi <= k < s.len() ==> is_white_space(s@[k]),
        decreases hi,
    {
        hi = hi - 1;
    }
    let mut r: Vec<char> = Vec::new();
    let mut i = lo;
    while i < hi
        invariant
            lo <= i <= hi <= s.len(),
            r@ == s@.subrange(lo as int, i as int),
        decreases hi - i,
    {
        r.push(s[i]);
        i = i + 1;
        assert(r@ =~= s@.subrange(lo as int, i as int));
    }
    proof {
        let t = s@.skip(lo as int);
        let n = hi - lo;
        assert forall|k: int| n <= k < t.len() implies is_white_space(t[k]) by {
            assert(t[k] == s@[lo + k]);
        }
        lemma_trim_end_take(t, n as int);
        assert(t.take(n as int) =~= r@);
        if r@.len() > 0 {
            assert(!is_white_space(r@.last()));
        }
        assert(trim_end(r@) == r@);
    }
    r
}

/// The trimmed characters of a string.
pub fn trim_str(s: &str) -> (r: Vec<char>)
    ensures
        r@ == trim(s@),
{
    let c = str_to_chars(s);
    trim_chars(&c)
}

/// The words of `s` that follow the partial word `cur`: maximal runs of characters
/// that are not white space, as `str::split_whitespace` yields them.
pub open spec fn split_words_from(s: Seq<char>, cur: Seq<char>) -> Seq<Seq<char>>
    decreases s.len(),
{
    if s.len() == 0 {
        if cur.len() > 0 {
            seq![cur]
        } else {
            seq![]
        }
    } else if is_white_space(s[0]) {
        if cur.len() > 0 {
            seq![cur] + split_words_from(s.drop_first(), seq![])
        } else {
            split_words_from(s.drop_first(), seq![])
        }
    } else {
        split_words_from(s.drop_first(), cur.push(s[0]))
    }
}

/// The white-space separated words of `s`, in order.
pub open spec fn split_words(s: Seq<char>) -> Seq<Seq<char>> {
    split_words_from(s, seq![])
}

/// The words of `s`, in order.
pub fn split_whitespace(s: &Vec<char>) -> (words: Vec<Vec<char>>)
    ensures
        words@.map_values(|w: Vec<char>| w@) == split_words(s@),
{
    let mut words: Vec<Vec<char>> = Vec::new();
    let mut cur: Vec<char> = Vec::new();
    assert(s@.skip(0) =~= s@);
    assert(words@.map_values(|w: Vec<char>| w@) + split_words_from(s@, cur@) =~= split_words_from(
        s@,
        cur@,
    ));
    for i in 0..s.len()
        invariant
            words@.map_values(|w: Vec<char>| w@) + split_words_from(s@.skip(i as int), cur@)
                == split_words(s@),
    {
        let ghost before = words@.map_values(|w: Vec<char>| w@);
        let ghost cur0 = cur@;
        let ghost rest = s@.skip(i as int);
        assert(rest.drop_first() =~= s@.skip(i + 1));
        assert(rest[0] == s@[i as int]);
        if char_is_whitespace(s[i]) {
            if cur.len() > 0 {
                let w = cur;
                cur = Vec::new();
                words.push(w);
                assert(words@.map_values(|w: Vec<char>| w@) =~= before.push(cur0));
                assert(before + split_words_from(rest, cur0) == before + (seq![cur0]
                    + split_words_from(s@.skip(i + 1), seq![])));
                assert(before + (seq![cur0] + split_words_from(s@.skip(i + 1), seq![]))
                    =~= before.push(cur0) + split_words_from(s@.skip(i + 1), seq![]));
                assert(cur@ =~= Seq::<char>::empty());
            } else {
                assert(cur0 =~= Seq::<char>::empty());
            }
        } else {
            cur.push(s[i]);
        }
    }
    let ghost before = words@.map_values(|w: Vec<char>| w@);
    assert(s@.skip(s.len() as int) =~= Seq::<char>::empty());
    if cur.len() > 0 {
        let w = cur;
        words.push(w);
        assert(words@.map_values(|w: Vec<char>| w@) =~= before.push(w@));
    } else {
        assert(before + Seq::<Seq<char>>::empty() =~= before);
    }
    words
}

/// The words joined with `sep` between each two neighbours.
pub open spec fn join(words: Seq<Seq<char>>, sep: Seq<char>) -> Seq<char>
    decreases words.len(),
{
    if words.len() == 0 {
        seq![]
    } else if words.len() == 1 {
        words[0]
    } else {
        join(words.drop_last(), sep) + sep + words.last()
    }
}

/// The words joined with `sep` between each two neighbours.
pub fn join_words(words: &Vec<Vec<char>>, sep: &Vec<char>) -> (r: Vec<char>)
    ensures
        r@ == join(words@.map_values(|w: Vec<char>| w@), sep@),
{
    let ghost ws = words@.map_values(|w: Vec<char>| w@);
    let mut r: Vec<char> = Vec::new();
    for i in 0..words.len()
        invariant
            ws == words@.map_values(|w: Vec<char>| w@),
            r@ == join(ws.take(i as int), sep@),
    {
        assert(ws.take(i + 1).drop_last() =~= ws.take(i as int));
        if i > 0 {
            append_chars(&mut r, sep);
        }
        append_chars(&mut r, &words[i]);
        assert(ws.take(i + 1).last() == words@[i as int]@);
        if i == 0 {
            assert(r@ =~= ws.take(1)[0]);
        }
    }
    assert(ws.take(words.len() as int) =~= ws);
    r
}

/// Appends the characters of `b` to `a`.
pub fn append_chars(a: &mut Vec<char>, b: &Vec<char>)
    ensures
        final(a)@ == old(a)@ + b@,
{
    for i in 0..b.len()
        invariant
            a@ == old(a)@ + b@.take(i as int),
    {
        a.push(b[i]);
        assert(old(a)@ + b@.take(i + 1) =~= (old(a)@ + b@.take(i as int)).push(b@[i as int]));
    }
    assert(b@.take(b.len() as int) =~= b@);
}

/// The decimal digits of a natural number, most significant first, without leading zeros.
pub open spec fn decimal_digits(n: nat) -> Seq<char>
    decreases n,
{
    if n < 10 {
        seq![(('0' as u32) + n) as char]
    } else {
        decimal_digits(n / 10).push((('0' as u32) + (n % 10)) as char)
    }
}

/// The decimal form of an integer, with a leading `-` for a negative one, as `Display` writes it.
pub open spec fn decimal(n: int) -> Seq<char> {
    if n < 0 {
        seq!['-'] + decimal_digits((-n) as nat)
    } else {
        decimal_digits(n as nat)
    }
}

fn digit_char(d: u64) -> (c: char)
    requires
        d < 10,
    ensures
        c == (('0' as u32) + d) as char,
{
    let b = (d as u8) + 48;
    b as char
}

fn decimal_digits_exec(n: u64) -> (r: Vec<char>)
    ensures
        r@ == decimal_digits(n as nat),
    decreases n,
{
    if n < 10 {
        let mut r: Vec<char> = Vec::new();
        r.push(digit_char(n));
        r
    } else {
        let mut r = decimal_digits_exec(n / 10);
        r.push(digit_char(n % 10));
        r
    }
}

/// The decimal form of `n`.
pub fn i64_to_decimal(n: i64) -> (r: Vec<char>)
    ensures
        r@ == decimal(n as int),
{
    if n < 0 {
        let m: u64 = if n == i64::MIN {
            9223372036854775808u64
        } else {
            (-n) as u64
        };
        let digits = decimal_digits_exec(m);
        let mut r: Vec<char> = Vec::new();
        r.push('-');
        append_chars(&mut r, &digits);
        r
    } else {
        decimal_digits_exec(n as u64)
    }
}

/// `w` holds no white space.
pub open spec fn no_white_space(w: Seq<char>) -> bool {
    forall|i: int| 0 <= i < w.len() ==> !is_white_space(#[trigger] w[i])
}

/// Reading a run of characters without white space only extends the current word.
pub proof fn lemma_split_words_run(w: Seq<char>, rest: Seq<char>, cur: Seq<char>)
    requires
        no_white_space(w),
    ensures
        split_words_from(w + rest, cur) == split_words_from(rest, cur + w),
    decreases w.len(),
{
    if w.len() == 0 {
        assert(w + rest =~= rest);
        assert(cur + w =~= cur);
    } else {
        assert((w + rest)[0] == w[0]);
        assert((w + rest).drop_first() =~= w.drop_first() + rest);
        lemma_split_words_run(w.drop_first(), rest, cur.push(w[0]));
        assert(cur.push(w[0]) + w.drop_first() =~= cur + w);
    }
}

/// `join` adds words at the front as well as at the back.
pub proof fn lemma_join_front(ws: Seq<Seq<char>>, sep: Seq<char>)
    requires
        ws.len() >= 2,
    ensures
        join(ws, sep) == ws[0] + sep + join(ws.drop_first(), sep),
    decreases ws.len(),
{
    if ws.len() == 2 {
        assert(ws.drop_last().len() == 1);
        assert(ws.drop_first().len() == 1);
        assert(join(ws.drop_first(), sep) == ws.drop_first()[0]);
        assert(join(ws.drop_last(), sep) == ws.drop_last()[0]);
        assert(ws.drop_last()[0] == ws[0]);
        assert(ws.last() == ws.drop_first()[0]);
    } else {
        lemma_join_front(ws.drop_last(), sep);
        assert(ws.drop_last()[0] == ws[0]);
        assert(ws.drop_last().drop_first() =~= ws.drop_first().drop_last());
        assert(ws.drop_first().last() == ws.last());
        assert(join(ws.drop_first(), sep) == join(ws.drop_first().drop_last(), sep) + sep
            + ws.drop_first().last());
        assert(join(ws, sep) =~= ws[0] + sep + join(ws.drop_first(), sep));
    }
}

/// Splitting words joined by single spaces gives the words back, when none is empty
/// and none holds white space.
pub proof fn lemma_split_join(ws: Seq<Seq<char>>)
    requires
        forall|k: int| 0 <= k < ws.len() ==> (#[trigger] ws[k]).len() > 0 && no_white_space(
            ws[k],
        ),
    ensures
        split_words(join(ws, seq![' '])) == ws,
    decreases ws.len(),
{
    let sp = seq![' '];
    if ws.len() == 0 {
    } else if ws.len() == 1 {
        lemma_split_words_run(ws[0], seq![], seq![]);
        assert(ws[0] + Seq::<char>::empty() =~= ws[0]);
        assert(Seq::<char>::empty() + ws[0] =~= ws[0]);
        assert(ws =~= seq![ws[0]]);
    } else {
        let rest = ws.drop_first();
        lemma_join_front(ws, sp);
        lemma_split_join(rest);
        let tail = join(rest, sp);
        assert(join(ws, sp) =~= ws[0] + (sp + tail));
        lemma_split_words_run(ws[0], sp + tail, seq![]);
        assert(Seq::<char>::empty() + ws[0] =~= ws[0]);
        assert((sp + tail)[0] == ' ');
        assert(is_white_space(' '));
        assert((sp + tail).drop_first() =~= tail);
        assert(split_words_from(sp + tail, ws[0]) == seq![ws[0]] + split_words_from(tail, seq![]));
        assert(ws =~= seq![ws[0]] + rest);
    }
}

/// Every word of a split is a non-empty run of characters, without white space, each of
/// them a character of the text (or of the word begun before it) that is not white space.
pub proof fn lemma_split_words_chars(s: Seq<char>, cur: Seq<char>, q: spec_fn(char) -> bool)
    requires
        forall|i: int| 0 <= i < s.len() && !is_white_space(#[trigger] s[i]) ==> q(s[i]),
        forall|i: int| 0 <= i < cur.len() ==> q(#[trigger] cur[i]) && !is_white_space(cur[i]),
    ensures
        forall|k: int|
            0 <= k < split_words_from(s, cur).len() ==> (#[trigger] split_words_from(s, cur)[k]).len()
                > 0 && no_white_space(split_words_from(s, cur)[k]) && forall|j: int|
                0 <= j < split_words_from(s, cur)[k].len() ==> q(
                    #[trigger] split_words_from(s, cur)[k][j],
                ),
    decreases s.len(),
{
    let r = split_words_from(s, cur);
    if s.len() == 0 {
        if cur.len() > 0 {
            assert(r =~= seq![cur]);
            assert(r[0] == cur);
        }
    } else {
        let rest = s.drop_first();
        assert forall|i: int| 0 <= i < rest.len() && !is_white_space(#[trigger] rest[i]) implies q(
            rest[i],
        ) by {
            assert(rest[i] == s[i + 1]);
        }
        if is_white_space(s[0]) {
            lemma_split_words_chars(rest, seq![], q);
            let r2 = split_words_from(rest, seq![]);
            if cur.len() > 0 {
                assert(r == seq![cur] + r2);
                assert forall|k: int| 0 <= k < r.len() implies (#[trigger] r[k]).len() > 0
                    && no_white_space(r[k]) && forall|j: int| 0 <= j < r[k].len() ==> q(
                    #[trigger] r[k][j],
                ) by {
                    if k == 0 {
                        assert(r[k] == cur);
                    } else {
                        assert(r[k] == r2[k - 1]);
                    }
                }
            } else {
                assert(r == r2);
            }
        } else {
            let c2 = cur.push(s[0]);
            assert forall|i: int| 0 <= i < c2.len() implies q(#[trigger] c2[i]) && !is_white_space(
                c2[i],
            ) by {
                if i < cur.len() {
                    assert(c2[i] == cur[i]);
                }
            }
            lemma_split_words_chars(rest, c2, q);
            assert(r == split_words_from(rest, c2));
        }
    }
}

/// ASCII lower-casing leaves a lower-cased character unchanged.
pub proof fn lemma_ascii_lower_idempotent(c: char)
    ensures
        ascii_lower(ascii_lower(c)) == ascii_lower(c),
{
    if 'A' <= c <= 'Z' {
        let l = ((c as u32) + 32) as char;
        assert(l as u32 == (c as u32) + 32);
    }
}

/// Every character of words joined by a separator satisfies `p` when every character of
/// the words and of the separator does.
pub proof fn lemma_join_chars(ws: Seq<Seq<char>>, sep: Seq<char>, p: spec_fn(char) -> bool)
    requires
        forall|k: int, j: int| 0 <= k < ws.len() && 0 <= j < ws[k].len() ==> p(#[trigger] ws[k][j]),
        forall|j: int| 0 <= j < sep.len() ==> p(#[trigger] sep[j]),
    ensures
        forall|i: int| 0 <= i < join(ws, sep).len() ==> p(#[trigger] join(ws, sep)[i]),
    decreases ws.len(),
{
    if ws.len() == 0 {
    } else if ws.len() == 1 {
        assert forall|i: int| 0 <= i < join(ws, sep).len() implies p(#[trigger] join(ws, sep)[i]) by {
            assert(join(ws, sep)[i] == ws[0][i]);
        }
    } else {
        let front = ws.drop_last();
        assert forall|k: int, j: int| 0 <= k < front.len() && 0 <= j < front[k].len() implies p(
            #[trigger] front[k][j],
        ) by {
            assert(front[k] == ws[k]);
        }
        lemma_join_chars(front, sep, p);
        let a = join(front, sep);
        let l = ws.last();
        assert(join(ws, sep) == a + sep + l);
        assert forall|i: int| 0 <= i < join(ws, sep).len() implies p(#[trigger] join(ws, sep)[i]) by {
            if i < a.len() {
                assert(join(ws, sep)[i] == a[i]);
            } else if i < a.len() + sep.len() {
                assert(join(ws, sep)[i] == sep[i - a.len()]);
            } else {
                assert(join(ws, sep)[i] == l[i - a.len() - sep.len()]);
                assert(l == ws[ws.len() - 1]);
            }
        }
    }
}

} // verus!
