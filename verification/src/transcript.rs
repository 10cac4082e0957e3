//! Comparing and merging the transcripts of the system audio and of the microphone.
use vstd::prelude::*;
use vstd::utf8::encode_utf8;

use crate::meeting::{MeetingAudioSource, MeetingRecordingManager, MeetingTranscriptMergePolicy};
use crate::text::{
    append_chars, ascii_lower, char_is_whitespace, lemma_ascii_lower_idempotent, lemma_join_chars,
    lemma_split_join, lemma_split_words_chars, char_to_ascii_lowercase, chars_eq,
    contains_chars, has_substring, is_white_space, join, join_words, occurs_at, split_whitespace,
    split_words, str_to_chars, string_from_chars, trim, trim_chars, trim_str,
};

verus! {

/// The value of `char::is_alphanumeric`: whether a character has the Unicode
/// `Alphabetic` or `Numeric` property.
pub uninterp spec fn alphanumeric(c: char) -> bool;

/// An ASCII letter or digit.
pub open spec fn ascii_alnum(c: char) -> bool {
    ('a' <= c <= 'z') || ('A' <= c <= 'Z') || ('0' <= c <= '9')
}

/// `char::is_alphanumeric`, whose result is named `alphanumeric`.  Its documentation
/// defines it by the Unicode `Alphabetic` and `Numeric` properties; among ASCII characters
/// these hold of the letters and digits alone, so for an ASCII character the result is
/// whether it is an ASCII letter or digit, the same for it and its ASCII lower-case form.
#[verifier::external_body]
fn char_is_alphanumeric(c: char) -> (r: bool)
    ensures
        r == alphanumeric(c),
        (c as u32) < 128 ==> (r <==> ascii_alnum(c)),
        (c as u32) < 128 ==> alphanumeric(ascii_lower(c)) == r,
{
    c.is_alphanumeric()
}

/// The character that stands for `c` when transcripts are compared: letters, digits and
/// white space stay (ASCII letters lower-cased), everything else becomes a space.
pub open spec fn compare_char(c: char, alnum: bool) -> char {
    if alnum || is_white_space(c) {
        ascii_lower(c)
    } else {
        ' '
    }
}

/// `t` with each character replaced for comparison; `alnum[i]` tells whether `t[i]` is
/// alphanumeric.
pub open spec fn mapped_for_compare(t: Seq<char>, alnum: Seq<bool>) -> Seq<char> {
    Seq::new(t.len(), |i: int| compare_char(t[i], alnum[i]))
}

/// The comparison form of `t` given its alphanumeric characters: its words after the
/// replacement, joined by single spaces.
pub open spec fn normalized_with(t: Seq<char>, alnum: Seq<bool>) -> Seq<char> {
    join(split_words(mapped_for_compare(t, alnum)), seq![' '])
}

/// Which characters of `t` are alphanumeric.
pub open spec fn alnum_classes(t: Seq<char>) -> Seq<bool> {
    t.map_values(|c: char| alphanumeric(c))
}

/// The comparison form of `t`.
pub open spec fn normalized_for_compare(t: Seq<char>) -> Seq<char> {
    normalized_with(t, alnum_classes(t))
}

/// The views of a vector of character vectors.
pub open spec fn views(v: Seq<Vec<char>>) -> Seq<Seq<char>> {
    v.map_values(|w: Vec<char>| w@)
}

/// Words too common to tell two transcripts apart.
pub open spec fn is_common_token(t: Seq<char>) -> bool {
    ||| t == "a"@
    ||| t == "an"@
    ||| t == "the"@
    ||| t == "and"@
    ||| t == "or"@
    ||| t == "to"@
    ||| t == "of"@
    ||| t == "in"@
    ||| t == "on"@
    ||| t == "for"@
    ||| t == "is"@
    ||| t == "it"@
    ||| t == "i"@
    ||| t == "you"@
    ||| t == "we"@
    ||| t == "uh"@
    ||| t == "um"@
    ||| t == "yeah"@
    ||| t == "okay"@
}

/// The distinct words of a comparison form, without the common ones.
pub open spec fn filtered_token_set(n: Seq<char>) -> Set<Seq<char>> {
    Set::new(|t: Seq<char>| split_words(n).contains(t) && !is_common_token(t))
}

/// Two word sequences share a pair of neighbouring words.
pub open spec fn shares_bigram(a: Seq<Seq<char>>, b: Seq<Seq<char>>) -> bool {
    exists|i: int, j: int|
        0 <= i && i + 1 < a.len() && 0 <= j && j + 1 < b.len() && #[trigger] a[i] == #[trigger] b[j]
            && a[i + 1] == b[j + 1]
}

pub open spec fn min_nat(a: nat, b: nat) -> nat {
    if a <= b {
        a
    } else {
        b
    }
}

/// Whether two comparison forms say the same thing: neither is empty and one holds the
/// other; or, over their uncommon words, the shared ones cover at least 60% of the smaller
/// set, or at least 45% of it while making up at least 35% of all; or, when each has at
/// least five uncommon words, they share a pair of neighbouring words.
pub open spec fn overlap_with(ns: Seq<char>, nm: Seq<char>) -> bool {
    if ns.len() == 0 || nm.len() == 0 {
        false
    } else if ns == nm || has_substring(ns, nm) || has_substring(nm, ns) {
        true
    } else {
        let a = filtered_token_set(ns);
        let b = filtered_token_set(nm);
        if a.len() < 2 || b.len() < 2 {
            false
        } else {
            let o = a.intersect(b).len();
            let m = min_nat(a.len(), b.len());
            let u = a.union(b).len();
            if o == 0 {
                false
            } else if 5 * o >= 3 * m || (20 * o >= 9 * m && 20 * o >= 7 * u) {
                true
            } else {
                shares_bigram(split_words(ns), split_words(nm)) && m >= 5
            }
        }
    }
}

/// Whether two transcripts say the same thing.
pub open spec fn transcripts_overlap_spec(s: Seq<char>, m: Seq<char>) -> bool {
    overlap_with(normalized_for_compare(s), normalized_for_compare(m))
}

/// The comparison form of `text`, given which of its characters are alphanumeric.
pub fn normalize_with_classes(text: &Vec<char>, alnum: &Vec<bool>) -> (r: Vec<char>)
    requires
        text.len() == alnum.len(),
    ensures
        r@ == normalized_with(text@, alnum@),
{
    let mut mapped: Vec<char> = Vec::new();
    for i in 0..text.len()
        invariant
            text.len() == alnum.len(),
            mapped@ =~= Seq::new(i as nat, |k: int| compare_char(text@[k], alnum@[k])),
    {
        let c = text[i];
        let m = if alnum[i] || char_is_whitespace(c) {
            char_to_ascii_lowercase(c)
        } else {
            ' '
        };
        mapped.push(m);
    }
    let words = split_whitespace(&mapped);
    let mut sep: Vec<char> = Vec::new();
    sep.push(' ');
    assert(sep@ =~= seq![' ']);
    join_words(&words, &sep)
}

/// Which characters of `text` are alphanumeric.
pub fn alphanumeric_classes(text: &Vec<char>) -> (r: Vec<bool>)
    ensures
        r@ == alnum_classes(text@),
        ascii_classes_known(text@),
{
    let mut r: Vec<bool> = Vec::new();
    for i in 0..text.len()
        invariant
            r@ =~= alnum_classes(text@.take(i as int)),
            ascii_classes_known(text@.take(i as int)),
    {
        r.push(char_is_alphanumeric(text[i]));
        assert forall|k: int| 0 <= k < i + 1 && (#[trigger] text@.take(i + 1)[k] as u32) < 128 implies (
        alphanumeric(text@.take(i + 1)[k]) <==> ascii_alnum(text@.take(i + 1)[k]))
            && alphanumeric(ascii_lower(text@.take(i + 1)[k])) == alphanumeric(
            text@.take(i + 1)[k],
        ) by {
            if k < i {
                assert(text@.take(i + 1)[k] == text@.take(i as int)[k]);
            }
        }
    }
    assert(text@.take(text.len() as int) =~= text@);
    r
}

/// What `char::is_alphanumeric` gives on the ASCII characters of `t` is known: the ASCII
/// letters and digits, alike in either case.
pub open spec fn ascii_classes_known(t: Seq<char>) -> bool {
    forall|k: int|
        0 <= k < t.len() && (#[trigger] t[k] as u32) < 128 ==> (alphanumeric(t[k]) <==> ascii_alnum(
            t[k],
        )) && alphanumeric(ascii_lower(t[k])) == alphanumeric(t[k])
}

/// The comparison form of `text`; comparing it again changes nothing.
pub fn normalize_chars(text: &Vec<char>) -> (r: Vec<char>)
    ensures
        r@ == normalized_for_compare(text@),
        normalized_for_compare(r@) == r@,
        ascii_classes_known(text@),
{
    let alnum = alphanumeric_classes(text);
    proof {
        assert forall|i: int|
            0 <= i < text@.len() && alphanumeric(#[trigger] text@[i]) implies alphanumeric(
            ascii_lower(text@[i]),
        ) by {
            if !((text@[i] as u32) < 128) {
                assert(!('A' <= text@[i] <= 'Z'));
            }
        }
        lemma_normalize_idempotent(text@);
    }
    normalize_with_classes(text, &alnum)
}

fn eq_str(t: &Vec<char>, s: &str) -> (r: bool)
    ensures
        r == (t@ == s@),
{
    let c = str_to_chars(s);
    chars_eq(t, &c)
}

fn is_common_token_exec(t: &Vec<char>) -> (r: bool)
    ensures
        r == is_common_token(t@),
{
    eq_str(t, "a") || eq_str(t, "an") || eq_str(t, "the") || eq_str(t, "and") || eq_str(t, "or")
        || eq_str(t, "to") || eq_str(t, "of") || eq_str(t, "in") || eq_str(t, "on") || eq_str(
        t,
        "for",
    ) || eq_str(t, "is") || eq_str(t, "it") || eq_str(t, "i") || eq_str(t, "you") || eq_str(
        t,
        "we",
    ) || eq_str(t, "uh") || eq_str(t, "um") || eq_str(t, "yeah") || eq_str(t, "okay")
}

fn copy_chars(v: &Vec<char>) -> (r: Vec<char>)
    ensures
        r@ == v@,
{
    let mut r: Vec<char> = Vec::new();
    append_chars(&mut r, v);
    assert(r@ =~= v@);
    r
}

/// Whether `t` is among the words of `v`.
fn words_contain(v: &Vec<Vec<char>>, t: &Vec<char>) -> (r: bool)
    ensures
        r == views(v@).contains(t@),
{
    for i in 0..v.len()
        invariant
            forall|k: int| 0 <= k < i ==> views(v@)[k] != t@,
    {
        if chars_eq(&v[i], t) {
            assert(views(v@)[i as int] == t@);
            return true;
        }
    }
    false
}

/// The distinct uncommon words of a comparison form.
pub fn filtered_tokens(normalized: &Vec<char>) -> (r: Vec<Vec<char>>)
    ensures
        views(r@).no_duplicates(),
        views(r@).to_set() == filtered_token_set(normalized@),
{
    let words = split_whitespace(normalized);
    let ghost ws = views(words@);
    let mut out: Vec<Vec<char>> = Vec::new();
    for i in 0..words.len()
        invariant
            ws == views(words@),
            ws == split_words(normalized@),
            views(out@).no_duplicates(),
            views(out@).to_set() == Set::new(
                |t: Seq<char>| ws.take(i as int).contains(t) && !is_common_token(t),
            ),
    {
        let ghost before = views(out@);
        let w = &words[i];
        assert(ws[i as int] == w@);
        assert(ws.take(i + 1) =~= ws.take(i as int).push(w@));
        let common = is_common_token_exec(w);
        let present = words_contain(&out, w);
        let ghost mut pushed = false;
        if !common && !present {
            let c = copy_chars(w);
            out.push(c);
            proof {
                pushed = true;
            }
            assert(views(out@) =~= before.push(w@));
            assert forall|k1: int, k2: int|
                0 <= k1 < views(out@).len() && 0 <= k2 < views(out@).len() && k1 != k2 implies views(
                out@,
            )[k1] != views(out@)[k2] by {
                if k1 < before.len() && k2 < before.len() {
                } else if k1 == before.len() {
                    assert(before[k2] == views(out@)[k2]);
                } else {
                    assert(before[k1] == views(out@)[k1]);
                }
            }
        }
        proof {
            assert(pushed ==> views(out@) == before.push(w@));
            assert(!pushed ==> views(out@) == before);
            assert(!pushed ==> common || present);
            assert forall|t: Seq<char>|
                #[trigger] views(out@).contains(t) == (ws.take(i + 1).contains(t)
                    && !is_common_token(t)) by {
                if views(out@).contains(t) {
                    let j = choose|j: int| 0 <= j < views(out@).len() && #[trigger] views(out@)[j] == t;
                    if j < before.len() {
                        assert(before[j] == t);
                        assert(before.to_set().contains(t));
                        let k = choose|k: int|
                            0 <= k < ws.take(i as int).len() && #[trigger] ws.take(i as int)[k] == t;
                        assert(ws.take(i + 1)[k] == t);
                    } else {
                        assert(t == w@);
                        assert(ws.take(i + 1)[i as int] == t);
                    }
                }
                if ws.take(i + 1).contains(t) && !is_common_token(t) {
                    let k = choose|k: int| 0 <= k < ws.take(i + 1).len() && #[trigger] ws.take(i + 1)[k] == t;
                    if k < i {
                        assert(ws.take(i as int)[k] == t);
                        assert(before.to_set().contains(t));
                        let j = choose|j: int| 0 <= j < before.len() && #[trigger] before[j] == t;
                        assert(views(out@)[j] == t);
                    } else {
                        assert(t == w@);
                        if pushed {
                            assert(views(out@)[before.len() as int] == t);
                        } else {
                            assert(before.contains(t));
                        }
                    }
                }
            }
        }
        assert(views(out@).to_set() =~= Set::new(
            |t: Seq<char>| ws.take(i + 1).contains(t) && !is_common_token(t),
        ));
    }
    assert(ws.take(words.len() as int) =~= ws);
    assert(views(out@).to_set() =~= filtered_token_set(normalized@));
    out
}

/// How many words of `a` are also words of `b`, for distinct words `a`.
fn count_shared(a: &Vec<Vec<char>>, b: &Vec<Vec<char>>) -> (n: usize)
    requires
        views(a@).no_duplicates(),
    ensures
        n == views(a@).to_set().intersect(views(b@).to_set()).len(),
{
    let ghost av = views(a@);
    let ghost bs = views(b@).to_set();
    let ghost mut shared: Seq<Seq<char>> = Seq::empty();
    let mut n: usize = 0;
    for i in 0..a.len()
        invariant
            av == views(a@),
            bs == views(b@).to_set(),
            av.no_duplicates(),
            n == shared.len(),
            n <= i,
            shared.no_duplicates(),
            shared.to_set() == av.take(i as int).to_set().intersect(bs),
    {
        let ghost before = shared;
        assert(av.take(i + 1) =~= av.take(i as int).push(av[i as int]));
        if words_contain(b, &a[i]) {
            proof {
                assert(!before.contains(av[i as int])) by {
                    if before.contains(av[i as int]) {
                        assert(before.to_set().contains(av[i as int]));
                        let k = choose|k: int|
                            0 <= k < av.take(i as int).len() && #[trigger] av.take(i as int)[k] == av[i as int];
                        assert(av[k] == av[i as int]);
                    }
                }
                shared = before.push(av[i as int]);
                assert forall|k1: int, k2: int|
                    0 <= k1 < shared.len() && 0 <= k2 < shared.len() && k1 != k2 implies shared[k1]
                    != shared[k2] by {
                    if k1 < before.len() && k2 < before.len() {
                    } else if k1 == before.len() {
                        assert(before.contains(shared[k2]));
                    } else {
                        assert(before.contains(shared[k1]));
                    }
                }
            }
            assert(shared.len() == before.len() + 1);
            n = n + 1;
        }
        assert forall|t: Seq<char>|
            #[trigger] shared.to_set().contains(t) == av.take(i + 1).to_set().intersect(
                bs,
            ).contains(t) by {
            if av.take(i + 1).contains(t) && bs.contains(t) {
                let k = choose|k: int| 0 <= k < av.take(i + 1).len() && #[trigger] av.take(i + 1)[k] == t;
                if k < i {
                    assert(av.take(i as int)[k] == t);
                    assert(before.to_set().contains(t));
                    let j = choose|j: int| 0 <= j < before.len() && #[trigger] before[j] == t;
                    assert(shared[j] == t);
                } else {
                    assert(t == av[i as int]);
                    assert(shared[shared.len() - 1] == t);
                }
            }
            if shared.contains(t) {
                let j = choose|j: int| 0 <= j < shared.len() && #[trigger] shared[j] == t;
                if j < before.len() {
                    assert(before[j] == t);
                    assert(before.to_set().contains(t));
                    let k = choose|k: int|
                        0 <= k < av.take(i as int).len() && #[trigger] av.take(i as int)[k] == t;
                    assert(av.take(i + 1)[k] == t);
                } else {
                    assert(av.take(i + 1)[i as int] == t);
                }
            }
        }
        assert(shared.to_set() =~= av.take(i + 1).to_set().intersect(bs));
    }
    assert(av.take(a.len() as int) =~= av);
    proof {
        shared.unique_seq_to_set();
    }
    n
}

/// Whether the word sequences share a pair of neighbouring words.
pub fn shares_bigram_exec(a: &Vec<Vec<char>>, b: &Vec<Vec<char>>) -> (r: bool)
    ensures
        r == shares_bigram(views(a@), views(b@)),
{
    let ghost av = views(a@);
    let ghost bv = views(b@);
    if a.len() < 2 || b.len() < 2 {
        return false;
    }
    for i in 0..a.len() - 1
        invariant
            av == views(a@),
            bv == views(b@),
            a.len() >= 2,
            b.len() >= 2,
            forall|x: int, y: int|
                0 <= x < i && 0 <= y && y + 1 < bv.len() ==> !(#[trigger] av[x] == #[trigger] bv[y]
                    && av[x + 1] == bv[y + 1]),
    {
        for j in 0..b.len() - 1
            invariant
                av == views(a@),
                bv == views(b@),
                a.len() >= 2,
                b.len() >= 2,
                i + 1 < a.len(),
                forall|x: int, y: int|
                    0 <= x < i && 0 <= y && y + 1 < bv.len() ==> !(#[trigger] av[x]
                        == #[trigger] bv[y] && av[x + 1] == bv[y + 1]),
                forall|y: int|
                    0 <= y < j ==> !(av[i as int] == #[trigger] bv[y] && av[i + 1] == bv[y + 1]),
        {
            if chars_eq(&a[i], &b[j]) && chars_eq(&a[i + 1], &b[j + 1]) {
                assert(av[i as int] == bv[j as int] && av[i + 1] == bv[j + 1]);
                return true;
            }
        }
    }
    false
}

/// Whether two comparison forms say the same thing.
pub fn overlap_of_normalized(ns: &Vec<char>, nm: &Vec<char>) -> (r: bool)
    ensures
        r == overlap_with(ns@, nm@),
{
    broadcast use vstd::seq_lib::group_seq_lib_default;

    if ns.len() == 0 || nm.len() == 0 {
        return false;
    }
    if chars_eq(ns, nm) || contains_chars(ns, nm) || contains_chars(nm, ns) {
        return true;
    }
    let a = filtered_tokens(ns);
    let b = filtered_tokens(nm);
    let ghost sa = filtered_token_set(ns@);
    let ghost sb = filtered_token_set(nm@);
    proof {
        views(a@).unique_seq_to_set();
        views(b@).unique_seq_to_set();
    }
    if a.len() < 2 || b.len() < 2 {
        return false;
    }
    let o = count_shared(&a, &b);
    if o == 0 {
        return false;
    }
    proof {
        vstd::set_lib::lemma_set_intersect_union_lens(sa, sb);
        vstd::set_lib::lemma_len_intersect(sa, sb);
    }
    let m: usize = if a.len() <= b.len() {
        a.len()
    } else {
        b.len()
    };
    let o128 = o as u128;
    let m128 = m as u128;
    let u128v = (a.len() as u128) + (b.len() as u128) - o128;
    assert(u128v == sa.union(sb).len());
    if 5 * o128 >= 3 * m128 || (20 * o128 >= 9 * m128 && 20 * o128 >= 7 * u128v) {
        return true;
    }
    let wa = split_whitespace(ns);
    let wb = split_whitespace(nm);
    shares_bigram_exec(&wa, &wb) && m >= 5
}

/// Whether two transcripts overlap is symmetric in the two transcripts.
pub proof fn lemma_overlap_symmetric(ns: Seq<char>, nm: Seq<char>)
    ensures
        overlap_with(ns, nm) == overlap_with(nm, ns),
{
    let a = filtered_token_set(ns);
    let b = filtered_token_set(nm);
    assert(a.intersect(b) =~= b.intersect(a));
    assert(a.union(b) =~= b.union(a));
    let wa = split_words(ns);
    let wb = split_words(nm);
    if shares_bigram(wa, wb) {
        let (i, j) = choose|i: int, j: int|
            0 <= i && i + 1 < wa.len() && 0 <= j && j + 1 < wb.len() && #[trigger] wa[i]
                == #[trigger] wb[j] && wa[i + 1] == wb[j + 1];
        assert(wb[j] == wa[i]);
        assert(shares_bigram(wb, wa));
    }
    if shares_bigram(wb, wa) {
        let (j, i) = choose|j: int, i: int|
            0 <= j && j + 1 < wb.len() && 0 <= i && i + 1 < wa.len() && #[trigger] wb[j]
                == #[trigger] wa[i] && wb[j + 1] == wa[i + 1];
        assert(wa[i] == wb[j]);
        assert(shares_bigram(wa, wb));
    }
}

/// Transcripts with no words never overlap.
pub proof fn lemma_overlap_needs_text(ns: Seq<char>, nm: Seq<char>)
    requires
        ns.len() == 0 || nm.len() == 0,
    ensures
        !overlap_with(ns, nm),
{
}

/// The number of bytes of `c` in UTF-8, as `char::len_utf8` gives it.
pub open spec fn char_utf8_len(c: char) -> nat {
    if (c as u32) < 0x80 {
        1
    } else if (c as u32) < 0x800 {
        2
    } else if (c as u32) < 0x10000 {
        3
    } else {
        4
    }
}

/// The number of bytes of `s` in UTF-8, as `str::len` gives it.
pub open spec fn utf8_len(s: Seq<char>) -> nat
    decreases s.len(),
{
    if s.len() == 0 {
        0
    } else {
        utf8_len(s.drop_last()) + char_utf8_len(s.last())
    }
}

fn utf8_len_exec(s: &Vec<char>) -> (n: u128)
    ensures
        n == utf8_len(s@),
{
    let mut n: u128 = 0;
    for i in 0..s.len()
        invariant
            n == utf8_len(s@.take(i as int)),
            n <= 4 * i,
    {
        assert(s@.take(i + 1).drop_last() =~= s@.take(i as int));
        let u = s[i] as u32;
        let k: u128 = if u < 0x80 {
            1
        } else if u < 0x800 {
            2
        } else if u < 0x10000 {
            3
        } else {
            4
        };
        n = n + k;
    }
    assert(s@.take(s.len() as int) =~= s@);
    n
}

/// The merge of two trimmed segment transcripts once it is known whether they overlap:
/// an empty one yields the other; otherwise `KeepBoth` keeps both on two lines, and the
/// other policies keep both only when they do not overlap, else the system transcript
/// (`SystemPriority`) or the longer one in bytes, the system one on a tie (`Balanced`).
pub open spec fn merged_given_overlap(
    policy: MeetingTranscriptMergePolicy,
    st: Seq<char>,
    mt: Seq<char>,
    overlap: bool,
) -> Seq<char> {
    let both = st + seq!['\n'] + mt;
    if st.len() == 0 {
        mt
    } else if mt.len() == 0 {
        st
    } else {
        match policy {
            MeetingTranscriptMergePolicy::SystemPriority => if overlap {
                st
            } else {
                both
            },
            MeetingTranscriptMergePolicy::Balanced => if overlap {
                if utf8_len(st) >= utf8_len(mt) {
                    st
                } else {
                    mt
                }
            } else {
                both
            },
            MeetingTranscriptMergePolicy::KeepBoth => both,
        }
    }
}

/// The merged transcript of one segment.
pub open spec fn merged_segment(
    policy: MeetingTranscriptMergePolicy,
    system_text: Seq<char>,
    microphone_text: Seq<char>,
) -> Seq<char> {
    let st = trim(system_text);
    let mt = trim(microphone_text);
    merged_given_overlap(policy, st, mt, transcripts_overlap_spec(st, mt))
}

/// Merges two trimmed segment transcripts, given whether they overlap.
pub fn merge_given_overlap(
    policy: MeetingTranscriptMergePolicy,
    system_trimmed: &Vec<char>,
    microphone_trimmed: &Vec<char>,
    overlap: bool,
) -> (r: Vec<char>)
    ensures
        r@ == merged_given_overlap(policy, system_trimmed@, microphone_trimmed@, overlap),
{
    if system_trimmed.len() == 0 {
        return copy_chars(microphone_trimmed);
    }
    if microphone_trimmed.len() == 0 {
        return copy_chars(system_trimmed);
    }
    let keep_both = match policy {
        MeetingTranscriptMergePolicy::KeepBoth => true,
        _ => !overlap,
    };
    if keep_both {
        let mut r = copy_chars(system_trimmed);
        r.push('\n');
        append_chars(&mut r, microphone_trimmed);
        assert(r@ =~= system_trimmed@ + seq!['\n'] + microphone_trimmed@);
        return r;
    }
    match policy {
        MeetingTranscriptMergePolicy::Balanced => {
            if utf8_len_exec(system_trimmed) >= utf8_len_exec(microphone_trimmed) {
                copy_chars(system_trimmed)
            } else {
                copy_chars(microphone_trimmed)
            }
        },
        _ => copy_chars(system_trimmed),
    }
}

/// `text` without leading and trailing white space.
pub fn trim_text(text: &str) -> (r: String)
    ensures
        r@ == trim(text@),
{
    let t = trim_str(text);
    string_from_chars(&t)
}

impl MeetingRecordingManager {
    /// The comparison form of a transcript: lower-cased words of letters and digits,
    /// separated by single spaces.
    pub fn normalize_for_compare(text: &str) -> (r: String)
        ensures
            r@ == normalized_for_compare(text@),
            normalized_for_compare(r@) == r@,
            ascii_classes_known(text@),
    {
        let c = str_to_chars(text);
        let n = normalize_chars(&c);
        string_from_chars(&n)
    }

    /// Whether a system transcript and a microphone transcript say the same thing.
    pub fn transcripts_overlap(system_text: &str, microphone_text: &str) -> (r: bool)
        ensures
            r == transcripts_overlap_spec(system_text@, microphone_text@),
            ascii_classes_known(system_text@),
            ascii_classes_known(microphone_text@),
    {
        let s = str_to_chars(system_text);
        let m = str_to_chars(microphone_text);
        let ns = normalize_chars(&s);
        let nm = normalize_chars(&m);
        overlap_of_normalized(&ns, &nm)
    }

    /// The transcript of one segment from its system and microphone transcripts.
    pub fn merge_segment_transcripts(
        merge_policy: MeetingTranscriptMergePolicy,
        system_text: &str,
        microphone_text: &str,
    ) -> (r: String)
        ensures
            r@ == merged_segment(merge_policy, system_text@, microphone_text@),
    {
        let st = trim_str(system_text);
        let mt = trim_str(microphone_text);
        let overlap = if st.len() > 0 && mt.len() > 0 {
            let ns = normalize_chars(&st);
            let nm = normalize_chars(&mt);
            overlap_of_normalized(&ns, &nm)
        } else {
            false
        };
        let r = merge_given_overlap(merge_policy, &st, &mt, overlap);
        string_from_chars(&r)
    }
}

/// With `KeepBoth`, two non-empty trimmed transcripts are always both kept, the system one first.
pub proof fn lemma_keep_both_keeps_both(system_text: Seq<char>, microphone_text: Seq<char>)
    requires
        trim(system_text).len() > 0,
        trim(microphone_text).len() > 0,
    ensures
        merged_segment(MeetingTranscriptMergePolicy::KeepBoth, system_text, microphone_text)
            == trim(system_text) + seq!['\n'] + trim(microphone_text),
{
}

/// Whatever the policy, a segment whose system transcript is blank yields the trimmed
/// microphone transcript, and one whose microphone transcript is blank yields the trimmed
/// system transcript.
pub proof fn lemma_blank_side_yields_other(
    policy: MeetingTranscriptMergePolicy,
    system_text: Seq<char>,
    microphone_text: Seq<char>,
)
    ensures
        trim(system_text).len() == 0 ==> merged_segment(policy, system_text, microphone_text)
            == trim(microphone_text),
        trim(microphone_text).len() == 0 ==> merged_segment(policy, system_text, microphone_text)
            == trim(system_text),
{
}

/// The texts of strings.
pub open spec fn texts(v: Seq<String>) -> Seq<Seq<char>> {
    v.map_values(|s: String| s@)
}

/// No two neighbouring entries are equal.
pub open spec fn no_adjacent_repeats(s: Seq<Seq<char>>) -> bool {
    forall|i: int| 0 <= i && i + 1 < s.len() ==> #[trigger] s[i] != s[i + 1]
}

/// The transcripts collected segment by segment: the merged ones, and the non-empty
/// system and microphone ones.
pub struct SegmentTranscriptsView {
    pub merged: Seq<Seq<char>>,
    pub system: Seq<Seq<char>>,
    pub microphone: Seq<Seq<char>>,
}

/// The state after one more segment: each non-empty source transcript is kept, and the
/// merged transcript is kept unless it is empty or repeats the last one kept.
pub open spec fn after_segment(
    v: SegmentTranscriptsView,
    policy: MeetingTranscriptMergePolicy,
    system_text: Seq<char>,
    microphone_text: Seq<char>,
) -> SegmentTranscriptsView {
    let merged = merged_segment(policy, system_text, microphone_text);
    SegmentTranscriptsView {
        merged: if merged.len() > 0 && !(v.merged.len() > 0 && v.merged.last() == merged) {
            v.merged.push(merged)
        } else {
            v.merged
        },
        system: if system_text.len() > 0 {
            v.system.push(system_text)
        } else {
            v.system
        },
        microphone: if microphone_text.len() > 0 {
            v.microphone.push(microphone_text)
        } else {
            v.microphone
        },
    }
}

/// Collects the transcripts of a recording's segments, in order.
pub struct SegmentTranscriptMerger {
    policy: MeetingTranscriptMergePolicy,
    merged: Vec<String>,
    system: Vec<String>,
    microphone: Vec<String>,
}

/// The texts a recording's segments give: the merged transcript and the transcripts of
/// each source, each joined line by line and trimmed.
pub struct SegmentedTranscript {
    pub merged_text: String,
    pub system_text: String,
    pub microphone_text: String,
    /// The merged transcript is empty, so the recording is transcribed as a whole instead.
    pub needs_whole_transcription: bool,
}

fn join_lines_trimmed(lines: &Vec<String>) -> (r: String)
    ensures
        r@ == trim(join(texts(lines@), seq!['\n'])),
{
    let mut parts: Vec<Vec<char>> = Vec::new();
    for i in 0..lines.len()
        invariant
            views(parts@) == texts(lines@.take(i as int)),
    {
        let ghost before = views(parts@);
        let p = str_to_chars(lines[i].as_str());
        parts.push(p);
        assert(views(parts@) =~= before.push(lines@[i as int]@));
        assert(lines@.take(i + 1) =~= lines@.take(i as int).push(lines@[i as int]));
        assert(texts(lines@.take(i + 1)) =~= texts(lines@.take(i as int)).push(lines@[i as int]@));
    }
    assert(lines@.take(lines.len() as int) =~= lines@);
    let mut sep: Vec<char> = Vec::new();
    sep.push('\n');
    assert(sep@ =~= seq!['\n']);
    let joined = join_words(&parts, &sep);
    let t = trim_chars(&joined);
    string_from_chars(&t)
}

impl View for SegmentTranscriptMerger {
    type V = SegmentTranscriptsView;

    closed spec fn view(&self) -> SegmentTranscriptsView {
        SegmentTranscriptsView {
            merged: texts(self.merged@),
            system: texts(self.system@),
            microphone: texts(self.microphone@),
        }
    }
}

impl SegmentTranscriptMerger {
    #[verifier::type_invariant]
    closed spec fn inv(self) -> bool {
        no_adjacent_repeats(texts(self.merged@))
    }

    /// The merge policy the segments are merged with.
    pub closed spec fn merge_policy(self) -> MeetingTranscriptMergePolicy {
        self.policy
    }

    /// A merger that has seen no segment.
    pub fn new(policy: MeetingTranscriptMergePolicy) -> (m: Self)
        ensures
            m.merge_policy() == policy,
            m@.merged == Seq::<Seq<char>>::empty(),
            m@.system == Seq::<Seq<char>>::empty(),
            m@.microphone == Seq::<Seq<char>>::empty(),
    {
        let m = SegmentTranscriptMerger {
            policy,
            merged: Vec::new(),
            system: Vec::new(),
            microphone: Vec::new(),
        };
        assert(texts(m.merged@) =~= Seq::<Seq<char>>::empty());
        assert(texts(m.system@) =~= Seq::<Seq<char>>::empty());
        assert(texts(m.microphone@) =~= Seq::<Seq<char>>::empty());
        m
    }

    /// Adds the transcripts of the next segment.  Merged transcripts never repeat their
    /// predecessor.
    pub fn add_segment(&mut self, system_text: String, microphone_text: String)
        ensures
            final(self).merge_policy() == old(self).merge_policy(),
            final(self)@ == after_segment(
                old(self)@,
                old(self).merge_policy(),
                system_text@,
                microphone_text@,
            ),
            no_adjacent_repeats(final(self)@.merged),
    {
        proof {
            use_type_invariant(&*self);
        }
        let merged = MeetingRecordingManager::merge_segment_transcripts(
            self.policy,
            system_text.as_str(),
            microphone_text.as_str(),
        );
        let ghost old_merged = texts(self.merged@);
        let ghost old_system = texts(self.system@);
        let ghost old_microphone = texts(self.microphone@);
        let is_duplicate = if self.merged.len() > 0 {
            let last = &self.merged[self.merged.len() - 1];
            assert(old_merged.last() == last@);
            *last == merged
        } else {
            false
        };
        let mut new_merged: Vec<String> = Vec::new();
        std::mem::swap(&mut new_merged, &mut self.merged);
        if !merged.as_str().is_empty() && !is_duplicate {
            new_merged.push(merged);
            assert(texts(new_merged@) =~= old_merged.push(merged_segment(
                self.policy,
                system_text@,
                microphone_text@,
            )));
        }
        let mut new_system: Vec<String> = Vec::new();
        std::mem::swap(&mut new_system, &mut self.system);
        if !system_text.as_str().is_empty() {
            new_system.push(system_text);
            assert(texts(new_system@) =~= old_system.push(system_text@));
        }
        let mut new_microphone: Vec<String> = Vec::new();
        std::mem::swap(&mut new_microphone, &mut self.microphone);
        if !microphone_text.as_str().is_empty() {
            new_microphone.push(microphone_text);
            assert(texts(new_microphone@) =~= old_microphone.push(microphone_text@));
        }
        *self = SegmentTranscriptMerger {
            policy: self.policy,
            merged: new_merged,
            system: new_system,
            microphone: new_microphone,
        };
        proof {
            use_type_invariant(&*self);
        }
    }

    /// The merged transcript and the transcript of each source: the kept transcripts
    /// joined line by line and trimmed.
    pub fn finish(&self) -> (r: SegmentedTranscript)
        ensures
            r.merged_text@ == trim(join(self@.merged, seq!['\n'])),
            r.system_text@ == trim(join(self@.system, seq!['\n'])),
            r.microphone_text@ == trim(join(self@.microphone, seq!['\n'])),
            r.needs_whole_transcription == (r.merged_text@.len() == 0),
    {
        let merged_text = join_lines_trimmed(&self.merged);
        let needs_whole_transcription = merged_text.as_str().is_empty();
        SegmentedTranscript {
            merged_text,
            system_text: join_lines_trimmed(&self.system),
            microphone_text: join_lines_trimmed(&self.microphone),
            needs_whole_transcription,
        }
    }
}

/// `o` holds `t` when `t` is not empty, and nothing otherwise.
pub open spec fn optional_text(o: Option<String>, t: Seq<char>) -> bool {
    if t.len() == 0 {
        o is None
    } else {
        o matches Some(x) && x@ == t
    }
}

/// `text`, or nothing when it is empty.
pub fn non_empty_text(text: String) -> (r: Option<String>)
    ensures
        optional_text(r, text@),
{
    if text.as_str().is_empty() {
        None
    } else {
        Some(text)
    }
}

/// What the transcript sources record of a finished recording.
pub struct MeetingTranscriptSources {
    pub merge_policy: MeetingTranscriptMergePolicy,
    pub segment_count: usize,
    pub merged_text: String,
    pub system_text: Option<String>,
    pub microphone_text: Option<String>,
}

impl MeetingTranscriptSources {
    /// The sources of a recording transcribed segment by segment.
    pub fn for_segments(
        merge_policy: MeetingTranscriptMergePolicy,
        segment_count: usize,
        merged_text: String,
        system_text: String,
        microphone_text: String,
    ) -> (r: Self)
        ensures
            r.merge_policy == merge_policy,
            r.segment_count == segment_count,
            r.merged_text@ == merged_text@,
            optional_text(r.system_text, system_text@),
            optional_text(r.microphone_text, microphone_text@),
    {
        MeetingTranscriptSources {
            merge_policy,
            segment_count,
            merged_text,
            system_text: non_empty_text(system_text),
            microphone_text: non_empty_text(microphone_text),
        }
    }

    /// The sources of a recording transcribed as a whole: the text is attributed to the
    /// single source the recording had, and to neither when it mixed both.
    pub fn for_whole_recording(
        merge_policy: MeetingTranscriptMergePolicy,
        source: MeetingAudioSource,
        text: String,
    ) -> (r: Self)
        ensures
            r.merge_policy == merge_policy,
            r.segment_count == 1,
            r.merged_text@ == text@,
            source == MeetingAudioSource::SystemOnly ==> optional_text(r.system_text, text@),
            source != MeetingAudioSource::SystemOnly ==> r.system_text is None,
            source == MeetingAudioSource::MicrophoneOnly ==> optional_text(
                r.microphone_text,
                text@,
            ),
            source != MeetingAudioSource::MicrophoneOnly ==> r.microphone_text is None,
    {
        let system_text = match source {
            MeetingAudioSource::SystemOnly => non_empty_text(text.clone()),
            _ => None,
        };
        let microphone_text = match source {
            MeetingAudioSource::MicrophoneOnly => non_empty_text(text.clone()),
            _ => None,
        };
        MeetingTranscriptSources {
            merge_policy,
            segment_count: 1,
            merged_text: text,
            system_text,
            microphone_text,
        }
    }
}

/// Comparing a comparison form again changes nothing, for a text in which lower-casing
/// an alphanumeric character keeps it alphanumeric (as it does whenever upper-case ASCII
/// letters have alphanumeric lower-case forms).
pub proof fn lemma_normalize_idempotent(t: Seq<char>)
    requires
        forall|i: int|
            0 <= i < t.len() && alphanumeric(#[trigger] t[i]) ==> alphanumeric(ascii_lower(t[i])),
    ensures
        normalized_for_compare(normalized_for_compare(t)) == normalized_for_compare(t),
{
    let a = alnum_classes(t);
    let m = mapped_for_compare(t, a);
    let q = |x: char| alphanumeric(x) && ascii_lower(x) == x;
    assert forall|i: int| 0 <= i < m.len() && !is_white_space(#[trigger] m[i]) implies q(m[i]) by {
        let c = t[i];
        assert(a[i] == alphanumeric(c));
        lemma_ascii_lower_idempotent(c);
        if is_white_space(c) {
            assert(!('A' <= c <= 'Z'));
        }
    }
    lemma_split_words_chars(m, seq![], q);
    let ws = split_words(m);
    let n = join(ws, seq![' ']);
    assert(n == normalized_for_compare(t));
    let p = |x: char| x == ' ' || q(x);
    assert forall|k: int, j: int| 0 <= k < ws.len() && 0 <= j < ws[k].len() implies p(
        #[trigger] ws[k][j],
    ) by {
        assert(q(ws[k][j]));
    }
    lemma_join_chars(ws, seq![' '], p);
    let m2 = mapped_for_compare(n, alnum_classes(n));
    assert forall|i: int| 0 <= i < n.len() implies #[trigger] m2[i] == n[i] by {
        assert(p(n[i]));
        assert(is_white_space(' '));
    }
    assert(m2 =~= n);
    lemma_split_join(ws);
}

/// The transcripts collected from a recording's segments, given each segment's system
/// and microphone transcript in order.
pub open spec fn segments_view(
    policy: MeetingTranscriptMergePolicy,
    segments: Seq<(Seq<char>, Seq<char>)>,
) -> SegmentTranscriptsView
    decreases segments.len(),
{
    if segments.len() == 0 {
        SegmentTranscriptsView { merged: seq![], system: seq![], microphone: seq![] }
    } else {
        after_segment(
            segments_view(policy, segments.drop_last()),
            policy,
            segments.last().0,
            segments.last().1,
        )
    }
}

/// However the segments read, the merged transcripts collected from them are non-empty
/// and none repeats the one before it.
pub proof fn lemma_segments_merged_without_repeats(
    policy: MeetingTranscriptMergePolicy,
    segments: Seq<(Seq<char>, Seq<char>)>,
)
    ensures
        no_adjacent_repeats(segments_view(policy, segments).merged),
        forall|i: int|
            0 <= i < segments_view(policy, segments).merged.len() ==> (
            #[trigger] segments_view(policy, segments).merged[i]).len() > 0,
    decreases segments.len(),
{
    if segments.len() > 0 {
        lemma_segments_merged_without_repeats(policy, segments.drop_last());
        let before = segments_view(policy, segments.drop_last()).merged;
        let after = segments_view(policy, segments).merged;
        assert forall|i: int| 0 <= i && i + 1 < after.len() implies #[trigger] after[i] != after[i
            + 1] by {
            if i + 1 < before.len() {
                assert(after[i] == before[i] && after[i + 1] == before[i + 1]);
            }
        }
        assert forall|i: int| 0 <= i < after.len() implies (#[trigger] after[i]).len() > 0 by {
            if i < before.len() {
                assert(after[i] == before[i]);
            }
        }
    }
}

/// Two comparison forms, neither empty, of which one occurs within the other say the
/// same thing, whatever words they hold.
pub proof fn lemma_containment_is_overlap(ns: Seq<char>, nm: Seq<char>)
    requires
        ns.len() > 0,
        nm.len() > 0,
        has_substring(ns, nm) || has_substring(nm, ns),
    ensures
        overlap_with(ns, nm),
        overlap_with(nm, ns),
{
}

/// When the comparison form of one trimmed transcript of a segment occurs within that
/// of the other (neither empty), the system-first merge keeps the system transcript alone.
pub proof fn lemma_contained_transcript_dropped(system_text: Seq<char>, microphone_text: Seq<char>)
    requires
        trim(system_text).len() > 0,
        trim(microphone_text).len() > 0,
        normalized_for_compare(trim(system_text)).len() > 0,
        normalized_for_compare(trim(microphone_text)).len() > 0,
        has_substring(
            normalized_for_compare(trim(system_text)),
            normalized_for_compare(trim(microphone_text)),
        ) || has_substring(
            normalized_for_compare(trim(microphone_text)),
            normalized_for_compare(trim(system_text)),
        ),
    ensures
        transcripts_overlap_spec(trim(system_text), trim(microphone_text)),
        merged_segment(MeetingTranscriptMergePolicy::SystemPriority, system_text, microphone_text)
            == trim(system_text),
{
    lemma_containment_is_overlap(
        normalized_for_compare(trim(system_text)),
        normalized_for_compare(trim(microphone_text)),
    );
}

/// Whatever the policy, two non-empty trimmed transcripts that do not overlap are both
/// kept, the system one first, on two lines.
pub proof fn lemma_disjoint_transcripts_both_kept(
    policy: MeetingTranscriptMergePolicy,
    st: Seq<char>,
    mt: Seq<char>,
)
    requires
        st.len() > 0,
        mt.len() > 0,
    ensures
        merged_given_overlap(policy, st, mt, false) == st + seq!['\n'] + mt,
{
}

/// Of two non-empty trimmed transcripts that overlap, one is kept whole: the system one
/// under `SystemPriority`; under `Balanced` the one with no fewer UTF-8 bytes than the
/// other, the system one when they are equally long; `KeepBoth` still keeps both.
pub proof fn lemma_overlapping_transcripts_one_kept(st: Seq<char>, mt: Seq<char>)
    requires
        st.len() > 0,
        mt.len() > 0,
    ensures
        merged_given_overlap(MeetingTranscriptMergePolicy::SystemPriority, st, mt, true) == st,
        ({
            let r = merged_given_overlap(MeetingTranscriptMergePolicy::Balanced, st, mt, true);
            &&& r == st || r == mt
            &&& utf8_len(r) >= utf8_len(st) && utf8_len(r) >= utf8_len(mt)
            &&& utf8_len(st) >= utf8_len(mt) ==> r == st
        }),
        merged_given_overlap(MeetingTranscriptMergePolicy::KeepBoth, st, mt, true) == st
            + seq!['\n'] + mt,
{
}

/// One more segment appends each of its non-empty source transcripts after those kept
/// before, and leaves a source's list as it was when its transcript is empty.
pub proof fn lemma_sources_appended_in_order(
    v: SegmentTranscriptsView,
    policy: MeetingTranscriptMergePolicy,
    system_text: Seq<char>,
    microphone_text: Seq<char>,
)
    ensures
        microphone_text.len() > 0 ==> after_segment(v, policy, system_text, microphone_text).microphone
            == v.microphone.push(microphone_text),
        microphone_text.len() == 0 ==> after_segment(v, policy, system_text, microphone_text).microphone
            == v.microphone,
        system_text.len() > 0 ==> after_segment(v, policy, system_text, microphone_text).system
            == v.system.push(system_text),
        system_text.len() == 0 ==> after_segment(v, policy, system_text, microphone_text).system
            == v.system,
{
}

/// The source transcripts collected from a recording are exactly its segments' non-empty
/// system transcripts, and its segments' non-empty microphone transcripts, in segment order.
pub proof fn lemma_sources_are_nonempty_segments(
    policy: MeetingTranscriptMergePolicy,
    segments: Seq<(Seq<char>, Seq<char>)>,
)
    ensures
        segments_view(policy, segments).system == segments.map_values(
            |x: (Seq<char>, Seq<char>)| x.0,
        ).filter(|t: Seq<char>| t.len() > 0),
        segments_view(policy, segments).microphone == segments.map_values(
            |x: (Seq<char>, Seq<char>)| x.1,
        ).filter(|t: Seq<char>| t.len() > 0),
    decreases segments.len(),
{
    reveal(Seq::filter);
    let sys = segments.map_values(|x: (Seq<char>, Seq<char>)| x.0);
    let mic = segments.map_values(|x: (Seq<char>, Seq<char>)| x.1);
    if segments.len() > 0 {
        lemma_sources_are_nonempty_segments(policy, segments.drop_last());
        assert(sys.drop_last() =~= segments.drop_last().map_values(
            |x: (Seq<char>, Seq<char>)| x.0,
        ));
        assert(mic.drop_last() =~= segments.drop_last().map_values(
            |x: (Seq<char>, Seq<char>)| x.1,
        ));
        assert(sys.last() == segments.last().0);
        assert(mic.last() == segments.last().1);
    } else {
        assert(sys =~= Seq::<Seq<char>>::empty());
        assert(mic =~= Seq::<Seq<char>>::empty());
    }
}

/// Comparison forms, neither holding the other, are judged by their uncommon words: with
/// fewer than two on either side, or none shared, they do not overlap; with at least two on
/// each side, shared words covering 60% of the smaller set make them overlap.
pub proof fn lemma_overlap_by_shared_words(ns: Seq<char>, nm: Seq<char>)
    requires
        !has_substring(ns, nm),
        !has_substring(nm, ns),
    ensures
        filtered_token_set(ns).len() < 2 || filtered_token_set(nm).len() < 2 ==> !overlap_with(
            ns,
            nm,
        ),
        filtered_token_set(ns).intersect(filtered_token_set(nm)).len() == 0 ==> !overlap_with(
            ns,
            nm,
        ),
        ns.len() > 0 && nm.len() > 0 && filtered_token_set(ns).len() >= 2 && filtered_token_set(
            nm,
        ).len() >= 2 && 5 * filtered_token_set(ns).intersect(filtered_token_set(nm)).len() >= 3
            * filtered_token_set(ns).len() ==> overlap_with(ns, nm),
        ns.len() > 0 && nm.len() > 0 && filtered_token_set(ns).len() >= 2 && filtered_token_set(
            nm,
        ).len() >= 2 && 5 * filtered_token_set(ns).intersect(filtered_token_set(nm)).len() >= 3
            * filtered_token_set(nm).len() ==> overlap_with(ns, nm),
{
    assert(ns == nm ==> has_substring(ns, nm)) by {
        if ns == nm {
            assert(ns.subrange(0, nm.len() as int) =~= nm);
            assert(occurs_at(ns, nm, 0));
        }
    }
}

/// One more segment appends its merged transcript after those kept before, unless it is
/// empty or the same as the last one kept, in which case the merged list stays as it was.
pub proof fn lemma_merged_appended_unless_repeat(
    v: SegmentTranscriptsView,
    policy: MeetingTranscriptMergePolicy,
    system_text: Seq<char>,
    microphone_text: Seq<char>,
)
    ensures
        ({
            let m = merged_segment(policy, system_text, microphone_text);
            let after = after_segment(v, policy, system_text, microphone_text).merged;
            &&& m.len() > 0 && (v.merged.len() == 0 || v.merged.last() != m) ==> after
                == v.merged.push(m)
            &&& m.len() == 0 ==> after == v.merged
            &&& v.merged.len() > 0 && v.merged.last() == m ==> after == v.merged
        }),
{
}

} // verus!
