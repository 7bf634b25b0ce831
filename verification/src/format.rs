//! File-name sanitising.
//!
//! A name is made safe in three steps: characters that file systems reject are replaced
//! by `_`, surrounding white space and dots are trimmed, and runs of `_` are collapsed.
//! The result is then cut to at most 200 bytes of UTF-8.
use vstd::prelude::*;
use crate::text::{
    byte_prefix, byte_prefix_chars, chars_of, is_control, is_control_char, string_of, trim,
    trim_chars, trim_end, trim_start, utf8_len, utf8_len_capped, utf8_width,
};

verus! {

/// Characters that are replaced by `_` in file names and path components.
pub open spec fn is_unsafe_name_char(c: char) -> bool {
    ||| c == '/'
    ||| c == '\\'
    ||| c == ':'
    ||| c == '*'
    ||| c == '?'
    ||| c == '"'
    ||| c == '<'
    ||| c == '>'
    ||| c == '|'
    ||| is_control(c)
}

pub open spec fn replace_unsafe(s: Seq<char>) -> Seq<char> {
    Seq::new(s.len(), |i: int| if is_unsafe_name_char(s[i]) { '_' } else { s[i] })
}

pub open spec fn trim_char_start(s: Seq<char>, c: char) -> Seq<char>
    decreases s.len(),
{
    if s.len() > 0 && s[0] == c {
        trim_char_start(s.drop_first(), c)
    } else {
        s
    }
}

pub open spec fn trim_char_end(s: Seq<char>, c: char) -> Seq<char>
    decreases s.len(),
{
    if s.len() > 0 && s.last() == c {
        trim_char_end(s.drop_last(), c)
    } else {
        s
    }
}

/// `str::trim_matches` with a single character.
pub open spec fn trim_matches_char(s: Seq<char>, c: char) -> Seq<char> {
    trim_char_end(trim_char_start(s, c), c)
}

/// Unsafe characters replaced, then white space and dots trimmed from both ends.
pub open spec fn cleaned_name(s: Seq<char>) -> Seq<char> {
    trim_matches_char(trim(replace_unsafe(s)), '.')
}

/// Every `_` that follows another `_` dropped.
pub open spec fn collapse_underscores(s: Seq<char>) -> Seq<char>
    decreases s.len(),
{
    if s.len() == 0 {
        s
    } else if s.last() == '_' && s.len() >= 2 && s[s.len() - 2] == '_' {
        collapse_underscores(s.drop_last())
    } else {
        collapse_underscores(s.drop_last()).push(s.last())
    }
}

pub open spec fn collapsed_name(s: Seq<char>) -> Seq<char> {
    collapse_underscores(cleaned_name(s))
}

/// Cutting the collapsed name at byte 200 falls on a character boundary (or no cut
/// is needed). On other inputs `sanitize_filename` panics.
pub open spec fn filename_cut_ok(s: Seq<char>) -> bool {
    utf8_len(collapsed_name(s)) <= 200 || byte_prefix(collapsed_name(s), 200) is Some
}

pub open spec fn sanitized_filename(s: Seq<char>) -> Seq<char> {
    if cleaned_name(s).len() == 0 {
        "download"@
    } else if utf8_len(collapsed_name(s)) <= 200 {
        collapsed_name(s)
    } else {
        byte_prefix(collapsed_name(s), 200)->0
    }
}

pub open spec fn no_unsafe_chars(s: Seq<char>) -> bool {
    forall|i: int| 0 <= i < s.len() ==> !is_unsafe_name_char(#[trigger] s[i])
}

pub open spec fn no_double_underscore(s: Seq<char>) -> bool {
    forall|i: int| 0 <= i < s.len() - 1 ==> !(#[trigger] s[i] == '_' && s[i + 1] == '_')
}

pub proof fn lemma_no_unsafe_drop_first(s: Seq<char>)
    requires
        no_unsafe_chars(s),
        s.len() > 0,
    ensures
        no_unsafe_chars(s.drop_first()),
{
    assert forall|i: int| 0 <= i < s.drop_first().len() implies !is_unsafe_name_char(
        #[trigger] s.drop_first()[i],
    ) by {
        assert(s.drop_first()[i] == s[i + 1]);
    }
}

pub proof fn lemma_trim_start_no_unsafe(s: Seq<char>)
    requires
        no_unsafe_chars(s),
    ensures
        no_unsafe_chars(trim_start(s)),
    decreases s.len(),
{
    if s.len() > 0 && crate::text::is_ws(s[0]) {
        lemma_no_unsafe_drop_first(s);
        lemma_trim_start_no_unsafe(s.drop_first());
    }
}

pub proof fn lemma_trim_end_no_unsafe(s: Seq<char>)
    requires
        no_unsafe_chars(s),
    ensures
        no_unsafe_chars(trim_end(s)),
    decreases s.len(),
{
    if s.len() > 0 && crate::text::is_ws(s.last()) {
        lemma_trim_end_no_unsafe(s.drop_last());
    }
}

pub proof fn lemma_trim_char_start_no_unsafe(s: Seq<char>, c: char)
    requires
        no_unsafe_chars(s),
    ensures
        no_unsafe_chars(trim_char_start(s, c)),
    decreases s.len(),
{
    if s.len() > 0 && s[0] == c {
        lemma_no_unsafe_drop_first(s);
        lemma_trim_char_start_no_unsafe(s.drop_first(), c);
    }
}

pub proof fn lemma_trim_char_end_no_unsafe(s: Seq<char>, c: char)
    requires
        no_unsafe_chars(s),
    ensures
        no_unsafe_chars(trim_char_end(s, c)),
    decreases s.len(),
{
    if s.len() > 0 && s.last() == c {
        lemma_trim_char_end_no_unsafe(s.drop_last(), c);
    }
}

/// The cleaned name holds no character that file systems reject.
pub proof fn lemma_cleaned_name_safe(s: Seq<char>)
    ensures
        no_unsafe_chars(cleaned_name(s)),
{
    let r = replace_unsafe(s);
    assert(no_unsafe_chars(r));
    lemma_trim_start_no_unsafe(r);
    lemma_trim_end_no_unsafe(trim_start(r));
    lemma_trim_char_start_no_unsafe(trim(r), '.');
    lemma_trim_char_end_no_unsafe(trim_char_start(trim(r), '.'), '.');
}

proof fn lemma_utf8_len_cons(c: char, p: Seq<char>)
    ensures
        utf8_len(seq![c] + p) == utf8_width(c) + utf8_len(p),
    decreases p.len(),
{
    let q = seq![c] + p;
    if p.len() == 0 {
        assert(q =~= seq![c]);
        assert(q.drop_last() =~= Seq::<char>::empty());
        assert(utf8_len(q.drop_last()) == 0);
        assert(q.last() == c);
    } else {
        lemma_utf8_len_cons(c, p.drop_last());
        assert(q.drop_last() =~= seq![c] + p.drop_last());
        assert(q.last() == p.last());
    }
}

/// A byte prefix is a prefix, and its UTF-8 length is the requested number of bytes.
pub proof fn lemma_byte_prefix_is_prefix(s: Seq<char>, n: nat)
    requires
        byte_prefix(s, n) is Some,
    ensures
        byte_prefix(s, n)->0.len() <= s.len(),
        byte_prefix(s, n)->0 == s.take(byte_prefix(s, n)->0.len() as int),
        utf8_len(byte_prefix(s, n)->0) == n,
    decreases s.len(),
{
    if n == 0 {
        assert(s.take(0) =~= Seq::<char>::empty());
    } else {
        let m = (n - utf8_width(s[0])) as nat;
        lemma_byte_prefix_is_prefix(s.drop_first(), m);
        let p = byte_prefix(s.drop_first(), m)->0;
        assert(seq![s[0]] + p =~= s.take(p.len() as int + 1));
        lemma_utf8_len_cons(s[0], p);
    }
}

fn is_unsafe_name_char_exec(c: char) -> (r: bool)
    ensures
        r == is_unsafe_name_char(c),
{
    c == '/' || c == '\\' || c == ':' || c == '*' || c == '?' || c == '"' || c == '<' || c
        == '>' || c == '|' || is_control_char(c)
}

/// Unsafe characters replaced by `_`.
pub fn replace_unsafe_chars(v: &[char]) -> (r: Vec<char>)
    ensures
        r@ == replace_unsafe(v@),
{
    let mut r: Vec<char> = Vec::new();
    let mut i: usize = 0;
    while i < v.len()
        invariant
            i <= v@.len(),
            r@ =~= replace_unsafe(v@.take(i as int)),
        decreases v@.len() - i,
    {
        let c = v[i];
        if is_unsafe_name_char_exec(c) {
            r.push('_');
        } else {
            r.push(c);
        }
        i = i + 1;
    }
    assert(v@.take(v@.len() as int) =~= v@);
    r
}

proof fn lemma_trim_char_start_skip(s: Seq<char>, c: char, i: int)
    requires
        0 <= i <= s.len(),
        forall|j: int| 0 <= j < i ==> #[trigger] s[j] == c,
        i == s.len() || s[i] != c,
    ensures
        trim_char_start(s, c) == s.skip(i),
    decreases i,
{
    if i == 0 {
        assert(s.skip(0) =~= s);
    } else {
        let t = s.drop_first();
        assert forall|j: int| 0 <= j < i - 1 implies #[trigger] t[j] == c by {
            assert(t[j] == s[j + 1]);
        }
        if i < s.len() {
            assert(t[i - 1] == s[i]);
        }
        lemma_trim_char_start_skip(t, c, i - 1);
        assert(t.skip(i - 1) =~= s.skip(i));
    }
}

proof fn lemma_trim_char_end_take(s: Seq<char>, c: char, j: int)
    requires
        0 <= j <= s.len(),
        forall|k: int| j <= k < s.len() ==> #[trigger] s[k] == c,
        j == 0 || s[j - 1] != c,
    ensures
        trim_char_end(s, c) == s.take(j),
    decreases s.len() - j,
{
    if j == s.len() {
        assert(s.take(j) =~= s);
    } else {
        let t = s.drop_last();
        assert forall|k: int| j <= k < t.len() implies #[trigger] t[k] == c by {
            assert(t[k] == s[k]);
        }
        if j > 0 {
            assert(t[j - 1] == s[j - 1]);
        }
        lemma_trim_char_end_take(t, c, j);
        assert(t.take(j) =~= s.take(j));
    }
}

/// `str::trim_matches(c)` on a character buffer.
pub fn trim_matches_chars(v: &[char], c: char) -> (r: Vec<char>)
    ensures
        r@ == trim_matches_char(v@, c),
{
    let n = v.len();
    let mut i: usize = 0;
    while i < n && v[i] == c
        invariant
            i <= n == v@.len(),
            forall|j: int| 0 <= j < i ==> #[trigger] v@[j] == c,
        decreases n - i,
    {
        i = i + 1;
    }
    proof {
        lemma_trim_char_start_skip(v@, c, i as int);
    }
    let mut j: usize = n;
    while j > i && v[j - 1] == c
        invariant
            i <= j <= n == v@.len(),
            forall|k: int| j <= k < n ==> #[trigger] v@[k] == c,
        decreases j,
    {
        j = j - 1;
    }
    let ghost t = v@.skip(i as int);
    proof {
        assert forall|k: int| (j - i) <= k < t.len() implies #[trigger] t[k] == c by {
            assert(t[k] == v@[k + i]);
        }
        if j > i {
            assert(t[j - i - 1] == v@[j - 1]);
        }
        lemma_trim_char_end_take(t, c, (j - i) as int);
        assert(t.take((j - i) as int) =~= v@.subrange(i as int, j as int));
    }
    crate::text::sub_chars(v, i, j)
}

/// Unsafe characters replaced, white space and dots trimmed.
pub fn cleaned_name_chars(input: &str) -> (r: Vec<char>)
    ensures
        r@ == cleaned_name(input@),
{
    let chars = chars_of(input);
    let mapped = replace_unsafe_chars(&chars);
    let trimmed = trim_chars(&mapped);
    trim_matches_chars(&trimmed, '.')
}

/// Runs of `_` collapsed to one.
pub fn collapse_underscore_chars(v: &[char]) -> (r: Vec<char>)
    requires
        no_unsafe_chars(v@),
    ensures
        r@ == collapse_underscores(v@),
        no_unsafe_chars(r@),
        no_double_underscore(r@),
        v@.len() > 0 ==> r@.len() > 0,
{
    let mut r: Vec<char> = Vec::new();
    let mut prev_underscore = false;
    let mut i: usize = 0;
    while i < v.len()
        invariant
            i <= v@.len(),
            no_unsafe_chars(v@),
            r@ == collapse_underscores(v@.take(i as int)),
            prev_underscore == (i > 0 && v@[i - 1] == '_'),
            prev_underscore ==> r@.len() > 0 && r@.last() == '_',
            i > 0 ==> r@.len() > 0,
            no_unsafe_chars(r@),
            no_double_underscore(r@),
        decreases v@.len() - i,
    {
        let c = v[i];
        let ghost pre = v@.take(i as int + 1);
        proof {
            assert(pre.drop_last() =~= v@.take(i as int));
            assert(pre.last() == c);
            if i > 0 {
                assert(pre[pre.len() - 2] == v@[i - 1]);
            }
        }
        if c == '_' {
            if !prev_underscore {
                r.push(c);
            }
            prev_underscore = true;
        } else {
            r.push(c);
            prev_underscore = false;
        }
        i = i + 1;
    }
    assert(v@.take(v@.len() as int) =~= v@);
    r
}

/// Whether `sanitize_filename` can cut `input` at 200 bytes without splitting a character.
pub fn filename_cut_is_clean(input: &str) -> (r: bool)
    ensures
        r == filename_cut_ok(input@),
{
    let cleaned = cleaned_name_chars(input);
    proof {
        lemma_cleaned_name_safe(input@);
    }
    let collapsed = collapse_underscore_chars(&cleaned);
    if utf8_len_capped(&collapsed, 201) <= 200 {
        true
    } else {
        byte_prefix_chars(&collapsed, 200).is_some()
    }
}

/// A file name safe on common file systems: unsafe characters become `_`, white space
/// and dots are trimmed from both ends, runs of `_` collapse, and the result is cut to
/// 200 bytes. A name that is empty after trimming becomes `download`.
pub fn sanitize_filename(input: &str) -> (r: String)
    requires
        filename_cut_ok(input@),
    ensures
        r@ == sanitized_filename(input@),
        r@.len() > 0,
        no_unsafe_chars(r@),
        no_double_underscore(r@),
        utf8_len(r@) <= 200,
{
    let cleaned = cleaned_name_chars(input);
    if cleaned.len() == 0 {
        let d = String::from_str("download");
        proof {
            reveal_strlit("download");
            assert(no_unsafe_chars(d@));
            assert(no_double_underscore(d@));
            assert(utf8_len(d@) <= 200) by {
                reveal_with_fuel(utf8_len, 9);
            }
        }
        return d;
    }
    proof {
        lemma_cleaned_name_safe(input@);
    }
    let collapsed = collapse_underscore_chars(&cleaned);
    if utf8_len_capped(&collapsed, 201) <= 200 {
        return string_of(&collapsed);
    }
    match byte_prefix_chars(&collapsed, 200) {
        Some(p) => {
            proof {
                lemma_byte_prefix_is_prefix(collapsed@, 200);
                assert forall|i: int| 0 <= i < p@.len() implies !is_unsafe_name_char(
                    #[trigger] p@[i],
                ) by {
                    assert(p@[i] == collapsed@[i]);
                }
                assert forall|i: int| 0 <= i < p@.len() - 1 implies !(#[trigger] p@[i] == '_'
                    && p@[i + 1] == '_') by {
                    assert(p@[i] == collapsed@[i]);
                    assert(p@[i + 1] == collapsed@[i + 1]);
                }
                if p@.len() == 0 {
                    assert(utf8_len(p@) == 0);
                }
            }
            string_of(&p)
        },
        None => {
            proof {
                assert(false);
            }
            String::new()
        },
    }
}

} // verus!
