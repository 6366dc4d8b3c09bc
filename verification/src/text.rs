//! Text transformations used throughout the catalog: title normalization
//! (capitalize the first letter of every whitespace-separated word), deriving
//! a title from a file stem, and decimal formatting of entry ids.

use vstd::prelude::*;
use vstd::string::*;

verus! {

/// The whitespace characters recognized when splitting a title into words.
pub open spec fn is_space(c: char) -> bool {
    c == ' ' || c == '\t' || c == '\n' || c == '\r'
}

/// ASCII uppercasing of a single character; anything outside `'a'..='z'` is
/// returned unchanged.
pub open spec fn upper(c: char) -> char {
    if 'a' <= c && c <= 'z' {
        ((c as u8) - 32) as char
    } else {
        c
    }
}

/// One pass of the title normalizer over the characters still to be read.
/// `boundary` says whether the next word character starts a new word;
/// `emitted` whether a word has already been written out (and so a single
/// separating space is owed before the next one).
pub open spec fn norm_go(s: Seq<char>, boundary: bool, emitted: bool) -> Seq<char>
    decreases s.len(),
{
    if s.len() == 0 {
        Seq::empty()
    } else {
        let c = s[0];
        let rest = s.drop_first();
        if is_space(c) {
            norm_go(rest, true, emitted)
        } else if boundary {
            (if emitted {
                seq![' ', upper(c)]
            } else {
                seq![upper(c)]
            }) + norm_go(rest, false, true)
        } else {
            seq![c] + norm_go(rest, false, true)
        }
    }
}

/// Title normalization: split on whitespace, uppercase the first character
/// of every word, rejoin the words with single spaces.
pub open spec fn normalize(s: Seq<char>) -> Seq<char> {
    norm_go(s, true, false)
}

/// Normalized strings have this shape: words of non-whitespace characters,
/// each starting with an uppercase-fixed character, separated by single
/// spaces, with no leading or trailing whitespace. `in_word` distinguishes
/// the middle of a word (where a separating space may follow) from the very
/// start of the string.
spec fn nf(s: Seq<char>, in_word: bool) -> bool
    decreases s.len(),
{
    if s.len() == 0 {
        true
    } else {
        let c = s[0];
        let rest = s.drop_first();
        if in_word {
            if c == ' ' {
                rest.len() > 0 && !is_space(rest[0]) && upper(rest[0]) == rest[0] && nf(
                    rest.drop_first(),
                    true,
                )
            } else {
                !is_space(c) && nf(rest, true)
            }
        } else {
            !is_space(c) && upper(c) == c && nf(rest, true)
        }
    }
}

proof fn lemma_upper_char(c: char)
    ensures
        upper(upper(c)) == upper(c),
        is_space(upper(c)) == is_space(c),
{
}

/// The normalizer only produces strings in normal form.
proof fn lemma_norm_go_nf(s: Seq<char>, boundary: bool, emitted: bool)
    requires
        boundary || emitted,
    ensures
        nf(norm_go(s, boundary, emitted), emitted),
    decreases s.len(),
{
    if s.len() == 0 {
    } else {
        let c = s[0];
        let rest = s.drop_first();
        lemma_upper_char(c);
        if is_space(c) {
            lemma_norm_go_nf(rest, true, emitted);
        } else {
            lemma_norm_go_nf(rest, false, true);
            let tail = norm_go(rest, false, true);
            if boundary {
                if emitted {
                    let out = seq![' ', upper(c)] + tail;
                    assert(out.drop_first() =~= seq![upper(c)] + tail);
                    assert((seq![upper(c)] + tail).drop_first() =~= tail);
                } else {
                    let out = seq![upper(c)] + tail;
                    assert(out.drop_first() =~= tail);
                }
            } else {
                let out = seq![c] + tail;
                assert(out.drop_first() =~= tail);
            }
        }
    }
}

/// Strings in normal form are fixed points of the normalizer.
proof fn lemma_nf_fixed(s: Seq<char>, in_word: bool)
    requires
        nf(s, in_word),
    ensures
        !in_word ==> norm_go(s, true, false) == s,
        in_word ==> norm_go(s, false, true) == s,
    decreases s.len(),
{
    if s.len() == 0 {
    } else {
        let c = s[0];
        let rest = s.drop_first();
        if in_word {
            if c == ' ' {
                let w = rest[0];
                let rest2 = rest.drop_first();
                lemma_nf_fixed(rest2, true);
                assert(norm_go(s, false, true) == norm_go(rest, true, true));
                assert(norm_go(rest, true, true) == seq![' ', upper(w)] + norm_go(
                    rest2,
                    false,
                    true,
                ));
                assert(seq![' ', w] + rest2 =~= s);
            } else {
                lemma_nf_fixed(rest, true);
                assert(seq![c] + rest =~= s);
            }
        } else {
            lemma_nf_fixed(rest, true);
            assert(seq![upper(c)] + rest =~= s);
        }
    }
}

/// Normalizing a title twice gives the same result as normalizing it once.
pub proof fn lemma_normalize_idempotent(s: Seq<char>)
    ensures
        normalize(normalize(s)) == normalize(s),
{
    lemma_norm_go_nf(s, true, false);
    lemma_nf_fixed(normalize(s), false);
}

/// Relies on `String::push`: appends the given character to the end of the
/// string.
#[verifier::external_body]
pub(crate) fn push_char(s: &mut String, c: char)
    ensures
        final(s)@ == old(s)@.push(c),
{
    s.push(c);
}

fn is_space_char(c: char) -> (r: bool)
    ensures
        r == is_space(c),
{
    c == ' ' || c == '\t' || c == '\n' || c == '\r'
}

fn upper_char(c: char) -> (r: char)
    ensures
        r == upper(c),
{
    if 'a' <= c && c <= 'z' {
        ((c as u8) - 32) as char
    } else {
        c
    }
}

/// Normalize a title: capitalize the first letter of every
/// whitespace-separated word and rejoin the words with single spaces.
pub fn normalize_title(title: &str) -> (r: String)
    ensures
        r@ == normalize(title@),
{
    let n = title.unicode_len();
    let mut out = String::new();
    let mut boundary = true;
    let mut emitted = false;
    let mut i: usize = 0;
    proof {
        assert(title@.skip(0) =~= title@);
        assert(Seq::<char>::empty() + norm_go(title@, true, false) =~= norm_go(title@, true, false));
    }
    while i < n
        invariant
            n == title@.len(),
            i <= n,
            boundary || emitted,
            normalize(title@) == out@ + norm_go(title@.skip(i as int), boundary, emitted),
        decreases n - i,
    {
        let c = title.get_char(i);
        proof {
            assert(title@.skip(i as int)[0] == title@[i as int]);
            assert(title@.skip(i as int).drop_first() =~= title@.skip(i as int + 1));
        }
        let ghost pre = out@;
        if is_space_char(c) {
            boundary = true;
        } else if boundary {
            if emitted {
                push_char(&mut out, ' ');
            }
            push_char(&mut out, upper_char(c));
            proof {
                if emitted {
                    assert(out@ =~= pre + seq![' ', upper(c)]);
                } else {
                    assert(out@ =~= pre + seq![upper(c)]);
                }
                assert(pre + (if emitted {
                    seq![' ', upper(c)]
                } else {
                    seq![upper(c)]
                }) + norm_go(title@.skip(i as int + 1), false, true) =~= pre + ((if emitted {
                    seq![' ', upper(c)]
                } else {
                    seq![upper(c)]
                }) + norm_go(title@.skip(i as int + 1), false, true)));
            }
            boundary = false;
            emitted = true;
        } else {
            push_char(&mut out, c);
            proof {
                assert(out@ =~= pre + seq![c]);
                assert(pre + seq![c] + norm_go(title@.skip(i as int + 1), false, true) =~= pre + (
                seq![c] + norm_go(title@.skip(i as int + 1), false, true)));
            }
        }
        i = i + 1;
    }
    proof {
        assert(title@.skip(n as int) =~= Seq::<char>::empty());
        assert(out@ + Seq::<char>::empty() =~= out@);
    }
    out
}

/// A title read off a file stem: every hyphen becomes a space.
pub open spec fn stem_title(s: Seq<char>) -> Seq<char> {
    s.map_values(|c: char| if c == '-' { ' ' } else { c })
}

/// Derive an entry title from a file's base name: hyphens become spaces.
pub fn title_from_stem(stem: &str) -> (r: String)
    ensures
        r@ == stem_title(stem@),
{
    let n = stem.unicode_len();
    let mut out = String::new();
    let mut i: usize = 0;
    while i < n
        invariant
            n == stem@.len(),
            i <= n,
            out@.len() == i,
            forall|j: int| 0 <= j < i ==> out@[j] == stem_title(stem@)[j],
        decreases n - i,
    {
        let c = stem.get_char(i);
        if c == '-' {
            push_char(&mut out, ' ');
        } else {
            push_char(&mut out, c);
        }
        i = i + 1;
    }
    proof {
        assert(out@ =~= stem_title(stem@));
    }
    out
}

/// The decimal digit character for `d`; meaningful for `0 <= d < 10`.
pub open spec fn digit_char(d: int) -> char {
    ((48 + d) as u8) as char
}

/// The decimal numeral for `n`, most significant digit first, with no
/// leading zeros (except for `n == 0` itself).
pub open spec fn dec_digits(n: nat) -> Seq<char>
    decreases n,
{
    if n < 10 {
        seq![digit_char(n as int)]
    } else {
        dec_digits(n / 10) + seq![digit_char((n % 10) as int)]
    }
}

fn digit(d: u32) -> (r: char)
    requires
        d < 10,
    ensures
        r == digit_char(d as int),
{
    ((48 + d) as u8) as char
}

/// Format an entry id as its decimal numeral.
pub fn u32_to_string(n: u32) -> (r: String)
    ensures
        r@ == dec_digits(n as nat),
    decreases n,
{
    if n < 10 {
        let mut s = String::new();
        push_char(&mut s, digit(n));
        proof {
            assert(s@ =~= dec_digits(n as nat));
        }
        s
    } else {
        let mut s = u32_to_string(n / 10);
        push_char(&mut s, digit(n % 10));
        proof {
            assert(s@ =~= dec_digits((n / 10) as nat) + seq![digit_char((n % 10) as int)]);
        }
        s
    }
}

} // verus!
