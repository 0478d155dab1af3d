//! Tidying the text that the speech recogniser hands back: its bracketed
//! sound tags become readable words and runs of white space collapse.

use vstd::prelude::*;
use crate::chunking::{blen, byte_len};
use crate::text::{
    char_is_alphabetic, chars_of, contains_str, distinct_count, has_substring, join, join_chars,
    lowercase, replace_all, replace_str, split_whitespace_chars, str_eq, string_from_chars,
    to_lowercase, trim, trim_string, unicode_is_alphabetic, words,
};

verus! {

/// `s` with each of the recogniser's sound tags replaced, tag by tag in this
/// order.
pub open spec fn sound_tags_replaced(s: Seq<char>) -> Seq<char> {
    let s1 = replace_all(s, "[BLANK_AUDIO]"@, ""@);
    let s2 = replace_all(s1, "[MUSIC PLAYING]"@, "(music)"@);
    let s3 = replace_all(s2, "[MUSIC]"@, "(music)"@);
    let s4 = replace_all(s3, "[music]"@, "(music)"@);
    let s5 = replace_all(s4, "[BEEPING]"@, "(beeping)"@);
    let s6 = replace_all(s5, "[BANG]"@, "(sound)"@);
    let s7 = replace_all(s6, "[coughing]"@, "(coughing)"@);
    let s8 = replace_all(s7, "[electronic beeping]"@, "(electronic beeping)"@);
    let s9 = replace_all(s8, "[upbeat music]"@, "(upbeat music)"@);
    let s10 = replace_all(s9, "[funky music]"@, "(funky music)"@);
    let s11 = replace_all(s10, "[crashing]"@, "(crashing)"@);
    replace_all(s11, "[swoosh]"@, "(swoosh)"@)
}

/// The cleaned transcript: the trimmed text with its tags replaced and its
/// words joined by single spaces; where nothing is left, the trimmed text.
pub open spec fn cleaned_transcript(text: Seq<char>) -> Seq<char> {
    let t = trim(text);
    let c = join(words(sound_tags_replaced(t)), seq![' ']);
    if c.len() == 0 {
        t
    } else {
        c
    }
}

/// Cleans a transcript as `cleaned_transcript` says.
pub fn clean_whisper_output(text: &str) -> (r: String)
    ensures
        r@ == cleaned_transcript(text@),
{
    proof {
        reveal_strlit("[BLANK_AUDIO]");
        reveal_strlit("[MUSIC PLAYING]");
        reveal_strlit("[MUSIC]");
        reveal_strlit("[music]");
        reveal_strlit("[BEEPING]");
        reveal_strlit("[BANG]");
        reveal_strlit("[coughing]");
        reveal_strlit("[electronic beeping]");
        reveal_strlit("[upbeat music]");
        reveal_strlit("[funky music]");
        reveal_strlit("[crashing]");
        reveal_strlit("[swoosh]");
    }
    let t = trim_string(text);
    let s = replace_str(t.as_str(), "[BLANK_AUDIO]", "");
    let s = replace_str(s.as_str(), "[MUSIC PLAYING]", "(music)");
    let s = replace_str(s.as_str(), "[MUSIC]", "(music)");
    let s = replace_str(s.as_str(), "[music]", "(music)");
    let s = replace_str(s.as_str(), "[BEEPING]", "(beeping)");
    let s = replace_str(s.as_str(), "[BANG]", "(sound)");
    let s = replace_str(s.as_str(), "[coughing]", "(coughing)");
    let s = replace_str(s.as_str(), "[electronic beeping]", "(electronic beeping)");
    let s = replace_str(s.as_str(), "[upbeat music]", "(upbeat music)");
    let s = replace_str(s.as_str(), "[funky music]", "(funky music)");
    let s = replace_str(s.as_str(), "[crashing]", "(crashing)");
    let s = replace_str(s.as_str(), "[swoosh]", "(swoosh)");
    assert(s@ == sound_tags_replaced(trim(text@)));
    let v = chars_of(s.as_str());
    let ws = split_whitespace_chars(v.as_slice());
    let sep: Vec<char> = vec![' '];
    let joined = join_chars(&ws, sep.as_slice());
    assert(sep@ =~= seq![' ']);
    if joined.len() == 0 {
        t
    } else {
        string_from_chars(joined.as_slice())
    }
}


// ---------------------------------------------------------------------------
// Whether a transcript is worth keeping
// ---------------------------------------------------------------------------

/// The number of different words among `ws`.
pub open spec fn distinct_words(ws: Seq<Seq<char>>) -> nat {
    ws.to_set().len()
}

/// The number of alphabetic characters in `s`.
pub open spec fn alphabetic_count(s: Seq<char>) -> nat {
    s.filter(|c: char| unicode_is_alphabetic(c)).len()
}

/// Whether a (lower-case, trimmed) transcript holds one of the recogniser's
/// known artifacts or brackets.
pub open spec fn holds_artifact(low: Seq<char>) -> bool {
    has_substring(low, "crying"@) || has_substring(low, "music"@) || has_substring(low, "applause"@)
        || has_substring(low, "silence"@) || has_substring(low, "laughter"@) || has_substring(
        low,
        "thanks for watching"@,
    ) || has_substring(low, "subscribe"@) || has_substring(low, "like and subscribe"@)
        || has_substring(low, "("@) || has_substring(low, ")"@) || has_substring(low, "["@)
        || has_substring(low, "]"@) || has_substring(low, "_beg_"@) || has_substring(low, "_end_"@)
        || has_substring(low, "_sot_"@) || has_substring(low, "_eot_"@)
}

/// Whether a (lower-case) word is a filler that is not kept on its own.
pub open spec fn filler_word(w: Seq<char>) -> bool {
    w == "um"@ || w == "uh"@ || w == "ah"@ || w == "hmm"@ || w == "eh"@ || w == "oh"@ || w == "mm"@
        || w == "a"@ || w == "i"@ || w == "the"@ || w == "and"@ || w == "or"@ || w == "but"@ || w
        == "so"@
}

/// Whether a transcript's text passes the strict quality check: at least
/// two bytes; no artifact in its trimmed lower-case form; not a lone filler
/// word; with more than three words, at least two fifths of them different;
/// and at least half of its characters alphabetic. (The ratios are compared
/// exactly; single-precision division agrees with that for counts below
/// 2^24.)
pub open spec fn transcript_text_acceptable(text: Seq<char>) -> bool {
    let ws = words(text);
    &&& blen(text) >= 2
    &&& !holds_artifact(trim(lowercase(text)))
    &&& (ws.len() == 1 ==> !filler_word(lowercase(ws[0])))
    &&& (ws.len() > 3 ==> 5 * distinct_words(ws) >= 2 * ws.len())
    &&& (text.len() > 0 ==> 2 * alphabetic_count(text) >= text.len())
}

fn count_alphabetic(v: &Vec<char>) -> (n: usize)
    ensures
        n == alphabetic_count(v@),
{
    let mut n: usize = 0;
    let mut i: usize = 0;
    while i < v.len()
        invariant
            i <= v.len(),
            n == alphabetic_count(v@.take(i as int)),
            n <= i,
        decreases v.len() - i,
    {
        proof {
            reveal_with_fuel(Seq::filter, 1);
            assert(v@.take(i + 1).drop_last() =~= v@.take(i as int));
        }
        if char_is_alphabetic(v[i]) {
            n = n + 1;
        }
        i = i + 1;
    }
    assert(v@.take(v.len() as int) =~= v@);
    n
}

fn artifact_in(low: &str) -> (b: bool)
    ensures
        b == holds_artifact(low@),
{
    contains_str(low, "crying") || contains_str(low, "music") || contains_str(low, "applause")
        || contains_str(low, "silence") || contains_str(low, "laughter") || contains_str(
        low,
        "thanks for watching",
    ) || contains_str(low, "subscribe") || contains_str(low, "like and subscribe")
        || contains_str(low, "(") || contains_str(low, ")") || contains_str(low, "[")
        || contains_str(low, "]") || contains_str(low, "_beg_") || contains_str(low, "_end_")
        || contains_str(low, "_sot_") || contains_str(low, "_eot_")
}

fn is_filler(w: &str) -> (b: bool)
    ensures
        b == filler_word(w@),
{
    str_eq(w, "um") || str_eq(w, "uh") || str_eq(w, "ah") || str_eq(w, "hmm") || str_eq(w, "eh")
        || str_eq(w, "oh") || str_eq(w, "mm") || str_eq(w, "a") || str_eq(w, "i") || str_eq(w, "the")
        || str_eq(w, "and") || str_eq(w, "or") || str_eq(w, "but") || str_eq(w, "so")
}

/// The strict quality check of a transcript's text (see
/// `transcript_text_acceptable`); the recogniser's confidence is checked
/// beside it by the caller.
pub fn transcript_text_ok(text: &str) -> (b: bool)
    ensures
        b == transcript_text_acceptable(text@),
{
    if byte_len(text) < 2 {
        return false;
    }
    let lower = to_lowercase(text);
    let low = trim_string(lower.as_str());
    if artifact_in(low.as_str()) {
        return false;
    }
    let v = chars_of(text);
    let ws = split_whitespace_chars(v.as_slice());
    let ghost wv = ws@.map_values(|w: Vec<char>| w@);
    assert(wv == words(text@));
    if ws.len() == 1 {
        assert(ws@[0]@ == wv[0]);
        let first = string_from_chars(ws[0].as_slice());
        let word = to_lowercase(first.as_str());
        if is_filler(word.as_str()) {
            return false;
        }
    }
    if ws.len() > 3 {
        let unique = distinct_count(&ws);
        assert(unique == distinct_words(words(text@)));
        if (unique as u128) * 5 < (ws.len() as u128) * 2 {
            return false;
        }
    }
    let alpha = count_alphabetic(&v);
    let total = v.len();
    if total > 0 && (alpha as u128) * 2 < total as u128 {
        return false;
    }
    true
}

/// Whether a transcript's text passes the lenient quality check: at least
/// two bytes; with more than four words, at least three tenths of them
/// different; and none of the phrases of video outros (in lower case).
pub open spec fn lenient_transcript_text_acceptable(text: Seq<char>) -> bool {
    let ws = words(text);
    let low = lowercase(text);
    &&& blen(text) >= 2
    &&& (ws.len() > 4 ==> 10 * distinct_words(ws) >= 3 * ws.len())
    &&& !(has_substring(low, "thanks for watching"@) || has_substring(low, "subscribe"@)
        || has_substring(low, "like and subscribe"@))
}

/// The lenient quality check of a transcript's text (see
/// `lenient_transcript_text_acceptable`); the recogniser's confidence is
/// checked beside it by the caller.
pub fn lenient_transcript_text_ok(text: &str) -> (b: bool)
    ensures
        b == lenient_transcript_text_acceptable(text@),
{
    if byte_len(text) < 2 {
        return false;
    }
    let v = chars_of(text);
    let ws = split_whitespace_chars(v.as_slice());
    let ghost wv = ws@.map_values(|w: Vec<char>| w@);
    assert(wv == words(text@));
    if ws.len() > 4 {
        let unique = distinct_count(&ws);
        if (unique as u128) * 10 < (ws.len() as u128) * 3 {
            return false;
        }
    }
    let lower = to_lowercase(text);
    let low = lower.as_str();
    !(contains_str(low, "thanks for watching") || contains_str(low, "subscribe") || contains_str(
        low,
        "like and subscribe",
    ))
}

} // verus!
