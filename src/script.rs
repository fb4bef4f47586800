use vstd::prelude::*;

verus! {

/// Whether `c` lies in the Hiragana, Katakana or Katakana Phonetic
/// Extensions block of Unicode.
pub open spec fn is_kana(c: char) -> bool {
    (0x3040 <= c as u32 && c as u32 <= 0x309F) || (0x30A0 <= c as u32 && c as u32 <= 0x30FF) || (
    0x31F0 <= c as u32 && c as u32 <= 0x31FF)
}

/// Whether some character of `s` is kana.
pub open spec fn has_kana(s: Seq<char>) -> bool {
    exists|i: int| 0 <= i < s.len() && is_kana(#[trigger] s[i])
}

/// A rudimentary test for Japanese text: true as soon as one character is
/// Hiragana or Katakana. Mixed-language text counts as Japanese.
pub fn is_jp(s: &str) -> (r: bool)
    ensures
        r == has_kana(s@),
{
    let n = s.unicode_len();
    let mut i: usize = 0;
    while i < n
        invariant
            n == s@.len(),
            0 <= i <= n,
            forall|j: int| 0 <= j < i ==> !is_kana(#[trigger] s@[j]),
        decreases n - i,
    {
        let c = s.get_char(i);
        let code = c as u32;
        if (0x3040 <= code && code <= 0x309F) || (0x30A0 <= code && code <= 0x30FF) || (0x31F0
            <= code && code <= 0x31FF) {
            return true;
        }
        i += 1;
    }
    false
}

/// Text without kana, such as the empty string, is not taken for Japanese.
pub proof fn lemma_no_kana_in_ascii(s: Seq<char>)
    requires
        forall|i: int| 0 <= i < s.len() ==> (#[trigger] s[i] as u32) < 0x80,
    ensures
        !has_kana(s),
{
}

} // verus!
