//! Lists of strings, seen as sequences of character sequences.

use vstd::prelude::*;

verus! {

/// Whether answer `i` of a list of answers is a yes. A missing answer is a no.
pub open spec fn accepted(answers: Seq<bool>, i: int) -> bool {
    0 <= i < answers.len() && answers[i]
}

/// The character sequences of a list of strings, in order.
pub open spec fn texts(v: Seq<String>) -> Seq<Seq<char>> {
    v.map_values(|s: String| s@)
}

/// A copy of a list of strings.
pub fn clone_texts(v: &Vec<String>) -> (r: Vec<String>)
    ensures
        r@ == v@,
{
    let mut out: Vec<String> = Vec::new();
    let mut i: usize = 0;
    while i < v.len()
        invariant
            i <= v.len(),
            out@ == v@.take(i as int),
        decreases v.len() - i,
    {
        out.push(v[i].clone());
        proof {
            assert(v@.take(i + 1) =~= v@.take(i as int).push(v@[i as int]));
        }
        i += 1;
    }
    proof {
        assert(v@.take(v.len() as int) =~= v@);
    }
    out
}

/// Whether `name` occurs in `names`.
pub fn contains_text(names: &Vec<String>, name: &String) -> (r: bool)
    ensures
        r == texts(names@).contains(name@),
{
    let mut i: usize = 0;
    while i < names.len()
        invariant
            i <= names.len(),
            forall|j: int| 0 <= j < i ==> texts(names@)[j] != name@,
        decreases names.len() - i,
    {
        if names[i] == *name {
            assert(texts(names@)[i as int] == name@);
            return true;
        }
        i += 1;
    }
    false
}

/// Appends copies of the strings of `src` to `dst`, in order.
pub fn append_texts(dst: &mut Vec<String>, src: &Vec<String>)
    ensures
        final(dst)@ == old(dst)@ + src@,
{
    let mut i: usize = 0;
    while i < src.len()
        invariant
            i <= src.len(),
            dst@ == old(dst)@ + src@.take(i as int),
        decreases src.len() - i,
    {
        dst.push(src[i].clone());
        proof {
            assert(src@.take(i + 1) =~= src@.take(i as int).push(src@[i as int]));
            assert(dst@ =~= old(dst)@ + src@.take(i + 1));
        }
        i += 1;
    }
    proof {
        assert(src@.take(src.len() as int) =~= src@);
    }
}

/// Whether a string holds exactly the characters of `word`.
pub fn is_word(s: &String, word: &str) -> (r: bool)
    ensures
        r == (s@ == word@),
{
    let w = String::from_str(word);
    *s == w
}

/// Whether a character is whitespace: one of the code points with the
/// Unicode property White_Space.
pub open spec fn white_space(c: char) -> bool {
    let n = c as u32;
    ||| 0x09 <= n <= 0x0D
    ||| n == 0x20
    ||| n == 0x85
    ||| n == 0xA0
    ||| n == 0x1680
    ||| 0x2000 <= n <= 0x200A
    ||| n == 0x2028
    ||| n == 0x2029
    ||| n == 0x202F
    ||| n == 0x205F
    ||| n == 0x3000
}

/// Whether a character is whitespace.
pub fn is_space(c: char) -> (r: bool)
    ensures
        r == white_space(c),
{
    let n: u32 = c as u32;
    (0x09 <= n && n <= 0x0D) || n == 0x20 || n == 0x85 || n == 0xA0 || n == 0x1680 || (0x2000 <= n
        && n <= 0x200A) || n == 0x2028 || n == 0x2029 || n == 0x202F || n == 0x205F || n == 0x3000
}

/// The place of the first character at or after `i` that is no whitespace,
/// or the text's length.
pub open spec fn leading(text: Seq<char>, i: nat) -> nat
    decreases text.len() - i,
{
    if i >= text.len() {
        text.len()
    } else if !white_space(text[i as int]) {
        i
    } else {
        leading(text, i + 1)
    }
}

/// The end of the text before `j` once its trailing whitespace is dropped,
/// but no less than `lo`.
pub open spec fn trailing(text: Seq<char>, j: nat, lo: nat) -> nat
    decreases j,
{
    if j <= lo || j > text.len() {
        lo
    } else if !white_space(text[j - 1]) {
        j
    } else {
        trailing(text, (j - 1) as nat, lo)
    }
}

/// A text without its leading and trailing whitespace.
pub open spec fn trimmed(text: Seq<char>) -> Seq<char> {
    let a = leading(text, 0);
    let b = trailing(text, text.len(), a);
    text.subrange(a as int, b as int)
}

/// A text without its leading and trailing whitespace.
pub fn trim(text: &str) -> (r: String)
    ensures
        r@ == trimmed(text@),
{
    let n = text.unicode_len();
    let mut a: usize = 0;
    while a < n && is_space(text.get_char(a))
        invariant
            a <= n,
            n == text@.len(),
            leading(text@, a as nat) == leading(text@, 0),
        decreases n - a,
    {
        a += 1;
    }
    let mut b: usize = n;
    while b > a && is_space(text.get_char(b - 1))
        invariant
            a <= b <= n,
            n == text@.len(),
            trailing(text@, b as nat, a as nat) == trailing(text@, n as nat, a as nat),
        decreases b,
    {
        b -= 1;
    }
    String::from_str(text.substring_char(a, b))
}

} // verus!
