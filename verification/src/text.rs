//! Text helpers shared by the plan, the ledger and the statements.

use std::sync::Arc;

use vstd::prelude::*;
use vstd::utf8::*;

verus! {

/// The characters that carry the Unicode `White_Space` property.
pub open spec fn is_white_space(c: char) -> bool {
    ||| '\u{9}' <= c <= '\u{d}'
    ||| c == '\u{20}'
    ||| c == '\u{85}'
    ||| c == '\u{a0}'
    ||| c == '\u{1680}'
    ||| '\u{2000}' <= c <= '\u{200a}'
    ||| '\u{2028}' <= c <= '\u{2029}'
    ||| c == '\u{202f}'
    ||| c == '\u{205f}'
    ||| c == '\u{3000}'
}

/// A text with nothing left once white space is trimmed from both ends.
pub open spec fn is_blank(text: Seq<char>) -> bool {
    forall|i: int| 0 <= i < text.len() ==> is_white_space(#[trigger] text[i])
}

/// The base ten digits of `n`, most significant first, without leading zeros.
pub open spec fn decimal(n: nat) -> Seq<char>
    decreases n,
{
    if n < 10 {
        seq![('0' as nat + n) as char]
    } else {
        decimal(n / 10).push(('0' as nat + n % 10) as char)
    }
}

/// `char::is_whitespace` of std: true exactly for the characters with the
/// Unicode `White_Space` property, which the contract lists.
pub assume_specification[ char::is_whitespace ](c: char) -> (white: bool)
    ensures
        white == is_white_space(c),
;

/// `<Arc<str> as From<&str>>::from` of std: a shared string with the same
/// characters as `text`.
#[verifier::external_body]
pub(crate) fn shared_text(text: &str) -> (shared: Arc<str>)
    ensures
        (*shared)@ == text@,
{
    Arc::from(text)
}

/// Two texts are the same exactly when their UTF-8 encodings are.
pub proof fn lemma_encoding_is_injective(a: Seq<char>, b: Seq<char>)
    requires
        encode_utf8(a) == encode_utf8(b),
    ensures
        a == b,
{
    vstd::utf8::encode_utf8_decode_utf8(a);
    vstd::utf8::encode_utf8_decode_utf8(b);
}

/// Compares two texts character by character.
pub fn same_text(a: &str, b: &str) -> (same: bool)
    ensures
        same == (a@ == b@),
{
    let left = a.as_bytes();
    let right = b.as_bytes();
    if left.len() != right.len() {
        return false;
    }
    let mut i: usize = 0;
    while i < left.len()
        invariant
            i <= left@.len(),
            left@.len() == right@.len(),
            left@ == encode_utf8(a@),
            right@ == encode_utf8(b@),
            left@.take(i as int) == right@.take(i as int),
        decreases left@.len() - i,
    {
        if left[i] != right[i] {
            return false;
        }
        assert(left@.take(i + 1) == left@.take(i as int).push(left@[i as int]));
        assert(right@.take(i + 1) == right@.take(i as int).push(right@[i as int]));
        i = i + 1;
    }
    proof {
        assert(left@.take(i as int) == left@);
        assert(right@.take(i as int) == right@);
        lemma_encoding_is_injective(a@, b@);
    }
    true
}

/// Decides whether trimming white space leaves nothing of `text`.
pub fn blank(text: &str) -> (result: bool)
    ensures
        result == is_blank(text@),
{
    for c in it: text.chars()
        invariant
            it.seq() == text@,
            forall|i: int| 0 <= i < it.index() ==> is_white_space(#[trigger] text@[i]),
    {
        if !c.is_whitespace() {
            assert(!is_white_space(text@[it.index()]));
            return false;
        }
    }
    true
}

/// Renders `n` in base ten.
pub fn decimal_text(n: u64) -> (text: String)
    ensures
        text@ == decimal(n as nat),
    decreases n,
{
    let digit = decimal_digit(n % 10);
    if n < 10 {
        let mut text = String::new();
        text.append(digit);
        assert(text@ == decimal(n as nat));
        text
    } else {
        let mut text = decimal_text(n / 10);
        text.append(digit);
        assert(text@ == decimal(n as nat));
        text
    }
}

fn decimal_digit(n: u64) -> (digit: &'static str)
    requires
        n < 10,
    ensures
        digit@ == seq![('0' as nat + n) as char],
{
    proof {
        reveal_strlit("0");
        reveal_strlit("1");
        reveal_strlit("2");
        reveal_strlit("3");
        reveal_strlit("4");
        reveal_strlit("5");
        reveal_strlit("6");
        reveal_strlit("7");
        reveal_strlit("8");
        reveal_strlit("9");
    }
    let digit = match n {
        0 => "0",
        1 => "1",
        2 => "2",
        3 => "3",
        4 => "4",
        5 => "5",
        6 => "6",
        7 => "7",
        8 => "8",
        _ => "9",
    };
    assert(digit@ =~= seq![('0' as nat + n) as char]);
    digit
}

/// The number that a text of base ten digits names.
pub open spec fn number(text: Seq<char>) -> int
    decreases text.len(),
{
    if text.len() == 0 {
        0
    } else {
        number(text.drop_last()) * 10 + (text.last() as int - 48)
    }
}

/// The decimal text of a number is made of the ten digits alone, names the number,
/// and has no leading zero but for zero itself, which is one digit.
pub proof fn law_decimal_names_the_number(n: nat)
    ensures
        decimal(n).len() > 0,
        forall|i: int| 0 <= i < decimal(n).len() ==> 48 <= #[trigger] decimal(n)[i] as int <= 57,
        number(decimal(n)) == n,
        n > 0 ==> decimal(n)[0] as int != 48,
        n == 0 ==> decimal(n).len() == 1,
    decreases n,
{
    let digit = ('0' as nat + n % 10) as char;
    assert('0' as int == 48);
    if n < 10 {
        let text = decimal(n);
        assert(text == seq![('0' as nat + n) as char]);
        assert(text.drop_last() == Seq::<char>::empty());
        assert(number(text.drop_last()) == 0);
    } else {
        law_decimal_names_the_number(n / 10);
        let head = decimal(n / 10);
        assert(decimal(n) == head.push(digit));
        assert(decimal(n).drop_last() == head);
        assert(decimal(n)[0] == head[0]);
        assert(decimal(n).last() as int == 48 + n % 10);
        assert forall|i: int| 0 <= i < decimal(n).len() implies 48 <= #[trigger] decimal(
            n,
        )[i] as int <= 57 by {
            if i < head.len() {
                assert(decimal(n)[i] == head[i]);
            }
        }
    }
}

/// A text is blank exactly when it holds none but the characters of the Unicode
/// `White_Space` property, listed here by code point. So a text with anything else
/// in it is not blank, wherever that stands.
pub proof fn law_blank_texts(text: Seq<char>)
    ensures
        is_blank(text) <==> forall|i: int|
            #![trigger text[i]]
            0 <= i < text.len() ==> {
                let code = text[i] as int;
                ||| 9 <= code <= 13
                ||| code == 32
                ||| code == 133
                ||| code == 160
                ||| code == 5760
                ||| 8192 <= code <= 8202
                ||| 8232 <= code <= 8233
                ||| code == 8239
                ||| code == 8287
                ||| code == 12288
            },
{
    if is_blank(text) {
        assert forall|i: int| #![trigger text[i]] 0 <= i < text.len() implies {
            let code = text[i] as int;
            ||| 9 <= code <= 13
            ||| code == 32
            ||| code == 133
            ||| code == 160
            ||| code == 5760
            ||| 8192 <= code <= 8202
            ||| 8232 <= code <= 8233
            ||| code == 8239
            ||| code == 8287
            ||| code == 12288
        } by {
            assert(is_white_space(text[i]));
        }
    }
}

} // verus!
