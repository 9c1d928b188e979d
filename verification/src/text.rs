//! Text handling: account identifiers, task identifiers and category
//! identifiers.
use vstd::prelude::*;
use vstd::utf8::encode_utf8;

verus! {

/// `-`, `_` and `.` separate the parts of an account identifier.
pub open spec fn is_separator(c: char) -> bool {
    c == '-' || c == '_' || c == '.'
}

/// The characters an account identifier may hold: lower-case ASCII letters,
/// ASCII digits and separators.
pub open spec fn is_account_char(c: char) -> bool {
    ||| 97 <= (c as u32) <= 122
    ||| 48 <= (c as u32) <= 57
    ||| is_separator(c)
}

/// A valid NEAR account identifier: 2 to 64 characters, each a lower-case
/// letter, a digit or a separator, with no separator first, last, or next to
/// another separator.
pub open spec fn account_id_is_valid(s: Seq<char>) -> bool {
    &&& 2 <= s.len() <= 64
    &&& forall|i: int| 0 <= i < s.len() ==> is_account_char(#[trigger] s[i])
    &&& !is_separator(s[0])
    &&& !is_separator(s.last())
    &&& forall|i: int|
        0 <= i < s.len() - 1 ==> !(is_separator(#[trigger] s[i]) && is_separator(s[i + 1]))
}

/// Checks an account identifier with `near_sdk::env::is_valid_account_id`,
/// applied to its UTF-8 bytes. That function accepts 2 to 64 bytes, each a
/// lower-case ASCII letter, an ASCII digit, `-`, `_` or `.`, with no
/// separator first, last or next to another; a character outside ASCII gives
/// a byte it refuses, so over characters it is `account_id_is_valid`.
#[verifier::external_body]
pub(crate) fn check_account_id(id: &String) -> (r: bool)
    ensures
        r == account_id_is_valid(id@),
{
    near_sdk::env::is_valid_account_id(id.as_bytes())
}

/// The number of bytes of the UTF-8 encoding of `s`, as `str::len` gives it.
pub open spec fn byte_len(s: Seq<char>) -> usize {
    encode_utf8(s).len() as usize
}

pub(crate) fn text_byte_len(s: &String) -> (n: usize)
    ensures
        n == byte_len(s@),
{
    s.as_str().len()
}

/// Appends `c` with `String::push`, which adds the character at the end.
#[verifier::external_body]
pub(crate) fn push_char(s: &mut String, c: char)
    ensures
        final(s)@ == old(s)@.push(c),
{
    s.push(c);
}

/// The character of the decimal digit `d`.
pub open spec fn digit_char(d: nat) -> char {
    (48 + d) as char
}

/// The decimal representation of `n`, without leading zeros.
pub open spec fn decimal(n: nat) -> Seq<char>
    decreases n,
{
    if n < 10 {
        seq![digit_char(n)]
    } else {
        decimal(n / 10).push(digit_char(n % 10))
    }
}

fn digit(d: u64) -> (c: char)
    requires
        d < 10,
    ensures
        c == digit_char(d as nat),
{
    if d == 0 {
        '0'
    } else if d == 1 {
        '1'
    } else if d == 2 {
        '2'
    } else if d == 3 {
        '3'
    } else if d == 4 {
        '4'
    } else if d == 5 {
        '5'
    } else if d == 6 {
        '6'
    } else if d == 7 {
        '7'
    } else if d == 8 {
        '8'
    } else {
        '9'
    }
}

/// Appends the decimal representation of `n` to `s`.
pub(crate) fn push_decimal(s: &mut String, n: u64)
    ensures
        final(s)@ == old(s)@ + decimal(n as nat),
    decreases n,
{
    if n >= 10 {
        push_decimal(s, n / 10);
    }
    push_char(s, digit(n % 10));
    proof {
        if n >= 10 {
            assert(decimal(n as nat) == decimal((n / 10) as nat).push(digit_char((n % 10) as nat)));
        }
    }
    assert(final(s)@ =~= old(s)@ + decimal(n as nat));
}

/// The identifier of a task: its owner's account, `_`, and the block index.
pub open spec fn task_id_for(owner: Seq<char>, block_index: u64) -> Seq<char> {
    owner.push('_') + decimal(block_index as nat)
}

pub(crate) fn make_task_id(owner: &String, block_index: u64) -> (id: String)
    ensures
        id@ == task_id_for(owner@, block_index),
{
    let mut id = owner.clone();
    push_char(&mut id, '_');
    push_decimal(&mut id, block_index);
    id
}

/// What `str::to_lowercase` gives for `s`: its Unicode lower-case mapping,
/// which for some characters (such as a final sigma) depends on the
/// characters around them.
pub uninterp spec fn lowercase(s: Seq<char>) -> Seq<char>;

/// Lower-cases `s` with `str::to_lowercase`.
#[verifier::external_body]
fn to_lowercase(s: &String) -> (r: String)
    ensures
        r@ == lowercase(s@),
{
    s.to_lowercase()
}

/// `s` with every space replaced by `_`.
pub open spec fn spaces_to_underscores(s: Seq<char>) -> Seq<char> {
    s.map_values(|c: char| if c == ' ' { '_' } else { c })
}

pub fn replace_spaces(s: &String) -> (r: String)
    ensures
        r@ == spaces_to_underscores(s@),
{
    let mut r = String::new();
    broadcast use vstd::string::axiom_spec_iter;
    for c in it: s.as_str().chars()
        invariant
            it.seq() == s@,
            r@ == spaces_to_underscores(s@.take(it.index() as int)),
    {
        let ghost i = it.index();
        if c == ' ' {
            push_char(&mut r, '_');
        } else {
            push_char(&mut r, c);
        }
        assert(s@.take(i + 1) =~= s@.take(i as int).push(c));
        assert(r@ =~= spaces_to_underscores(s@.take(i + 1)));
    }
    assert(s@.take(s@.len() as int) =~= s@);
    r
}

/// The identifier of a category named `name`: lower-cased, with spaces
/// turned into `_`.
pub open spec fn category_id_for(name: Seq<char>) -> Seq<char> {
    spaces_to_underscores(lowercase(name))
}

pub(crate) fn make_category_id(name: &String) -> (id: String)
    ensures
        id@ == category_id_for(name@),
{
    let lower = to_lowercase(name);
    replace_spaces(&lower)
}

} // verus!
