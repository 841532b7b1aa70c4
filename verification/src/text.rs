//! Text building.

use vstd::prelude::*;
use vstd::string::StringExecFns;

verus! {

/// The decimal digit of a number below ten.
pub open spec fn digit(value: int) -> char {
    (48 + value) as char
}

/// The decimal notation of a number.
pub open spec fn decimal(value: nat) -> Seq<char>
    decreases value,
{
    if value < 10 {
        seq![digit(value as int)]
    } else {
        decimal(value / 10).push(digit((value % 10) as int))
    }
}

fn digit_text(value: u64) -> (result: &'static str)
    requires
        value < 10,
    ensures
        result@ == seq![digit(value as int)],
{
    proof {
        reveal_strlit("0");
        reveal_strlit("1");
        reveal_strlit("2");
        reveal_strlit("3");
        reveal_strlit("4");
        reveal_strlit("5");
        reveal_strlit("6");
        reveal_strlit("7");
        reveal_strlit("8");
        reveal_strlit("9");
    }
    let result: &'static str = match value {
        0 => "0",
        1 => "1",
        2 => "2",
        3 => "3",
        4 => "4",
        5 => "5",
        6 => "6",
        7 => "7",
        8 => "8",
        _ => "9",
    };
    assert(result@ =~= seq![digit(value as int)]);
    result
}

/// Writes a number in decimal notation.
pub fn decimal_text(value: u64) -> (result: String)
    ensures
        result@ == decimal(value as nat),
    decreases value,
{
    if value < 10 {
        digit_text(value).to_owned()
    } else {
        let mut result: String = decimal_text(value / 10);
        result.append(digit_text(value % 10));
        assert(result@ =~= decimal(value as nat));
        result
    }
}

/// Joins two texts.
pub fn join(first: &str, second: &str) -> (result: String)
    ensures
        result@ == first@ + second@,
{
    let mut result: String = first.to_owned();
    result.append(second);
    result
}

/// Whether two texts are the same.
pub fn same_text(first: &str, second: &str) -> (result: bool)
    ensures
        result == (first@ == second@),
{
    first.to_owned() == second.to_owned()
}

proof fn lemma_digit(value: int)
    requires
        0 <= value < 10,
    ensures
        digit(value) as int == 48 + value,
{
}

proof fn lemma_decimal_nonempty(value: nat)
    ensures
        decimal(value).len() > 0,
    decreases value,
{
    if value >= 10 {
        lemma_decimal_nonempty(value / 10);
    }
}

/// Different numbers have different notations.
pub proof fn lemma_decimal_injective(first: nat, second: nat)
    requires
        decimal(first) == decimal(second),
    ensures
        first == second,
    decreases first,
{
    lemma_digit((first % 10) as int);
    lemma_digit((second % 10) as int);
    if first < 10 && second < 10 {
        assert(decimal(first)[0] == digit(first as int));
        assert(decimal(second)[0] == digit(second as int));
    } else if first < 10 {
        lemma_decimal_nonempty(second / 10);
        assert(decimal(second).len() > 1);
    } else if second < 10 {
        lemma_decimal_nonempty(first / 10);
        assert(decimal(first).len() > 1);
    } else {
        assert(decimal(first).last() == digit((first % 10) as int));
        assert(decimal(second).last() == digit((second % 10) as int));
        assert(decimal(first).drop_last() =~= decimal(first / 10));
        assert(decimal(second).drop_last() =~= decimal(second / 10));
        lemma_decimal_injective(first / 10, second / 10);
    }
}

/// Whether a character has the property `White_Space` of Unicode.
pub open spec fn is_space(character: char) -> bool {
    let code = character as int;
    ||| 0x9 <= code <= 0xD
    ||| code == 0x20 || code == 0x85 || code == 0xA0 || code == 0x1680
    ||| 0x2000 <= code <= 0x200A
    ||| code == 0x2028 || code == 0x2029 || code == 0x202F || code == 0x205F || code == 0x3000
}

fn is_white_space(character: char) -> (result: bool)
    ensures
        result == is_space(character),
{
    let code: u32 = character as u32;
    (0x9 <= code && code <= 0xD) || code == 0x20 || code == 0x85 || code == 0xA0 || code == 0x1680
        || (0x2000 <= code && code <= 0x200A) || code == 0x2028 || code == 0x2029 || code == 0x202F
        || code == 0x205F || code == 0x3000
}

/// Whether a text has no character but white space.
pub open spec fn blank(value: Seq<char>) -> bool {
    forall|i: int| 0 <= i < value.len() ==> is_space(#[trigger] value[i])
}

/// Returns whether a text has no character but white space.
pub fn is_blank(value: &str) -> (result: bool)
    ensures
        result == blank(value@),
{
    let length: usize = value.unicode_len();
    let mut index: usize = 0;
    while index < length
        invariant
            index <= length,
            length == value@.len(),
            forall|i: int| 0 <= i < index ==> is_space(#[trigger] value@[i]),
        decreases length - index,
    {
        if !is_white_space(value.get_char(index)) {
            return false;
        }
        index = index + 1;
    }
    true
}

/// The views of several texts.
pub open spec fn views(parts: Seq<&str>) -> Seq<Seq<char>> {
    parts.map_values(|part: &str| part@)
}

/// Texts one behind the other.
pub open spec fn concatenated(parts: Seq<Seq<char>>) -> Seq<char>
    decreases parts.len(),
{
    if parts.len() == 0 {
        Seq::empty()
    } else {
        concatenated(parts.drop_last()) + parts.last()
    }
}

/// Texts one behind the other, with another text between each two.
pub open spec fn separated(parts: Seq<Seq<char>>, separator: Seq<char>) -> Seq<char>
    decreases parts.len(),
{
    if parts.len() == 0 {
        Seq::empty()
    } else if parts.len() == 1 {
        parts[0]
    } else {
        separated(parts.drop_last(), separator) + separator + parts.last()
    }
}

/// Writes texts one behind the other.
pub fn concat(parts: &Vec<&str>) -> (result: String)
    ensures
        result@ == concatenated(views(parts@)),
{
    let mut result: String = String::new();
    let mut index: usize = 0;
    assert(views(parts@).take(0) =~= Seq::empty());
    while index < parts.len()
        invariant
            index <= parts@.len(),
            result@ == concatenated(views(parts@).take(index as int)),
        decreases parts@.len() - index,
    {
        proof {
            let next = views(parts@).take(index + 1);
            assert(next.drop_last() =~= views(parts@).take(index as int));
            assert(next.last() == parts@[index as int]@);
        }
        result.append(parts[index]);
        index = index + 1;
    }
    assert(views(parts@).take(index as int) =~= views(parts@));
    result
}

/// Writes texts one behind the other, with another text between each two.
pub fn separate(parts: &Vec<String>, separator: &str) -> (result: String)
    ensures
        result@ == separated(parts.deep_view(), separator@),
{
    let ghost model = parts.deep_view();
    let mut result: String = String::new();
    let mut index: usize = 0;
    assert(model.take(0) =~= Seq::empty());
    while index < parts.len()
        invariant
            index <= parts@.len(),
            model == parts.deep_view(),
            result@ == separated(model.take(index as int), separator@),
        decreases parts@.len() - index,
    {
        proof {
            let next = model.take(index + 1);
            assert(next.drop_last() =~= model.take(index as int));
            assert(next.last() == parts@[index as int]@);
        }
        if index > 0 {
            result.append(separator);
        }
        result.append(parts[index].as_str());
        assert(result@ =~= separated(model.take(index + 1), separator@));
        index = index + 1;
    }
    assert(model.take(index as int) =~= model);
    result
}

} // verus!
