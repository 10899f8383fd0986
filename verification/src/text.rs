//! Small string-building blocks: decimal rendering, separator joins, and
//! membership tests over lists of strings.

use vstd::prelude::*;

verus! {

/// The digit character for a value below ten.
pub open spec fn digit_char(d: int) -> char {
    if d == 0 {
        '0'
    } else if d == 1 {
        '1'
    } else if d == 2 {
        '2'
    } else if d == 3 {
        '3'
    } else if d == 4 {
        '4'
    } else if d == 5 {
        '5'
    } else if d == 6 {
        '6'
    } else if d == 7 {
        '7'
    } else if d == 8 {
        '8'
    } else {
        '9'
    }
}

/// The decimal rendering of a natural number, most significant digit first.
pub open spec fn dec_of(n: nat) -> Seq<char>
    decreases n,
{
    if n < 10 {
        seq![digit_char(n as int)]
    } else {
        dec_of(n / 10) + seq![digit_char((n % 10) as int)]
    }
}

/// Strings of a list, joined with a separator between neighbours.
pub open spec fn glued(items: Seq<Seq<char>>, sep: Seq<char>) -> Seq<char>
    decreases items.len(),
{
    if items.len() == 0 {
        Seq::<char>::empty()
    } else if items.len() == 1 {
        items.last()
    } else {
        glued(items.drop_last(), sep) + sep + items.last()
    }
}

/// Whether a text occurs in a list of texts.
pub open spec fn contains_text(items: Seq<Seq<char>>, t: Seq<char>) -> bool {
    exists|i: int| 0 <= i < items.len() && items[i] == t
}

/// The views of a sequence of owned strings.
pub open spec fn texts(v: Seq<String>) -> Seq<Seq<char>> {
    v.map_values(|x: String| x@)
}

fn digit_str(d: usize) -> (r: &'static str)
    requires
        d < 10,
    ensures
        r@ =~= seq![digit_char(d as int)],
{
    proof {
        reveal_strlit("0");
        reveal_strlit("1");
        reveal_strlit("2");
        reveal_strlit("3");
        reveal_strlit("4");
        reveal_strlit("5");
        reveal_strlit("6");
        reveal_strlit("7");
        reveal_strlit("8");
        reveal_strlit("9");
    }
    match d {
        0 => "0",
        1 => "1",
        2 => "2",
        3 => "3",
        4 => "4",
        5 => "5",
        6 => "6",
        7 => "7",
        8 => "8",
        _ => "9",
    }
}

/// Decimal rendering of a machine integer.
pub fn usize_to_string(n: usize) -> (r: String)
    ensures
        r@ == dec_of(n as nat),
    decreases n,
{
    if n < 10 {
        String::from_str(digit_str(n))
    } else {
        let mut s = usize_to_string(n / 10);
        s.append(digit_str(n % 10));
        assert(s@ =~= dec_of(n as nat));
        s
    }
}

/// Joins the strings of a list, with the separator between neighbours.
pub fn join_texts(items: &Vec<String>, sep: &str) -> (r: String)
    ensures
        r@ == glued(texts(items@), sep@),
{
    let mut acc = String::new();
    let mut i: usize = 0;
    while i < items.len()
        invariant
            i <= items.len(),
            acc@ == glued(texts(items@).take(i as int), sep@),
        decreases items.len() - i,
    {
        if i > 0 {
            acc.append(sep);
        }
        acc.append(items[i].as_str());
        proof {
            let t = texts(items@).take(i + 1 as int);
            assert(t.drop_last() =~= texts(items@).take(i as int));
            assert(acc@ =~= glued(t, sep@));
        }
        i = i + 1;
    }
    proof {
        assert(texts(items@).take(items@.len() as int) =~= texts(items@));
    }
    acc
}

/// Whether an owned string occurs in a list of owned strings.
pub fn list_contains(items: &Vec<String>, s: &String) -> (r: bool)
    ensures
        r == contains_text(texts(items@), s@),
{
    let mut i: usize = 0;
    while i < items.len()
        invariant
            i <= items.len(),
            forall|j: int| 0 <= j < i ==> #[trigger] texts(items@)[j] != s@,
        decreases items.len() - i,
    {
        proof {
            assert(texts(items@)[i as int] == items@[i as int]@);
        }
        if items[i] == *s {
            return true;
        }
        i = i + 1;
    }
    assert(forall|j: int|
        0 <= j < texts(items@).len() ==> #[trigger] texts(items@)[j] != s@);
    false
}

} // verus!
