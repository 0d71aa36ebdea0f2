//! Name normalization and the textual form of packet ids.
use vstd::prelude::*;
use vstd::string::StringExecFns;
use heck::CamelCase;
use heck::SnakeCase;

verus! {

/// What heck's snake-case conversion returns for `s`.
pub uninterp spec fn snake_of(s: Seq<char>) -> Seq<char>;

/// What heck's camel-case conversion returns for `s`.
pub uninterp spec fn camel_of(s: Seq<char>) -> Seq<char>;

/// Relies on heck's `SnakeCase::to_snake_case` for `str`, whose result
/// depends on the characters of `s` alone.
#[verifier::external_body]
fn to_snake(s: &str) -> (r: String)
    ensures
        r@ == snake_of(s@),
{
    s.to_snake_case()
}

/// Relies on heck's `CamelCase::to_camel_case` for `str`, whose result
/// depends on the characters of `s` alone.
#[verifier::external_body]
fn to_camel(s: &str) -> (r: String)
    ensures
        r@ == camel_of(s@),
{
    s.to_camel_case()
}

/// The normalized name of a field: its snake-case form.
pub fn field_name(s: &str) -> (r: String)
    ensures
        r@ == snake_of(s@),
{
    to_snake(s)
}

/// The normalized name of a packet type: its camel-case form.
pub fn packet_type_name(s: &str) -> (r: String)
    ensures
        r@ == camel_of(s@),
{
    to_camel(s)
}

/// The views of a list of strings.
pub open spec fn views(s: Seq<String>) -> Seq<Seq<char>> {
    s.map_values(|x: String| x@)
}

/// The first repeated name in `names`: `j` is the least index whose name
/// occurs before it, and `i` the index of that earlier occurrence.
pub fn first_duplicate(names: &Vec<String>) -> (r: Option<(usize, usize)>)
    ensures
        r is None <==> crate::schema::all_distinct(views(names@)),
        r matches Some((i, j)) ==> {
            &&& i < j < names.len()
            &&& names@[i as int]@ == names@[j as int]@
            &&& crate::schema::all_distinct(views(names@).take(j as int))
        },
{
    let mut j: usize = 0;
    while j < names.len()
        invariant
            0 <= j <= names.len(),
            crate::schema::all_distinct(views(names@).take(j as int)),
        decreases names.len() - j,
    {
        let mut i: usize = 0;
        while i < j
            invariant
                0 <= i <= j < names.len(),
                crate::schema::all_distinct(views(names@).take(j as int)),
                forall|k: int| 0 <= k < i ==> names@[k]@ != names@[j as int]@,
            decreases j - i,
        {
            if names[i] == names[j] {
                proof {
                    let vs = views(names@);
                    assert(vs[i as int] == vs[j as int]);
                    assert(!crate::schema::all_distinct(vs));
                    assert(names@[i as int]@ == names@[j as int]@);
                    assert(crate::schema::all_distinct(vs.take(j as int)));
                }
                return Some((i, j));
            }
            i = i + 1;
        }
        proof {
            let vs = views(names@);
            assert forall|a: int, b: int| 0 <= a < b < j + 1 implies
                #[trigger] vs.take(j + 1)[a] != #[trigger] vs.take(j + 1)[b] by {
                if b < j {
                    assert(vs.take(j as int)[a] == vs.take(j + 1)[a]);
                    assert(vs.take(j as int)[b] == vs.take(j + 1)[b]);
                }
            }
        }
        j = j + 1;
    }
    assert(views(names@).take(names.len() as int) =~= views(names@));
    None
}

/// The uppercase hexadecimal digit for `d`, below sixteen.
pub open spec fn hex_digit(d: int) -> char {
    seq!['0', '1', '2', '3', '4', '5', '6', '7', '8', '9', 'A', 'B', 'C', 'D', 'E', 'F'][d]
}

/// The uppercase hexadecimal digits of `n`, without leading zeros.
pub open spec fn hex_of(n: nat) -> Seq<char>
    decreases n,
{
    if n < 16 {
        seq![hex_digit(n as int)]
    } else {
        hex_of(n / 16).push(hex_digit((n % 16) as int))
    }
}

/// A packet id as written in generated code: `0x` and at least two
/// uppercase hexadecimal digits.
pub open spec fn packet_id_text(n: nat) -> Seq<char> {
    if n < 16 {
        seq!['0', 'x', '0'] + hex_of(n)
    } else {
        seq!['0', 'x'] + hex_of(n)
    }
}

fn digit_text(d: u64) -> (r: &'static str)
    requires
        d < 16,
    ensures
        r@ == seq![hex_digit(d as int)],
{
    if d == 0 {
        proof {
            reveal_strlit("0");
        }
        "0"
    } else if d == 1 {
        proof {
            reveal_strlit("1");
        }
        "1"
    } else if d == 2 {
        proof {
            reveal_strlit("2");
        }
        "2"
    } else if d == 3 {
        proof {
            reveal_strlit("3");
        }
        "3"
    } else if d == 4 {
        proof {
            reveal_strlit("4");
        }
        "4"
    } else if d == 5 {
        proof {
            reveal_strlit("5");
        }
        "5"
    } else if d == 6 {
        proof {
            reveal_strlit("6");
        }
        "6"
    } else if d == 7 {
        proof {
            reveal_strlit("7");
        }
        "7"
    } else if d == 8 {
        proof {
            reveal_strlit("8");
        }
        "8"
    } else if d == 9 {
        proof {
            reveal_strlit("9");
        }
        "9"
    } else if d == 10 {
        proof {
            reveal_strlit("A");
        }
        "A"
    } else if d == 11 {
        proof {
            reveal_strlit("B");
        }
        "B"
    } else if d == 12 {
        proof {
            reveal_strlit("C");
        }
        "C"
    } else if d == 13 {
        proof {
            reveal_strlit("D");
        }
        "D"
    } else if d == 14 {
        proof {
            reveal_strlit("E");
        }
        "E"
    } else {
        proof {
            reveal_strlit("F");
        }
        "F"
    }
}

fn hex_text(n: u64) -> (r: String)
    ensures
        r@ == hex_of(n as nat),
    decreases n,
{
    if n < 16 {
        digit_text(n).to_owned()
    } else {
        let mut s = hex_text(n / 16);
        s.append(digit_text(n % 16));
        s
    }
}

/// Formats a packet id as `0x` followed by at least two uppercase hex digits.
pub fn format_packet_id(id: u64) -> (r: String)
    ensures
        r@ == packet_id_text(id as nat),
{
    let digits = hex_text(id);
    let mut r = if id < 16 {
        proof {
            reveal_strlit("0x0");
        }
        "0x0".to_owned()
    } else {
        proof {
            reveal_strlit("0x");
        }
        "0x".to_owned()
    };
    r.append(digits.as_str());
    r
}

} // verus!
