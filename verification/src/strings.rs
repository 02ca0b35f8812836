//! Text conversions of the value model: integer coercion (with decimal
//! string parsing), and the rendering used by `print`.

use std::fmt::Write;

use vstd::prelude::*;

use crate::heap::{Heap, HeapModel};
use crate::value::{ValModel, Value};

verus! {

/// Whether `c` is a decimal digit.
pub open spec fn is_digit_char(c: char) -> bool {
    48 <= c as u32 <= 57
}

/// The number denoted by a digit sequence, read left to right.
pub open spec fn digits_val(s: Seq<char>) -> int
    decreases s.len(),
{
    if s.len() == 0 {
        0
    } else {
        digits_val(s.drop_last()) * 10 + (s.last() as u32 - 48)
    }
}

/// Whether every character of `s` is a decimal digit.
pub open spec fn all_digits(s: Seq<char>) -> bool {
    forall|i: int| 0 <= i < s.len() ==> is_digit_char(#[trigger] s[i])
}

/// What `str::parse::<i32>` yields, with a failed parse read as 0: an
/// optional sign, then one or more digits, denoting a value in range.
pub open spec fn spec_parse_i32(s: Seq<char>) -> int {
    let neg = s.len() > 0 && s[0] == '-';
    let signed = s.len() > 0 && (s[0] == '-' || s[0] == '+');
    let ds = if signed {
        s.drop_first()
    } else {
        s
    };
    if ds.len() == 0 || !all_digits(ds) {
        0
    } else {
        let v = digits_val(ds);
        if neg {
            if -v >= i32::MIN {
                -v
            } else {
                0
            }
        } else {
            if v <= i32::MAX {
                v
            } else {
                0
            }
        }
    }
}

/// The decimal digit character of `d`.
pub open spec fn digit_char(d: int) -> char {
    ((48 + d) as u8) as char
}

/// The decimal digits of a non-negative number.
pub open spec fn dec_nat(n: int) -> Seq<char>
    decreases n,
{
    if n < 10 {
        seq![digit_char(if n < 0 { 0 } else { n })]
    } else {
        dec_nat(n / 10).push(digit_char(n % 10))
    }
}

/// The decimal rendering of an integer, as `Display` writes it.
pub open spec fn dec_int(v: int) -> Seq<char> {
    if v < 0 {
        seq!['-'] + dec_nat(-v)
    } else {
        dec_nat(v)
    }
}

/// Relies on the `Display` implementation of `i32`: the decimal
/// representation, with a leading `-` for negative values.
#[verifier::external_body]
pub(crate) fn int_to_string(v: i32) -> (r: String)
    ensures
        r@ == dec_int(v as int),
{
    let mut s = String::new();
    let _ = write!(&mut s, "{}", v);
    s
}

/// Relies on `str::parse::<i32>` (`FromStr` for `i32`): an optional sign
/// followed only by digits, rejected on any other shape or on overflow.
#[verifier::external_body]
pub(crate) fn parse_int(s: &String) -> (r: i32)
    ensures
        r as int == spec_parse_i32(s@),
{
    s.parse().unwrap_or(0)
}

/// The integer a value coerces to: a number itself, 1 or 0 for a truth
/// value, the parsed decimal of a text, 0 for everything else.
pub open spec fn spec_to_int(v: ValModel) -> int {
    match v {
        ValModel::Int(x) => x,
        ValModel::Bool(b) => if b {
            1
        } else {
            0
        },
        ValModel::Str(s) => spec_parse_i32(s),
        _ => 0,
    }
}

impl Value {
    /// Coerces a value to an integer for arithmetic.
    pub fn to_int(&self) -> (r: i32)
        ensures
            r as int == spec_to_int(self@),
    {
        match self {
            Value::Int(v) => *v,
            Value::Bool(b) => if *b {
                1
            } else {
                0
            },
            Value::Str(s) => parse_int(s),
            _ => 0,
        }
    }
}

/// The rendering of a value at a given nesting budget: numbers in decimal,
/// truth values as words, texts raw, references as tags, and lists element
/// by element in plain form (`[1, true, s]`), a deliberate departure from
/// the machine-facing debug shape of the value enum, which leaked lock
/// internals for nested lists; a list nested beyond the budget renders as
/// an ellipsis.
pub open spec fn spec_render(h: HeapModel, v: ValModel, fuel: nat) -> Seq<char>
    decreases fuel, 1nat,
{
    match v {
        ValModel::Int(x) => dec_int(x),
        ValModel::Bool(b) => if b {
            "true"@
        } else {
            "false"@
        },
        ValModel::Str(s) => s,
        ValModel::Object(_) => "[Object]"@,
        ValModel::Environment => "[Environment]"@,
        ValModel::GridRow(x) => "[GridRow "@ + dec_int(x) + "]"@,
        ValModel::List(id) => if fuel == 0 {
            "[...]"@
        } else {
            "["@ + spec_render_items(h, h.list_at(id as int), (fuel - 1) as nat) + "]"@
        },
    }
}

/// The comma-separated renderings of list elements.
pub open spec fn spec_render_items(h: HeapModel, items: Seq<ValModel>, fuel: nat) -> Seq<char>
    decreases fuel, items.len() + 2nat,
{
    if items.len() == 0 {
        Seq::empty()
    } else if items.len() == 1 {
        spec_render(h, items[0], fuel)
    } else {
        spec_render(h, items[0], fuel) + ", "@ + spec_render_items(
            h,
            items.drop_first(),
            fuel,
        )
    }
}

/// Renders one value against a heap, with the given nesting budget.
pub fn render_value(heap: &Heap, v: &Value, fuel: u64) -> (r: String)
    ensures
        r@ == spec_render(heap@, v@, fuel as nat),
    decreases fuel, 1nat,
{
    match v {
        Value::Int(x) => int_to_string(*x),
        Value::Bool(b) => if *b {
            String::from_str("true")
        } else {
            String::from_str("false")
        },
        Value::Str(s) => s.clone(),
        Value::Object(_) => String::from_str("[Object]"),
        Value::Environment => String::from_str("[Environment]"),
        Value::GridRow(x) => {
            let mut out = String::from_str("[GridRow ");
            out.append(int_to_string(*x).as_str());
            out.append("]");
            out
        },
        Value::List(id) => {
            if fuel == 0 {
                String::from_str("[...]")
            } else {
                let mut out = String::from_str("[");
                let n = heap.list_len(*id);
                let mut i: usize = 0;
                let ghost items = heap@.list_at(*id as int);
                while i < n
                    invariant
                        n == items.len(),
                        i <= n,
                        items == heap@.list_at(*id as int),
                        fuel >= 1,
                        out@ == "["@ + spec_render_prefix(heap@, items, i as int, (fuel - 1) as nat),
                    decreases n - i,
                {
                    if i > 0 {
                        out.append(", ");
                    }
                    let elem = match heap.list_get(*id, i) {
                        Some(e) => e.dup(),
                        None => Value::Int(0),
                    };
                    let piece = render_value(heap, &elem, fuel - 1);
                    out.append(piece.as_str());
                    proof {
                        lemma_render_prefix_step(heap@, items, i as int, (fuel - 1) as nat);
                    }
                    i += 1;
                }
                out.append("]");
                proof {
                    lemma_render_prefix_all(heap@, items, (fuel - 1) as nat);
                }
                out
            }
        },
    }
}

/// The rendering of the first `k` elements, commas included.
pub open spec fn spec_render_prefix(
    h: HeapModel,
    items: Seq<ValModel>,
    k: int,
    fuel: nat,
) -> Seq<char>
    decreases k,
{
    if k <= 0 {
        Seq::empty()
    } else if k == 1 {
        spec_render(h, items[0], fuel)
    } else {
        spec_render_prefix(h, items, k - 1, fuel) + ", "@ + spec_render(h, items[k - 1], fuel)
    }
}

proof fn lemma_render_prefix_step(h: HeapModel, items: Seq<ValModel>, i: int, fuel: nat)
    requires
        0 <= i < items.len(),
    ensures
        spec_render_prefix(h, items, i + 1, fuel) == if i == 0 {
            spec_render(h, items[0], fuel)
        } else {
            spec_render_prefix(h, items, i, fuel) + ", "@ + spec_render(h, items[i], fuel)
        },
{
}

proof fn lemma_render_prefix_all(h: HeapModel, items: Seq<ValModel>, fuel: nat)
    ensures
        spec_render_prefix(h, items, items.len() as int, fuel) =~= spec_render_items(
            h,
            items,
            fuel,
        ),
    decreases items.len(),
{
    if items.len() > 1 {
        lemma_render_prefix_all(h, items.drop_first(), fuel);
        lemma_render_prefix_shift(h, items, items.len() as int, fuel);
    }
}

proof fn lemma_render_prefix_shift(h: HeapModel, items: Seq<ValModel>, k: int, fuel: nat)
    requires
        2 <= k <= items.len(),
    ensures
        spec_render_prefix(h, items, k, fuel) =~= spec_render(h, items[0], fuel) + ", "@
            + spec_render_prefix(h, items.drop_first(), k - 1, fuel),
    decreases k,
{
    if k > 2 {
        lemma_render_prefix_shift(h, items, k - 1, fuel);
    } else {
        assert(spec_render_prefix(h, items, 1, fuel) == spec_render(h, items[0], fuel));
        assert(spec_render_prefix(h, items.drop_first(), 1, fuel) == spec_render(
            h,
            items.drop_first()[0],
            fuel,
        ));
        assert(items.drop_first()[0] == items[1]);
    }
}

impl Value {
    /// Renders a value for printing; nesting is budgeted by the number of
    /// lists in the heap, which every acyclic structure stays within.
    pub fn to_string(&self, heap: &Heap) -> (r: String)
        ensures
            r@ == spec_render(heap@, self@, heap@.lists.len()),
    {
        render_value(heap, self, heap.lists.len() as u64)
    }
}

} // verus!
