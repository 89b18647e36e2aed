//! The `preview` command: renders a head or tail slice of every registered
//! dataset, in insertion order.  The row count is a signed, non-zero integer
//! (default six): positive shows the first rows, negative the last ones.  A
//! count beyond one table's height fails for that table alone and leaves
//! every other table's rendering untouched.

use vstd::prelude::*;

use crate::registry::Datasets;
use crate::render::{abs_of, grid_lines, subtitle_of, title_of, RenderError, RenderedTable};
use crate::strutil::{digit_val, is_digit_char, views_of};
use crate::table::Table;

verus! {

/// The row count used when `preview` is given none.
pub const DEFAULT_ROWS: i64 = 6;

/// Arguments of the `preview` command.
#[derive(Debug, PartialEq, Eq, Structural)]
pub struct PreviewCmd {
    /// Number of rows to show per dataset; sign selects head or tail.
    pub rows: i64,
}

/// One dataset's rendering attempt.
#[derive(Debug)]
pub struct PreviewItem {
    /// The dataset's name.
    pub name: String,
    /// Its rendered table, or why it could not be rendered.
    pub rendered: Result<RenderedTable, RenderError>,
}

/// What previewing yields: nothing loaded yet, or one item per dataset.
#[derive(Debug)]
pub enum PreviewOutcome {
    /// No datasets have been loaded.
    Empty,
    /// One rendering attempt per dataset, in insertion order.
    Items(Vec<PreviewItem>),
}

/// The item for one dataset is exactly its own table's rendering: it fails
/// precisely when the count exceeds that table's height, and its lines are
/// that table's grid.  No other dataset enters into it.
pub open spec fn item_ok(item: PreviewItem, name: Seq<char>, t: Table, nrows: int) -> bool {
    &&& item.name@ == name
    &&& (item.rendered is Err) == (abs_of(nrows) > t.spec_height())
    &&& (item.rendered matches Ok(rt) ==> rt.title@ == title_of(name) && rt.subtitle@
        == subtitle_of(nrows) && views_of(rt.lines@) == grid_lines(t, nrows))
}

/// Renders every registered dataset's slice.
pub fn run(cmd: &PreviewCmd, datasets: &Datasets) -> (r: PreviewOutcome)
    requires
        datasets.well_formed(),
        cmd.rows != 0,
    ensures
        (r is Empty) == (datasets.spec_len() == 0),
        r matches PreviewOutcome::Items(items) ==> items@.len() == datasets.spec_len() && forall|
            i: int,
        |
            0 <= i < items@.len() ==> item_ok(
                #[trigger] items@[i],
                datasets.spec_names()[i],
                datasets.spec_tables()[i],
                cmd.rows as int,
            ),
{
    if datasets.is_empty() {
        return PreviewOutcome::Empty;
    }
    let n = datasets.len();
    let mut items: Vec<PreviewItem> = Vec::new();
    let mut i: usize = 0;
    while i < n
        invariant
            datasets.well_formed(),
            cmd.rows != 0,
            n == datasets.spec_len(),
            i <= n,
            items@.len() == i,
            forall|k: int|
                0 <= k < i ==> item_ok(
                    #[trigger] items@[k],
                    datasets.spec_names()[k],
                    datasets.spec_tables()[k],
                    cmd.rows as int,
                ),
        decreases n - i,
    {
        let name = datasets.name_at(i).clone();
        let rendered = crate::render::render_table(datasets.table_at(i), name.as_str(), cmd.rows);
        items.push(PreviewItem { name, rendered });
        i = i + 1;
    }
    PreviewOutcome::Items(items)
}

/// A decimal integer literal: an optional sign and at least one digit.
pub open spec fn is_int_literal(s: Seq<char>) -> bool {
    if s.len() > 0 && (s[0] == '-' || s[0] == '+') {
        all_digits(s.subrange(1, s.len() as int))
    } else {
        all_digits(s)
    }
}

/// A non-empty run of decimal digits.
pub open spec fn all_digits(s: Seq<char>) -> bool {
    s.len() > 0 && forall|i: int| 0 <= i < s.len() ==> is_digit_char(#[trigger] s[i])
}

/// The value of a digit run.
pub open spec fn digits_val(s: Seq<char>) -> nat
    decreases s.len(),
{
    if s.len() == 0 {
        0
    } else {
        digits_val(s.drop_last()) * 10 + digit_val(s.last())
    }
}

/// The value of an integer literal; a leading `+` only marks the sign.
pub open spec fn int_val(s: Seq<char>) -> int {
    if s.len() > 0 && s[0] == '-' {
        -(digits_val(s.subrange(1, s.len() as int)) as int)
    } else if s.len() > 0 && s[0] == '+' {
        digits_val(s.subrange(1, s.len() as int)) as int
    } else {
        digits_val(s) as int
    }
}

/// The value fits a 64-bit signed integer.
pub open spec fn in_i64(x: int) -> bool {
    -0x8000_0000_0000_0000 <= x <= 0x7fff_ffff_ffff_ffff
}

/// A longer digit run is worth at least as much as its prefix.
proof fn lemma_digits_val_prefix(s: Seq<char>, k: int)
    requires
        0 <= k <= s.len(),
    ensures
        digits_val(s.subrange(0, k)) <= digits_val(s),
    decreases s.len() - k,
{
    if k < s.len() {
        lemma_digits_val_prefix(s, k + 1);
        let p = s.subrange(0, k + 1);
        assert(p.drop_last() =~= s.subrange(0, k));
        assert(digits_val(s.subrange(0, k)) <= digits_val(p));
    } else {
        assert(s.subrange(0, k) =~= s);
    }
}

/// Parses the preview row count: it must be a decimal integer, fit 64 bits,
/// and not be zero; each rejection has its own message.
pub fn validate_nonzero(s: &str) -> (r: Result<i64, String>)
    ensures
        (r is Ok) == (is_int_literal(s@) && in_i64(int_val(s@)) && int_val(s@) != 0),
        r matches Ok(v) ==> v == int_val(s@),
        r matches Err(m) ==> m@ == (if is_int_literal(s@) && in_i64(int_val(s@)) {
            "argument must be a non-zero integer number"@
        } else {
            "argument must be an integer number"@
        }),
{
    let n = s.unicode_len();
    if n == 0 {
        return Err(String::from_str("argument must be an integer number"));
    }
    let first = s.get_char(0);
    let neg = first == '-';
    let signed = first == '-' || first == '+';
    let from: usize = if signed {
        1
    } else {
        0
    };
    if from >= n {
        assert(!is_int_literal(s@));
        return Err(String::from_str("argument must be an integer number"));
    }
    let ghost digits = if signed {
        s@.subrange(1, s@.len() as int)
    } else {
        s@
    };
    let limit: u128 = if neg {
        0x8000_0000_0000_0000
    } else {
        0x7fff_ffff_ffff_ffff
    };
    let mut acc: u128 = 0;
    let mut k: usize = from;
    while k < n
        invariant
            n == s@.len(),
            from <= k <= n,
            from == if signed {
                1int
            } else {
                0int
            },
            signed == (s@[0] == '-' || s@[0] == '+'),
            neg == (s@[0] == '-'),
            digits == if signed {
                s@.subrange(1, s@.len() as int)
            } else {
                s@
            },
            limit == if neg {
                0x8000_0000_0000_0000u128
            } else {
                0x7fff_ffff_ffff_ffffu128
            },
            from < n,
            acc == digits_val(digits.subrange(0, k - from)),
            acc <= limit,
            forall|i: int| from <= i < k ==> is_digit_char(#[trigger] s@[i]),
        decreases n - k,
    {
        let c = s.get_char(k);
        if !(c >= '0' && c <= '9') {
            assert(!is_int_literal(s@)) by {
                assert(digits[k - from] == s@[k as int]);
            }
            return Err(String::from_str("argument must be an integer number"));
        }
        let d: u128 = (c as u32 - '0' as u32) as u128;
        proof {
            assert(d == digit_val(c));
            assert(d < 10);
        }
        let next = acc * 10 + d;
        proof {
            let pre = digits.subrange(0, k - from + 1);
            assert(pre.drop_last() =~= digits.subrange(0, k - from));
            assert(pre.last() == s@[k as int]);
            assert(next == digits_val(pre));
        }
        if next > limit {
            proof {
                lemma_digits_val_prefix(digits, k - from + 1);
                assert(digits_val(digits) >= next);
                assert(!in_i64(int_val(s@)) || !is_int_literal(s@)) by {
                    if is_int_literal(s@) {
                        if neg {
                            assert(int_val(s@) == -(digits_val(digits) as int));
                        } else {
                            assert(int_val(s@) == digits_val(digits) as int);
                        }
                    }
                }
            }
            return Err(String::from_str("argument must be an integer number"));
        }
        acc = next;
        k = k + 1;
    }
    proof {
        assert(digits.subrange(0, n - from) =~= digits);
        assert(acc == digits_val(digits));
        assert(all_digits(digits));
        assert(is_int_literal(s@));
        assert(in_i64(int_val(s@)));
    }
    if acc == 0 {
        return Err(String::from_str("argument must be a non-zero integer number"));
    }
    let v: i64 = if neg {
        (-(acc as i128)) as i64
    } else {
        acc as i64
    };
    proof {
        assert(v == int_val(s@));
    }
    Ok(v)
}

} // verus!
