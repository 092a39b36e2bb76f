//! Reading a comma-separated list of status codes, such as `"404, 500,503"`.
//!
//! Each field is trimmed of whitespace and read as a decimal `u16`, with an
//! optional leading `+`; fields that do not read as one are skipped.
use vstd::prelude::*;

verus! {

pub const COMMA: u8 = 44;

pub const PLUS: u8 = 43;

/// Space, tab, line feed, vertical tab, form feed and carriage return.
pub open spec fn is_space(b: u8) -> bool {
    b == 32 || (9 <= b <= 13)
}

/// The comma-separated fields of `s`; there is always at least one.
pub open spec fn fields(s: Seq<u8>) -> Seq<Seq<u8>>
    decreases s.len(),
{
    if s.len() == 0 {
        seq![seq![]]
    } else if s.last() == COMMA {
        fields(s.drop_last()).push(seq![])
    } else {
        let f = fields(s.drop_last());
        f.update(f.len() - 1, f.last().push(s.last()))
    }
}

pub open spec fn trim_start(f: Seq<u8>) -> Seq<u8>
    decreases f.len(),
{
    if f.len() > 0 && is_space(f[0]) {
        trim_start(f.subrange(1, f.len() as int))
    } else {
        f
    }
}

pub open spec fn trim_end(f: Seq<u8>) -> Seq<u8>
    decreases f.len(),
{
    if f.len() > 0 && is_space(f.last()) {
        trim_end(f.drop_last())
    } else {
        f
    }
}

pub open spec fn all_digits(d: Seq<u8>) -> bool {
    forall|i: int| 0 <= i < d.len() ==> 48 <= #[trigger] d[i] <= 57
}

pub open spec fn digits_value(d: Seq<u8>) -> nat
    decreases d.len(),
{
    if d.len() == 0 {
        0
    } else {
        digits_value(d.drop_last()) * 10 + (d.last() - 48) as nat
    }
}

/// A decimal `u16`: an optional `+`, then one or more digits.
pub open spec fn read_u16(f: Seq<u8>) -> Option<u16> {
    let d = if f.len() > 0 && f[0] == PLUS {
        f.subrange(1, f.len() as int)
    } else {
        f
    };
    if d.len() > 0 && all_digits(d) && digits_value(d) <= 65535 {
        Some(digits_value(d) as u16)
    } else {
        None
    }
}

/// The codes that the fields read as, in order.
pub open spec fn read_fields(fs: Seq<Seq<u8>>) -> Seq<u16>
    decreases fs.len(),
{
    if fs.len() == 0 {
        seq![]
    } else {
        match read_u16(trim_end(trim_start(fs.last()))) {
            Some(v) => read_fields(fs.drop_last()).push(v),
            None => read_fields(fs.drop_last()),
        }
    }
}

/// The codes of a comma-separated list.
pub open spec fn code_list(s: Seq<u8>) -> Seq<u16> {
    read_fields(fields(s))
}

fn is_space_byte(b: u8) -> (r: bool)
    ensures
        r == is_space(b),
{
    b == 32 || (9 <= b && b <= 13)
}

/// Reads `s[start..end]`, trimmed, as a `u16`.
fn read_field(s: &[u8], start: usize, end: usize) -> (r: Option<u16>)
    requires
        start <= end <= s@.len(),
    ensures
        r == read_u16(trim_end(trim_start(s@.subrange(start as int, end as int)))),
{
    let ghost whole = s@.subrange(start as int, end as int);
    let mut lo: usize = start;
    while lo < end && is_space_byte(s[lo])
        invariant
            start <= lo <= end <= s@.len(),
            trim_start(whole) == trim_start(s@.subrange(lo as int, end as int)),
        decreases end - lo,
    {
        assert(s@.subrange(lo as int, end as int).subrange(1, (end - lo) as int) =~= s@.subrange(
            lo + 1,
            end as int,
        ));
        lo += 1;
    }
    assert(trim_start(whole) == s@.subrange(lo as int, end as int));
    let mut hi: usize = end;
    while hi > lo && is_space_byte(s[hi - 1])
        invariant
            start <= lo <= hi <= end <= s@.len(),
            trim_end(trim_start(whole)) == trim_end(s@.subrange(lo as int, hi as int)),
        decreases hi - lo,
    {
        assert(s@.subrange(lo as int, hi as int).drop_last() =~= s@.subrange(
            lo as int,
            hi - 1,
        ));
        hi -= 1;
    }
    let ghost f = s@.subrange(lo as int, hi as int);
    assert(trim_end(trim_start(whole)) == f);
    let mut k: usize = lo;
    if k < hi && s[k] == PLUS {
        k += 1;
    }
    let ghost d = s@.subrange(k as int, hi as int);
    assert(d =~= (if f.len() > 0 && f[0] == PLUS {
        f.subrange(1, f.len() as int)
    } else {
        f
    }));
    if k == hi {
        return None;
    }
    let mut v: u32 = 0;
    let mut i: usize = k;
    while i < hi
        invariant
            k <= i <= hi <= s@.len(),
            d == s@.subrange(k as int, hi as int),
            d.len() > 0,
            whole == s@.subrange(start as int, end as int),
            trim_end(trim_start(whole)) == f,
            read_u16(f) == (if all_digits(d) && digits_value(d) <= 65535 {
                Some(digits_value(d) as u16)
            } else {
                None
            }),
            all_digits(s@.subrange(k as int, i as int)),
            v as nat == if digits_value(s@.subrange(k as int, i as int)) < 65536 {
                digits_value(s@.subrange(k as int, i as int))
            } else {
                65536
            },
        decreases hi - i,
    {
        let b = s[i];
        if b < 48 || b > 57 {
            assert(d[i - k] == b);
            assert(!all_digits(d));
            assert(read_u16(f) is None);
            return None;
        }
        let ghost pre = s@.subrange(k as int, i as int);
        let ghost next = s@.subrange(k as int, i + 1);
        assert(next.drop_last() =~= pre);
        assert(next.last() == b);
        let dv = (b - 48) as u32;
        if v >= 65536 {
            assert(digits_value(next) >= 65536) by (nonlinear_arith)
                requires
                    digits_value(pre) >= 65536,
                    digits_value(next) == digits_value(pre) * 10 + (b - 48) as nat,
            ;
        } else {
            let w = v * 10 + dv;
            if w >= 65536 {
                v = 65536;
            } else {
                v = w;
            }
        }
        i += 1;
    }
    assert(s@.subrange(k as int, i as int) =~= d);
    if v >= 65536 {
        None
    } else {
        Some(v as u16)
    }
}

/// The codes of a comma-separated list, in order, skipping fields that do
/// not read as a `u16`.
pub fn parse_status_list(text: &[u8]) -> (r: Vec<u16>)
    ensures
        r@ == code_list(text@),
{
    let mut out: Vec<u16> = Vec::new();
    let mut start: usize = 0;
    let mut i: usize = 0;
    while i < text.len()
        invariant
            start <= i <= text@.len(),
            out@ == read_fields(fields(text@.take(i as int)).drop_last()),
            fields(text@.take(i as int)).len() > 0,
            fields(text@.take(i as int)).last() == text@.subrange(start as int, i as int),
        decreases text.len() - i,
    {
        let ghost pre = text@.take(i as int);
        let ghost next = text@.take(i + 1);
        assert(next.drop_last() =~= pre);
        assert(next.last() == text@[i as int]);
        if text[i] == COMMA {
            let field = read_field(text, start, i);
            match field {
                Some(v) => out.push(v),
                None => {},
            }
            assert(fields(next).drop_last() =~= fields(pre));
            assert(out@ =~= read_fields(fields(next).drop_last()));
            start = i + 1;
            assert(text@.subrange(start as int, i + 1) =~= seq![]);
        } else {
            assert(fields(next).drop_last() =~= fields(pre).drop_last());
            assert(fields(next).last() =~= text@.subrange(start as int, i + 1));
        }
        i += 1;
    }
    assert(text@.take(i as int) =~= text@);
    let last = read_field(text, start, i);
    let ghost fs = fields(text@);
    assert(fs.drop_last() =~= fs.subrange(0, fs.len() - 1));
    match last {
        Some(v) => out.push(v),
        None => {},
    }
    out
}

} // verus!
